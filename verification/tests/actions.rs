use onechat::actions::{current_after_delete, resolve_destructive_action, DestructiveAction};
use onechat::domain::{AutoTitleState, Conversation, GenerationConfig, ToolSelection};

fn conversation(id: &str) -> Conversation {
    Conversation {
        id: id.into(),
        title: "Chat".into(),
        model_id: None,
        system_prompt: String::new(),
        assistant_opening: String::new(),
        generation_config: GenerationConfig::default(),
        tool_selection: ToolSelection::default(),
        history_limit_override: None,
        temporary: false,
        auto_title_state: AutoTitleState::Pending,
        pinned: false,
        created_at: 0,
        updated_at: 0,
    }
}

#[test]
fn confirmations_name_the_action_and_its_consequence() {
    let clear = DestructiveAction::ClearContext { conversation_id: "c".into() };
    assert_eq!(clear.title(), "Clear Conversation?");
    assert_eq!(clear.description(), "This removes the conversation context used for future responses.");
    let variable = DestructiveAction::DeletePromptVariable { name: "date".into() };
    assert_eq!(variable.title(), "Delete Prompt Variable?");
    assert_eq!(
        variable.description(),
        "Prompts that reference this variable will stop working. This cannot be undone."
    );
    let server = DestructiveAction::DeleteMcpServer { id: "exa".into() };
    assert_eq!(server.title(), "Delete MCP Server?");
    assert_eq!(server.description(), "This action cannot be undone.");
}

#[test]
fn an_answer_settles_the_pending_action() {
    let mut pending = Some(DestructiveAction::DeleteModel { id: "m".into() });
    assert_eq!(resolve_destructive_action(&mut pending, false), None);
    assert_eq!(pending, None);
    pending = Some(DestructiveAction::DeleteModel { id: "m".into() });
    assert_eq!(
        resolve_destructive_action(&mut pending, true),
        Some(DestructiveAction::DeleteModel { id: "m".into() })
    );
    assert_eq!(pending, None);
    assert_eq!(resolve_destructive_action(&mut pending, true), None);
}

#[test]
fn deleting_the_open_conversation_opens_the_first_other_one() {
    let list = vec![conversation("a"), conversation("b"), conversation("c")];
    assert_eq!(current_after_delete(&list, &Some("a".into()), &"a".to_string()), Some("b".to_string()));
    assert_eq!(current_after_delete(&list, &Some("b".into()), &"b".to_string()), Some("a".to_string()));
    assert_eq!(current_after_delete(&list, &Some("c".into()), &"a".to_string()), Some("c".to_string()));
    assert_eq!(current_after_delete(&list, &None, &"a".to_string()), None);
    let single = vec![conversation("a")];
    assert_eq!(current_after_delete(&single, &Some("a".into()), &"a".to_string()), None);
}
