use onechat::domain::{AutoTitleState, Conversation, GenerationConfig, ToolSelection};
use onechat::navigation::{conversation_groups, ConversationGroup, ConversationPeekContent, ConversationPeekState, Page};

fn conversation(title: &str) -> Conversation {
    Conversation {
        id: "conversation-1".into(),
        title: title.into(),
        model_id: None,
        system_prompt: String::new(),
        assistant_opening: String::new(),
        generation_config: GenerationConfig::default(),
        tool_selection: ToolSelection::default(),
        history_limit_override: None,
        temporary: false,
        auto_title_state: AutoTitleState::Pending,
        pinned: false,
        created_at: 0,
        updated_at: 0,
    }
}

#[test]
fn pinned_conversations_have_their_own_group() {
    let mut conversation = conversation("Pinned");
    conversation.pinned = true;
    assert_eq!(
        ConversationGroup::for_conversation(&conversation, 1_705_320_000),
        ConversationGroup::Pinned
    );
}

#[test]
fn conversations_are_grouped_by_local_calendar_date() {
    let now = 1_705_320_000;
    let mut conversation = conversation("Yesterday");
    conversation.updated_at = now - 24 * 60 * 60;
    assert_eq!(ConversationGroup::for_conversation(&conversation, now), ConversationGroup::Yesterday);
}

#[test]
fn groups_follow_the_day_count() {
    assert_eq!(ConversationGroup::for_days(Some(0)), ConversationGroup::Today);
    assert_eq!(ConversationGroup::for_days(Some(-3)), ConversationGroup::Today);
    assert_eq!(ConversationGroup::for_days(Some(1)), ConversationGroup::Yesterday);
    assert_eq!(ConversationGroup::for_days(Some(6)), ConversationGroup::PreviousSevenDays);
    assert_eq!(ConversationGroup::for_days(Some(7)), ConversationGroup::Older);
    assert_eq!(ConversationGroup::for_days(None), ConversationGroup::Older);
    assert_eq!(ConversationGroup::PreviousSevenDays.label(), "Previous 7 days");
    assert_eq!(ConversationGroup::Pinned.label(), "Pinned");
    assert_eq!(Page::initial(), Page::Chat);
}

#[test]
fn stale_load_cannot_replace_a_new_peek() {
    let mut state: ConversationPeekState<String> = ConversationPeekState::new();
    let first = state.open("first".into(), ConversationPeekContent::Loading);
    state.close();
    state.open("second".into(), ConversationPeekContent::Loading);

    assert!(!state.complete("first", first, ConversationPeekContent::Ready(Vec::new())));
    assert_eq!(state.conversation_id.as_deref(), Some("second"));
    assert!(matches!(state.content, ConversationPeekContent::Loading));
}

#[test]
fn current_load_completes_the_matching_peek() {
    let mut state: ConversationPeekState<String> = ConversationPeekState::new();
    let revision = state.open("current".into(), ConversationPeekContent::Loading);

    assert!(state.complete("current", revision, ConversationPeekContent::Ready(Vec::new())));
    assert!(matches!(state.content, ConversationPeekContent::Ready(ref turns) if turns.is_empty()));
}

#[test]
fn the_list_groups_listed_conversations_in_order() {
    let now = 1_705_320_000;
    let day = 24 * 60 * 60;
    let make = |id: &str, updated_at: i64, pinned: bool, temporary: bool| {
        let mut c = conversation(id);
        c.id = id.into();
        c.updated_at = updated_at;
        c.pinned = pinned;
        c.temporary = temporary;
        c
    };
    let conversations = vec![
        make("old", now - 30 * day, false, false),
        make("pinned", now - 30 * day, true, false),
        make("recent", now - 3 * day, false, false),
        make("scratch", now, false, true),
        make("trial", now, false, false),
        make("older", now - 40 * day, false, false),
    ];
    let groups = conversation_groups(&conversations, now, &Some("trial".into()));
    assert_eq!(
        groups,
        vec![
            (ConversationGroup::Pinned, vec![1]),
            (ConversationGroup::PreviousSevenDays, vec![2]),
            (ConversationGroup::Older, vec![0, 5]),
        ]
    );
    let without_transient = conversation_groups(&conversations, now, &None);
    assert_eq!(without_transient[1], (ConversationGroup::Today, vec![4]));
}
