//! Actions that destroy data: what the confirmation asks, how an answer settles the pending
//! action, and which conversation stays open after the open one is deleted.
use vstd::prelude::*;

use crate::domain::{opt_view, Conversation};

verus! {

/// An action that waits for confirmation because it cannot be undone.
#[derive(Clone, Debug, PartialEq, Eq)]
pub enum DestructiveAction {
    DeleteConversation { id: String },
    DeleteProvider { id: String },
    DeleteModel { id: String },
    DeletePromptPreset { name: String },
    DeletePromptVariable { name: String },
    DeleteMcpServer { id: String },
    ClearContext { conversation_id: String },
}

pub open spec fn action_title(action: DestructiveAction) -> Seq<char> {
    match action {
        DestructiveAction::DeleteConversation { .. } => "Delete Conversation?"@,
        DestructiveAction::DeleteProvider { .. } => "Delete Provider?"@,
        DestructiveAction::DeleteModel { .. } => "Delete Model?"@,
        DestructiveAction::DeletePromptPreset { .. } => "Delete Prompt Preset?"@,
        DestructiveAction::DeletePromptVariable { .. } => "Delete Prompt Variable?"@,
        DestructiveAction::DeleteMcpServer { .. } => "Delete MCP Server?"@,
        DestructiveAction::ClearContext { .. } => "Clear Conversation?"@,
    }
}

pub open spec fn action_description(action: DestructiveAction) -> Seq<char> {
    match action {
        DestructiveAction::ClearContext { .. } => "This removes the conversation context used for future responses."@,
        DestructiveAction::DeletePromptVariable { .. } => "Prompts that reference this variable will stop working. This cannot be undone."@,
        _ => "This action cannot be undone."@,
    }
}

impl DestructiveAction {
    /// The question the confirmation asks.
    pub fn title(&self) -> (r: &'static str)
        ensures
            r@ == action_title(*self),
    {
        match self {
            DestructiveAction::DeleteConversation { .. } => "Delete Conversation?",
            DestructiveAction::DeleteProvider { .. } => "Delete Provider?",
            DestructiveAction::DeleteModel { .. } => "Delete Model?",
            DestructiveAction::DeletePromptPreset { .. } => "Delete Prompt Preset?",
            DestructiveAction::DeletePromptVariable { .. } => "Delete Prompt Variable?",
            DestructiveAction::DeleteMcpServer { .. } => "Delete MCP Server?",
            DestructiveAction::ClearContext { .. } => "Clear Conversation?",
        }
    }

    /// What the confirmation says the action does.
    pub fn description(&self) -> (r: &'static str)
        ensures
            r@ == action_description(*self),
    {
        match self {
            DestructiveAction::ClearContext { .. } => "This removes the conversation context used for future responses.",
            DestructiveAction::DeletePromptVariable { .. } => {
                "Prompts that reference this variable will stop working. This cannot be undone."
            },
            _ => "This action cannot be undone.",
        }
    }
}

/// Settles the pending action with the user's answer: the action is no longer pending, and it
/// is handed back to be carried out only when it was confirmed.
pub fn resolve_destructive_action(pending: &mut Option<DestructiveAction>, confirmed: bool) -> (r: Option<DestructiveAction>)
    ensures
        *final(pending) is None,
        r == (if confirmed {
            *old(pending)
        } else {
            None
        }),
{
    let action = pending.take();
    if confirmed {
        action
    } else {
        None
    }
}

/// The conversation open after the conversation `deleted` is deleted: when it was the open
/// one, the first other conversation in the list (or none); otherwise the open one stays.
pub open spec fn open_after_delete(conversations: Seq<Conversation>, current: Option<Seq<char>>, deleted: Seq<char>) -> Option<Seq<char>> {
    if current == Some(deleted) {
        first_other(conversations, deleted, 0)
    } else {
        current
    }
}

/// The id of the first conversation, from index `k` on, that is not `deleted`.
pub open spec fn first_other(conversations: Seq<Conversation>, deleted: Seq<char>, k: int) -> Option<Seq<char>>
    decreases conversations.len() - k,
{
    if k < 0 || k >= conversations.len() {
        None
    } else if conversations[k].id@ != deleted {
        Some(conversations[k].id@)
    } else {
        first_other(conversations, deleted, k + 1)
    }
}

/// The id of the conversation that is open after `deleted` is deleted.
pub fn current_after_delete(conversations: &Vec<Conversation>, current: &Option<String>, deleted: &String) -> (r: Option<String>)
    ensures
        opt_view(r) == open_after_delete(conversations@, opt_view(*current), deleted@),
{
    let is_current = match current {
        Some(id) => *id == *deleted,
        None => false,
    };
    if !is_current {
        return match current {
            Some(id) => Some(id.clone()),
            None => None,
        };
    }
    let mut k: usize = 0;
    while k < conversations.len()
        invariant
            0 <= k <= conversations@.len(),
            first_other(conversations@, deleted@, 0) == first_other(conversations@, deleted@, k as int),
            opt_view(*current) == Some(deleted@),
        decreases conversations.len() - k,
    {
        if conversations[k].id != *deleted {
            return Some(conversations[k].id.clone());
        }
        k += 1;
    }
    None
}

proof fn lemma_first_other_differs(conversations: Seq<Conversation>, deleted: Seq<char>, k: int)
    ensures
        first_other(conversations, deleted, k) != Some(deleted),
        first_other(conversations, deleted, k) matches Some(id) ==> exists|j: int|
            0 <= j < conversations.len() && (#[trigger] conversations[j]).id@ == id,
    decreases conversations.len() - k,
{
    if 0 <= k < conversations.len() && conversations[k].id@ == deleted {
        lemma_first_other_differs(conversations, deleted, k + 1);
    }
}

/// A deleted conversation never stays open; what is open afterwards is a listed conversation
/// or the conversation that was open before.
pub proof fn lemma_deleted_conversation_is_not_open(conversations: Seq<Conversation>, current: Option<Seq<char>>, deleted: Seq<char>)
    ensures
        open_after_delete(conversations, current, deleted) != Some(deleted),
        open_after_delete(conversations, current, deleted) matches Some(id) ==> (current == Some(id) || exists|j: int|
            0 <= j < conversations.len() && (#[trigger] conversations[j]).id@ == id),
{
    lemma_first_other_differs(conversations, deleted, 0);
}

} // verus!
