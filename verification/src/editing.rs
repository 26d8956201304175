//! Editing messages: which responses may be edited or regenerated, and what finishing the
//! edit of a user message does.
use vstd::prelude::*;

use crate::domain::{Attachment, AttachmentKind, Turn};
use crate::history::{active_leaf, active_leaf_turn, find_response, lemma_position_valid, response_position};
use crate::text::{chars_of, trim, trim_str};

verus! {

/// What is done to a response.
#[derive(Clone, Copy, Debug, PartialEq, Eq, Structural)]
pub enum ResponseAction {
    Edit,
    Regenerate,
}

/// The error shown for a response outside the latest turn.
pub open spec fn outside_latest_turn(action: ResponseAction) -> Seq<char> {
    match action {
        ResponseAction::Edit => "Only responses in the latest turn can be edited."@,
        ResponseAction::Regenerate => "Only responses in the latest turn can be regenerated."@,
    }
}

/// The turn at position `t` is the latest turn of the shown branch.
pub open spec fn is_latest_turn(turns: Seq<Turn>, t: int) -> bool {
    active_leaf(turns) matches Some(leaf) && turns[leaf].id@ == turns[t].id@
}

/// Finds the response to edit or regenerate: its turn and its place there when it stands in
/// the latest turn; no error for an unknown response, which is ignored; and the error shown
/// for one in an earlier turn.
pub fn response_in_latest_turn(turns: &Vec<Turn>, response_id: &String, action: ResponseAction) -> (r: Result<(usize, usize), Option<&'static str>>)
    ensures
        match response_position(turns@, response_id@) {
            None => r == Err::<(usize, usize), Option<&'static str>>(None),
            Some(p) => if is_latest_turn(turns@, p.0 as int) {
                r == Ok::<(usize, usize), Option<&'static str>>(p)
            } else {
                r matches Err(Some(e)) && e@ == outside_latest_turn(action)
            },
        },
        r matches Ok(p) ==> p.0 < turns@.len() && p.1 < turns@[p.0 as int].responses@.len(),
{
    assert(turns@.len() == turns.len());
    proof {
        lemma_position_valid(turns@, response_id@, 0);
    }
    let (t, k) = match find_response(turns.as_slice(), response_id) {
        Some(p) => p,
        None => {
            return Err(None);
        },
    };
    let latest = match active_leaf_turn(turns.as_slice()) {
        Some(leaf) => turns[leaf].id == turns[t].id,
        None => false,
    };
    if latest {
        Ok((t, k))
    } else {
        match action {
            ResponseAction::Edit => Err(Some("Only responses in the latest turn can be edited.")),
            ResponseAction::Regenerate => Err(Some("Only responses in the latest turn can be regenerated.")),
        }
    }
}

/// What finishing the edit of a user message does.
#[derive(Debug, PartialEq, Eq)]
pub enum UserEdit {
    /// The message would have neither text nor attachments.
    Empty,
    /// The text is what it was: the editor closes.
    Unchanged,
    /// The message is sent again with this (trimmed) text.
    Resend(String),
}

/// The outcome of an edit of a user message to `edited`.
pub open spec fn user_edit_outcome(edited: Seq<char>, turn: Turn) -> Option<Seq<char>> {
    let content = trim(edited);
    if content.len() == 0 && turn.user.attachments@.len() == 0 {
        None
    } else {
        Some(content)
    }
}

/// The error shown for an edit that empties a message.
pub open spec fn empty_message_error() -> Seq<char> {
    "User messages cannot be empty."@
}

/// What finishing the edit of the user message of `turn` with the text `edited` does.
pub fn user_edit(edited: &str, turn: &Turn) -> (r: UserEdit)
    ensures
        match user_edit_outcome(edited@, *turn) {
            None => r == UserEdit::Empty,
            Some(content) => if content == turn.user.content@ {
                r == UserEdit::Unchanged
            } else {
                r matches UserEdit::Resend(text) && text@ == content
            },
        },
{
    let content = trim_str(edited);
    let chars = chars_of(content.as_str());
    if chars.len() == 0 && turn.user.attachments.len() == 0 {
        return UserEdit::Empty;
    }
    if content == turn.user.content {
        UserEdit::Unchanged
    } else {
        UserEdit::Resend(content)
    }
}

/// A message with an attachment that is not text needs a model that sees images.
pub open spec fn needs_vision(attachments: Seq<Attachment>) -> bool {
    exists|i: int| 0 <= i < attachments.len() && (#[trigger] attachments[i]).kind != AttachmentKind::Text
}

/// Why an edited message cannot be sent to a model, if it cannot: the model does not see
/// images and the message carries an attachment that is not text.
pub fn edited_attachments_refusal(attachments: &Vec<Attachment>, vision: bool) -> (r: Option<&'static str>)
    ensures
        (vision || !needs_vision(attachments@)) ==> r is None,
        (!vision && needs_vision(attachments@)) ==> (r matches Some(e)
            && e@ == "The selected model cannot use the image or PDF attachments on this message."@),
{
    if vision {
        return None;
    }
    let mut i: usize = 0;
    while i < attachments.len()
        invariant
            0 <= i <= attachments@.len(),
            forall|j: int| 0 <= j < i ==> (#[trigger] attachments@[j]).kind == AttachmentKind::Text,
            !vision,
        decreases attachments.len() - i,
    {
        if attachments[i].kind != AttachmentKind::Text {
            assert(attachments@[i as int].kind != AttachmentKind::Text);
            return Some("The selected model cannot use the image or PDF attachments on this message.");
        }
        i += 1;
    }
    None
}

} // verus!
