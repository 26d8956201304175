//! Identifiers of what the audio player plays, and when the composer may send.
use vstd::prelude::*;

use crate::text::{push_all, push_str, string_of, u64_decimal, decimal, is_blank, trim};

verus! {

pub open spec fn combined_source(revision: u64) -> Seq<char> {
    "tts:"@ + decimal(revision as nat) + ":combined"@
}

pub open spec fn segment_source(revision: u64, index: usize) -> Seq<char> {
    "tts:"@ + decimal(revision as nat) + ":segment:"@ + decimal(index as nat)
}

pub open spec fn attachment_source(attachment_id: Seq<char>) -> Seq<char> {
    "attachment:"@ + attachment_id
}

/// The player source of the whole spoken text of a speech revision.
pub fn tts_combined_source_id(revision: u64) -> (r: String)
    ensures
        r@ == combined_source(revision),
{
    let mut out: Vec<char> = Vec::new();
    push_str(&mut out, "tts:");
    push_all(&mut out, &u64_decimal(revision));
    push_str(&mut out, ":combined");
    string_of(&out)
}

/// The player source of one spoken segment of a speech revision.
pub fn tts_segment_source_id(revision: u64, index: usize) -> (r: String)
    ensures
        r@ == segment_source(revision, index),
{
    let mut out: Vec<char> = Vec::new();
    push_str(&mut out, "tts:");
    push_all(&mut out, &u64_decimal(revision));
    push_str(&mut out, ":segment:");
    push_all(&mut out, &u64_decimal(index as u64));
    string_of(&out)
}

/// The player source of an audio attachment.
pub fn attachment_source_id(attachment_id: &str) -> (r: String)
    ensures
        r@ == attachment_source(attachment_id@),
{
    let mut out: Vec<char> = Vec::new();
    push_str(&mut out, "attachment:");
    push_str(&mut out, attachment_id);
    string_of(&out)
}

/// Whether the composer may send: it has text other than white space, or attachments.
pub fn composer_ready(prompt: &str, has_attachments: bool) -> (r: bool)
    ensures
        r == (trim(prompt@).len() > 0 || has_attachments),
{
    !is_blank(prompt) || has_attachments
}

} // verus!
