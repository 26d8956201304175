//! Automatic conversation titles: what is sent to the model, and how its answer becomes a
//! title.
use vstd::prelude::*;

use crate::domain::{
    GenerationConfig, GenerationError, GenerationErrorKind, GenerationRequest, Message,
    MessageRole, Model, Provider, UserMessage, message_views,
};
use crate::text::{chars_of, concat_all, is_ws, push_all, push_str, string_of, trim, trim_chars};
use unicode_segmentation::UnicodeSegmentation;

verus! {

pub const MAX_TITLE_TURNS: usize = 3;

pub const MAX_USER_CHARACTERS: usize = 4000;

pub const MAX_ASSISTANT_CHARACTERS: usize = 8000;

pub const MAX_TITLE_GRAPHEMES: usize = 60;

/// The first `max` characters of a text.
pub open spec fn truncated(value: Seq<char>, max: nat) -> Seq<char> {
    if value.len() <= max {
        value
    } else {
        value.take(max as int)
    }
}

/// The first `max_characters` characters of a text.
pub fn truncate(value: &str, max_characters: usize) -> (r: String)
    ensures
        r@ == truncated(value@, max_characters as nat),
{
    let v = chars_of(value);
    if v.len() <= max_characters {
        string_of(&v)
    } else {
        let t = crate::text::slice_chars(&v, 0, max_characters);
        assert(t@ =~= value@.take(max_characters as int));
        string_of(&t)
    }
}

/// The names of the attachments of a user message, each on a line of its own.
pub open spec fn attachment_lines(content: Seq<char>, names: Seq<Seq<char>>) -> Seq<char>
    decreases names.len(),
{
    if names.len() == 0 {
        content
    } else {
        let before = attachment_lines(content, names.drop_last());
        (if before.len() == 0 {
            before
        } else {
            before + "\n"@
        }) + "[Attachment: "@ + names.last() + "]"@
    }
}

pub open spec fn attachment_names(user: UserMessage) -> Seq<Seq<char>> {
    user.attachments@.map_values(|a: crate::domain::Attachment| a.name@)
}

/// A user message as a title request shows it: its first 4000 characters and a line for
/// each attachment.
pub open spec fn user_title_text(user: UserMessage) -> Seq<char> {
    attachment_lines(truncated(user.content@, MAX_USER_CHARACTERS as nat), attachment_names(user))
}

pub fn title_user_content(user: &UserMessage) -> (r: String)
    ensures
        r@ == user_title_text(*user),
{
    let first = truncate(user.content.as_str(), MAX_USER_CHARACTERS);
    let mut content = chars_of(first.as_str());
    let ghost names = attachment_names(*user);
    let mut i: usize = 0;
    while i < user.attachments.len()
        invariant
            0 <= i <= user.attachments@.len(),
            names == attachment_names(*user),
            content@ == attachment_lines(first@, names.take(i as int)),
            first@ == truncated(user.content@, MAX_USER_CHARACTERS as nat),
        decreases user.attachments.len() - i,
    {
        proof {
            reveal_strlit("\n");
            assert(names.take(i + 1).drop_last() =~= names.take(i as int));
            assert(names.take(i + 1).last() == user.attachments@[i as int].name@);
        }
        if content.len() > 0 {
            content.push('\n');
        }
        push_str(&mut content, "[Attachment: ");
        push_str(&mut content, user.attachments[i].name.as_str());
        push_str(&mut content, "]");
        i += 1;
        proof {
            assert(content@ =~= attachment_lines(first@, names.take(i as int)));
        }
    }
    assert(names.take(user.attachments@.len() as int) =~= names);
    string_of(&content)
}

/// One turn of a title request.
pub open spec fn turn_text(user: UserMessage, assistant: Seq<char>) -> Seq<char> {
    "<turn>\n<user>\n"@ + user_title_text(user) + "\n</user>\n<assistant>\n"@ + truncated(
        assistant,
        MAX_ASSISTANT_CHARACTERS as nat,
    ) + "\n</assistant>\n</turn>"@
}

/// Turns joined by line breaks.
pub open spec fn joined_turns(turns: Seq<(UserMessage, String)>) -> Seq<char>
    decreases turns.len(),
{
    if turns.len() == 0 {
        Seq::empty()
    } else if turns.len() == 1 {
        turn_text(turns[0].0, turns[0].1@)
    } else {
        joined_turns(turns.drop_last()) + "\n"@ + turn_text(turns.last().0, turns.last().1@)
    }
}

/// The conversation a title request shows: its first three turns.
pub open spec fn title_transcript(conversation: Seq<(UserMessage, String)>) -> Seq<char> {
    "<conversation>\n"@ + joined_turns(
        if conversation.len() <= MAX_TITLE_TURNS {
            conversation
        } else {
            conversation.take(MAX_TITLE_TURNS as int)
        },
    ) + "\n</conversation>"@
}

fn transcript_of(conversation: &Vec<(UserMessage, String)>) -> (r: String)
    ensures
        r@ == title_transcript(conversation@),
{
    let n: usize = if conversation.len() <= MAX_TITLE_TURNS {
        conversation.len()
    } else {
        MAX_TITLE_TURNS
    };
    let ghost shown = if conversation@.len() <= MAX_TITLE_TURNS {
        conversation@
    } else {
        conversation@.take(MAX_TITLE_TURNS as int)
    };
    let mut out: Vec<char> = Vec::new();
    push_str(&mut out, "<conversation>\n");
    let ghost head = out@;
    let mut i: usize = 0;
    while i < n
        invariant
            0 <= i <= n,
            n == shown.len(),
            n <= conversation@.len(),
            forall|j: int| 0 <= j < n ==> shown[j] == conversation@[j],
            out@ == head + joined_turns(shown.take(i as int)),
        decreases n - i,
    {
        proof {
            reveal_strlit("\n");
            assert(shown.take(i + 1).drop_last() =~= shown.take(i as int));
        }
        if i > 0 {
            out.push('\n');
        }
        let (user, assistant) = (&conversation[i].0, &conversation[i].1);
        push_str(&mut out, "<turn>\n<user>\n");
        let content = title_user_content(user);
        push_str(&mut out, content.as_str());
        push_str(&mut out, "\n</user>\n<assistant>\n");
        let answer = truncate(assistant.as_str(), MAX_ASSISTANT_CHARACTERS);
        push_str(&mut out, answer.as_str());
        push_str(&mut out, "\n</assistant>\n</turn>");
        i += 1;
        proof {
            let t = shown.take(i as int);
            assert(t.last() == conversation@[i - 1]);
            if i == 1 {
                assert(t.len() == 1 && t[0] == conversation@[0]);
            }
            assert(out@ =~= head + joined_turns(t));
        }
    }
    assert(shown.take(n as int) =~= shown);
    push_str(&mut out, "\n</conversation>");
    string_of(&out)
}

/// The request that asks a model for a title.
pub fn title_request(
    provider: Provider,
    model: Model,
    system_prompt: String,
    reasoning_preset: Option<String>,
    conversation: Vec<(UserMessage, String)>,
) -> (r: GenerationRequest)
    ensures
        r.provider == provider,
        r.model == model,
        r.system_prompt == system_prompt,
        r.config.reasoning_preset == (if model.capabilities.reasoning {
            reasoning_preset
        } else {
            None
        }),
        r.config.max_output_tokens is None,
        r.messages@.len() == 1,
        r.messages@[0].role == MessageRole::User,
        r.messages@[0].text@ == title_transcript(conversation@),
        r.audio_duration_ms == 0,
{
    let config = GenerationConfig { reasoning_preset, max_output_tokens: None }.filtered_for(
        &model.capabilities,
    );
    let transcript = transcript_of(&conversation);
    let mut messages = Vec::new();
    messages.push(Message::user(transcript));
    GenerationRequest { provider, model, system_prompt, config, messages, audio_duration_ms: 0 }
}

/// The grapheme clusters of a text, as the segmentation library finds them.
pub uninterp spec fn grapheme_clusters(s: Seq<char>) -> Seq<Seq<char>>;

/// Splits a text into extended grapheme clusters with
/// `unicode_segmentation::UnicodeSegmentation::graphemes`. The clusters are named, not
/// stated: the contract claims that they are a function of the text and, as the iterator
/// yields the non-empty slices between consecutive cluster boundaries, that none is empty
/// and that together, in order, they are the text.
#[verifier::external_body]
fn graphemes(s: &str) -> (r: Vec<String>)
    ensures
        crate::order::views(r@) == grapheme_clusters(s@),
        concat_all(crate::order::views(r@)) == s@,
        forall|i: int| 0 <= i < r@.len() ==> (#[trigger] r@[i])@.len() > 0,
{
    s.graphemes(true).map(|g| g.to_string()).collect()
}

proof fn lemma_concat_take_is_prefix(parts: Seq<Seq<char>>, k: int)
    requires
        0 <= k <= parts.len(),
    ensures
        concat_all(parts.take(k)).len() <= concat_all(parts).len(),
        concat_all(parts) == concat_all(parts.take(k)) + concat_all(parts).skip(concat_all(parts.take(k)).len() as int),
    decreases parts.len() - k,
{
    if k == parts.len() {
        assert(parts.take(k) =~= parts);
        assert(concat_all(parts).skip(concat_all(parts).len() as int) =~= Seq::<char>::empty());
        assert(concat_all(parts) =~= concat_all(parts) + Seq::<char>::empty());
    } else {
        lemma_concat_take_is_prefix(parts, k + 1);
        assert(parts.take(k + 1).drop_last() =~= parts.take(k));
        let a = concat_all(parts.take(k));
        let b = concat_all(parts.take(k + 1));
        let all = concat_all(parts);
        assert(b == a + parts[k]);
        assert(all == b + all.skip(b.len() as int));
        assert(all =~= a + all.skip(a.len() as int));
    }
}

/// A shortened title is the title itself, or a start of it followed by an ellipsis, when the
/// clusters are those of the title.
pub proof fn lemma_shortened_title_is_a_start(title: Seq<char>, clusters: Seq<Seq<char>>)
    requires
        concat_all(clusters) == title,
    ensures
        shortened(title, clusters) == title || exists|k: int|
            0 <= k <= title.len() && shortened(title, clusters) == #[trigger] title.take(k) + "\u{2026}"@,
{
    if clusters.len() > MAX_TITLE_GRAPHEMES {
        let m = (MAX_TITLE_GRAPHEMES - 1) as int;
        lemma_concat_take_is_prefix(clusters, m);
        let head = concat_all(clusters.take(m));
        assert(head =~= title.take(head.len() as int));
        assert(shortened(title, clusters) == title.take(head.len() as int) + "\u{2026}"@);
    }
}

/// The lines of a text, split at line feeds.
pub open spec fn first_line_from(s: Seq<char>, start: int, k: int) -> Seq<char>
    decreases s.len() - k,
{
    if k >= s.len() || k < 0 {
        s.subrange(start, s.len() as int)
    } else if s[k] == '\n' {
        s.subrange(start, k)
    } else {
        first_line_from(s, start, k + 1)
    }
}

pub proof fn lemma_first_line_len(s: Seq<char>, start: int, k: int)
    requires
        0 <= start <= k <= s.len(),
    ensures
        first_line_from(s, start, k).len() <= s.len() - start,
        first_line_from(s, start, k).len() >= k - start,
    decreases s.len() - k,
{
    if k < s.len() && s[k] != '\n' {
        lemma_first_line_len(s, start, k + 1);
    }
}

/// The first line of the text from `start` on whose trimmed text is not empty, trimmed; or
/// the empty text.
pub open spec fn first_text_line(s: Seq<char>, start: int) -> Seq<char>
    decreases s.len() - start,
{
    if start < 0 || start >= s.len() {
        Seq::empty()
    } else {
        let line = first_line_from(s, start, start);
        proof {
            lemma_first_line_len(s, start, start);
        }
        if trim(line).len() > 0 {
            trim(line)
        } else if start + line.len() + 1 >= s.len() {
            Seq::empty()
        } else {
            first_text_line(s, start + line.len() + 1)
        }
    }
}

/// The text without leading `#` characters.
pub open spec fn without_hashes(s: Seq<char>) -> Seq<char>
    decreases s.len(),
{
    if s.len() > 0 && s[0] == '#' {
        without_hashes(s.drop_first())
    } else {
        s
    }
}

pub open spec fn without_bullet(s: Seq<char>) -> Seq<char> {
    if s.len() >= 2 && (s.take(2) == "- "@ || s.take(2) == "* "@) {
        s.skip(2)
    } else {
        s
    }
}

/// The pairs that wrap a title, in the order they are tried.
pub open spec fn wrapper_pairs() -> Seq<(Seq<char>, Seq<char>)> {
    seq![
        ("**"@, "**"@),
        ("__"@, "__"@),
        ("`"@, "`"@),
        ("\""@, "\""@),
        ("'"@, "'"@),
        ("\u{201c}"@, "\u{201d}"@),
        ("\u{2018}"@, "\u{2019}"@),
    ]
}

/// Whether a text is wrapped in a pair.
pub open spec fn wrapped_in(s: Seq<char>, pair: (Seq<char>, Seq<char>)) -> bool {
    s.len() >= pair.0.len() + pair.1.len() && s.take(pair.0.len() as int) == pair.0 && s.skip(
        s.len() - pair.1.len(),
    ) == pair.1
}

/// The first pair, from index `k` on, that wraps the text.
pub open spec fn wrapper_from(s: Seq<char>, k: int) -> Option<(Seq<char>, Seq<char>)>
    decreases wrapper_pairs().len() - k,
{
    if k < 0 || k >= wrapper_pairs().len() {
        None
    } else if wrapped_in(s, wrapper_pairs()[k]) {
        Some(wrapper_pairs()[k])
    } else {
        wrapper_from(s, k + 1)
    }
}

/// The text with wrapping pairs removed, and the text inside trimmed, for as long as one
/// wraps it.
pub open spec fn unwrapped(s: Seq<char>) -> Seq<char>
    decreases s.len(),
{
    match wrapper_from(s, 0) {
        None => s,
        Some(pair) => if pair.0.len() + pair.1.len() > 0 && pair.0.len() + pair.1.len() <= s.len() {
            proof {
                crate::text::lemma_trim_len(s.subrange(pair.0.len() as int, s.len() - pair.1.len()));
            }
            unwrapped(trim(s.subrange(pair.0.len() as int, s.len() - pair.1.len())))
        } else {
            s
        },
    }
}


/// Where trimmed text stands in the text.
proof fn trim_stretch(s: Seq<char>) -> (ij: (int, int))
    ensures
        0 <= ij.0 <= ij.1 <= s.len(),
        trim(s) == s.subrange(ij.0, ij.1),
{
    crate::text::lemma_trim_start_skip(s);
    let t = crate::text::trim_start(s);
    crate::text::lemma_trim_end_take(t);
    let i = crate::text::leading_ws(s) as int;
    let j = i + t.len() - crate::text::trailing_ws(t);
    assert(trim(s) =~= s.subrange(i, j));
    (i, j)
}

/// Removing wrappers twice removes nothing more.
pub proof fn lemma_unwrapped_is_stable(s: Seq<char>)
    ensures
        unwrapped(unwrapped(s)) == unwrapped(s),
    decreases s.len(),
{
    match wrapper_from(s, 0) {
        None => {},
        Some(pair) => if pair.0.len() + pair.1.len() > 0 && pair.0.len() + pair.1.len() <= s.len() {
            let inner = s.subrange(pair.0.len() as int, s.len() - pair.1.len());
            crate::text::lemma_trim_len(inner);
            lemma_unwrapped_is_stable(trim(inner));
        } else {
        },
    }
}

/// Where the text left after removing wrappers stands in the text.
proof fn unwrapped_stretch(s: Seq<char>) -> (ij: (int, int))
    ensures
        0 <= ij.0 <= ij.1 <= s.len(),
        unwrapped(s) == s.subrange(ij.0, ij.1),
    decreases s.len(),
{
    let w = wrapper_from(s, 0);
    let pair = match w {
        Some(p) => p,
        None => (Seq::<char>::empty(), Seq::<char>::empty()),
    };
    if w is Some && pair.0.len() + pair.1.len() > 0 && pair.0.len() + pair.1.len() <= s.len() {
        let off = pair.0.len() as int;
        let inner = s.subrange(off, s.len() - pair.1.len());
        crate::text::lemma_trim_len(inner);
        let t = trim(inner);
        assert(unwrapped(s) == unwrapped(t));
        let (a, b) = trim_stretch(inner);
        let (c, d) = unwrapped_stretch(t);
        assert(unwrapped(s) =~= s.subrange(off + a + c, off + a + d));
        (off + a + c, off + a + d)
    } else {
        assert(unwrapped(s) == s);
        assert(s.subrange(0, s.len() as int) =~= s);
        (0, s.len() as int)
    }
}

/// What is left after removing wrappers is a stretch of the text.
pub proof fn lemma_unwrapped_is_stretch(s: Seq<char>)
    ensures
        exists|i: int, j: int| 0 <= i <= j <= s.len() && unwrapped(s) == #[trigger] s.subrange(i, j),
{
    let (i, j) = unwrapped_stretch(s);
    assert(unwrapped(s) == s.subrange(i, j));
}

fn wrapper_pair(k: usize) -> (r: (&'static str, &'static str))
    requires
        k < 7,
    ensures
        r.0@ == wrapper_pairs()[k as int].0,
        r.1@ == wrapper_pairs()[k as int].1,
{
    match k {
        0 => ("**", "**"),
        1 => ("__", "__"),
        2 => ("`", "`"),
        3 => ("\"", "\""),
        4 => ("'", "'"),
        5 => ("\u{201c}", "\u{201d}"),
        _ => ("\u{2018}", "\u{2019}"),
    }
}

fn is_wrapped(s: &Vec<char>, start: &Vec<char>, end: &Vec<char>) -> (r: bool)
    ensures
        r == wrapped_in(s@, (start@, end@)),
{
    if start.len() > s.len() || end.len() > s.len() - start.len() {
        return false;
    }
    let front = crate::text::match_at(s, 0, start);
    let back = crate::text::match_at(s, s.len() - end.len(), end);
    proof {
        assert(s@.take(start@.len() as int) =~= s@.subrange(0, start@.len() as int));
        assert(s@.skip(s@.len() - end@.len()) =~= s@.subrange(s@.len() - end@.len(), s@.len() as int));
    }
    front && back
}

proof fn lemma_wrapper_found(s: Seq<char>, k: int)
    requires
        0 <= k,
    ensures
        wrapper_from(s, k) matches Some(p) ==> wrapped_in(s, p),
    decreases wrapper_pairs().len() - k,
{
    if k < wrapper_pairs().len() && !wrapped_in(s, wrapper_pairs()[k]) {
        lemma_wrapper_found(s, k + 1);
    }
}

fn find_wrapper(s: &Vec<char>) -> (r: Option<(Vec<char>, Vec<char>)>)
    ensures
        match wrapper_from(s@, 0) {
            Some(p) => r matches Some(q) && q.0@ == p.0 && q.1@ == p.1 && wrapped_in(s@, p),
            None => r is None,
        },
{
    proof {
        lemma_wrapper_found(s@, 0);
    }
    let mut k: usize = 0;
    while k < 7
        invariant
            0 <= k <= 7,
            wrapper_from(s@, 0) == wrapper_from(s@, k as int),
        decreases 7 - k,
    {
        let (a, b) = wrapper_pair(k);
        let start = chars_of(a);
        let end = chars_of(b);
        if is_wrapped(s, &start, &end) {
            return Some((start, end));
        }
        k += 1;
    }
    None
}

/// The text with wrapping pairs removed, for as long as one wraps it.
pub fn strip_wrappers(value: Vec<char>) -> (r: Vec<char>)
    ensures
        r@ == unwrapped(value@),
{
    let mut current = value;
    loop
        invariant
            unwrapped(current@) == unwrapped(value@),
        decreases current@.len(),
    {
        match find_wrapper(&current) {
            None => {
                return current;
            },
            Some(pair) => {
                let (start, end) = pair;
                if start.len() == 0 && end.len() == 0 {
                    return current;
                }
                let inner = crate::text::slice_chars(&current, start.len(), current.len() - end.len());
                let trimmed = trim_chars(&inner);
                proof {
                    crate::text::lemma_trim_len(inner@);
                }
                current = trimmed;
            },
        }
    }
}


fn first_text_line_of(s: &Vec<char>) -> (r: Vec<char>)
    ensures
        r@ == first_text_line(s@, 0),
{
    let mut start: usize = 0;
    while start < s.len()
        invariant
            0 <= start <= s@.len(),
            first_text_line(s@, 0) == first_text_line(s@, start as int),
        decreases s.len() - start,
    {
        let mut k: usize = start;
        while k < s.len() && s[k] != '\n'
            invariant
                start <= k <= s@.len(),
                first_line_from(s@, start as int, start as int) == first_line_from(s@, start as int, k as int),
            decreases s.len() - k,
        {
            k += 1;
        }
        let line = crate::text::slice_chars(s, start, k);
        assert(line@ == first_line_from(s@, start as int, start as int));
        let trimmed = trim_chars(&line);
        if trimmed.len() > 0 {
            return trimmed;
        }
        if s.len() - k <= 1 {
            return Vec::new();
        }
        start = k + 1;
    }
    Vec::new()
}

fn without_leading_hashes(v: &Vec<char>) -> (r: Vec<char>)
    ensures
        r@ == without_hashes(v@),
{
    let mut i: usize = 0;
    assert(v@.skip(0) =~= v@);
    while i < v.len() && v[i] == '#'
        invariant
            0 <= i <= v@.len(),
            without_hashes(v@) == without_hashes(v@.skip(i as int)),
        decreases v.len() - i,
    {
        assert(v@.skip(i as int).drop_first() =~= v@.skip(i + 1));
        i += 1;
    }
    let r = crate::text::slice_chars(v, i, v.len());
    assert(r@ =~= v@.skip(i as int));
    r
}

fn without_list_bullet(v: Vec<char>) -> (r: Vec<char>)
    ensures
        r@ == without_bullet(v@),
{
    proof {
        reveal_strlit("- ");
        reveal_strlit("* ");
        assert("- "@ =~= seq!['-', ' ']);
        assert("* "@ =~= seq!['*', ' ']);
    }
    if v.len() >= 2 && (v[0] == '-' || v[0] == '*') && v[1] == ' ' {
        assert(v@.take(2) =~= seq![v@[0], v@[1]]);
        let r = crate::text::slice_chars(&v, 2, v.len());
        assert(r@ =~= v@.skip(2));
        r
    } else {
        proof {
            if v@.len() >= 2 {
                assert(v@.take(2)[0] == v@[0]);
                assert(v@.take(2)[1] == v@[1]);
            }
        }
        v
    }
}

/// What a title answer becomes before it is shortened: its first line with text, trimmed,
/// without leading `#`, a list bullet or wrapping quotes and emphasis.
pub open spec fn title_candidate(output: Seq<char>) -> Seq<char> {
    unwrapped(without_bullet(trim(without_hashes(first_text_line(output, 0)))))
}

/// A title of at most 60 grapheme clusters: longer ones keep 59 and end with an ellipsis.
pub open spec fn shortened(title: Seq<char>, clusters: Seq<Seq<char>>) -> Seq<char> {
    if clusters.len() <= MAX_TITLE_GRAPHEMES {
        title
    } else {
        concat_all(clusters.take(MAX_TITLE_GRAPHEMES - 1)) + "\u{2026}"@
    }
}

pub open spec fn empty_title_message() -> Seq<char> {
    "Provider returned an empty title"@
}

/// The title a model's answer gives.
pub fn normalize_title(output: &str) -> (r: Result<String, GenerationError>)
    ensures
        title_candidate(output@).len() == 0 ==> (r matches Err(e) && e.kind == GenerationErrorKind::Unknown
            && e.message@ == empty_title_message() && e.detail is None),
        title_candidate(output@).len() > 0 ==> (r matches Ok(t) && t@ == shortened(
            title_candidate(output@),
            grapheme_clusters(title_candidate(output@)),
        )),
        r matches Ok(t) ==> (t@ == title_candidate(output@) || exists|k: int|
            0 <= k <= title_candidate(output@).len() && t@ == #[trigger] title_candidate(output@).take(k) + "\u{2026}"@),
{
    let chars = chars_of(output);
    let line = first_text_line_of(&chars);
    let no_hashes = without_leading_hashes(&line);
    let trimmed = trim_chars(&no_hashes);
    let no_bullet = without_list_bullet(trimmed);
    let title = strip_wrappers(no_bullet);
    if title.len() == 0 {
        return Err(GenerationError::new(
            GenerationErrorKind::Unknown,
            String::from_str("Provider returned an empty title"),
        ));
    }
    let text = string_of(&title);
    let clusters = graphemes(text.as_str());
    proof {
        lemma_shortened_title_is_a_start(text@, grapheme_clusters(text@));
    }
    if clusters.len() <= MAX_TITLE_GRAPHEMES {
        return Ok(text);
    }
    let mut out: Vec<char> = Vec::new();
    let ghost g = crate::order::views(clusters@);
    let mut i: usize = 0;
    while i < MAX_TITLE_GRAPHEMES - 1
        invariant
            0 <= i <= MAX_TITLE_GRAPHEMES - 1,
            MAX_TITLE_GRAPHEMES - 1 < clusters@.len(),
            g == crate::order::views(clusters@),
            out@ == concat_all(g.take(i as int)),
        decreases MAX_TITLE_GRAPHEMES - 1 - i,
    {
        proof {
            assert(g.take(i + 1).drop_last() =~= g.take(i as int));
            assert(g.take(i + 1).last() == clusters@[i as int]@);
        }
        push_str(&mut out, clusters[i].as_str());
        i += 1;
    }
    push_str(&mut out, "\u{2026}");
    Ok(string_of(&out))
}

/// What a title generation does with one event of the model's stream: text is added to the
/// answer, completion turns the answer into a title, failure ends it; everything else is
/// ignored.
pub fn title_event(output: &mut String, event: crate::domain::GenerationEvent) -> (r: Option<Result<String, GenerationError>>)
    ensures
        match event {
            crate::domain::GenerationEvent::TextDelta(d) => final(output)@ == old(output)@ + d@ && r is None,
            crate::domain::GenerationEvent::Completed => final(output)@ == old(output)@ && match normalize_outcome(old(output)@) {
                Ok(t) => r matches Some(Ok(s)) && s@ == t,
                Err(m) => r matches Some(Err(e)) && e.kind == GenerationErrorKind::Unknown && e.message@ == m
                    && e.detail is None,
            },
            crate::domain::GenerationEvent::Failed(e) => final(output)@ == old(output)@ && r == Some(
                Err::<String, GenerationError>(e),
            ),
            _ => final(output)@ == old(output)@ && r is None,
        },
{
    match event {
        crate::domain::GenerationEvent::TextDelta(delta) => {
            let mut chars = chars_of(output.as_str());
            push_str(&mut chars, delta.as_str());
            *output = string_of(&chars);
            None
        },
        crate::domain::GenerationEvent::Completed => Some(normalize_title(output.as_str())),
        crate::domain::GenerationEvent::Failed(error) => Some(Err(error)),
        _ => None,
    }
}

/// The title an answer gives, or the message of why it gives none.
pub open spec fn normalize_outcome(output: Seq<char>) -> Result<Seq<char>, Seq<char>> {
    if title_candidate(output).len() == 0 {
        Err(empty_title_message())
    } else {
        Ok(shortened(title_candidate(output), grapheme_clusters(title_candidate(output))))
    }
}


/// The index of the first model with this id.
pub open spec fn model_index_from(models: Seq<Model>, id: Seq<char>, k: int) -> Option<int>
    decreases models.len() - k,
{
    if k < 0 || k >= models.len() {
        None
    } else if models[k].id@ == id {
        Some(k)
    } else {
        model_index_from(models, id, k + 1)
    }
}

pub open spec fn model_index(models: Seq<Model>, id: Option<Seq<char>>) -> Option<int> {
    match id {
        Some(i) => model_index_from(models, i, 0),
        None => None,
    }
}

/// The model that writes the title of a conversation, by index, and the reasoning preset it
/// is asked with: the conversation's own model (or else the primary one) with the
/// conversation's preset, or the primary or a chosen model with the title preset.
pub open spec fn title_target(
    settings: AppSettingsView,
    conversation: crate::domain::Conversation,
    models: Seq<Model>,
) -> Option<(int, Option<Seq<char>>)> {
    let index = match settings.source {
        TitleSourceView::Current => match model_index(models, crate::domain::opt_view(conversation.model_id)) {
            Some(i) => Some(i),
            None => model_index(models, settings.primary),
        },
        TitleSourceView::Primary => model_index(models, settings.primary),
        TitleSourceView::Model(id) => model_index(models, Some(id)),
    };
    let preset = match settings.source {
        TitleSourceView::Current => crate::domain::opt_view(conversation.generation_config.reasoning_preset),
        _ => settings.title_preset,
    };
    match index {
        Some(i) => Some((i, preset)),
        None => None,
    }
}

pub enum TitleSourceView {
    Current,
    Primary,
    Model(Seq<char>),
}

/// The parts of the settings that choose a title model.
pub struct AppSettingsView {
    pub primary: Option<Seq<char>>,
    pub source: TitleSourceView,
    pub title_preset: Option<Seq<char>>,
}

pub open spec fn settings_view(s: crate::domain::AppSettings) -> AppSettingsView {
    AppSettingsView {
        primary: crate::domain::opt_view(s.primary_model_id),
        source: match s.title_generation_model {
            crate::domain::TitleModelSource::Current => TitleSourceView::Current,
            crate::domain::TitleModelSource::Primary => TitleSourceView::Primary,
            crate::domain::TitleModelSource::Model(id) => TitleSourceView::Model(id@),
        },
        title_preset: crate::domain::opt_view(s.title_generation_reasoning_preset),
    }
}

proof fn lemma_model_index_range(models: Seq<Model>, id: Seq<char>, k: int)
    requires
        0 <= k,
    ensures
        model_index_from(models, id, k) matches Some(i) ==> k <= i < models.len(),
    decreases models.len() - k,
{
    if k < models.len() && models[k].id@ != id {
        lemma_model_index_range(models, id, k + 1);
    }
}

fn find_model(models: &[Model], id: &Option<String>) -> (r: Option<usize>)
    ensures
        match model_index(models@, crate::domain::opt_view(*id)) {
            Some(i) => 0 <= i < models@.len() && r == Some(i as usize),
            None => r is None,
        },
{
    let target = match id {
        Some(t) => t,
        None => {
            return None;
        },
    };
    proof {
        lemma_model_index_range(models@, target@, 0);
    }
    let mut k: usize = 0;
    while k < models.len()
        invariant
            0 <= k <= models@.len(),
            crate::domain::opt_view(*id) == Some(target@),
            model_index_from(models@, target@, 0) == model_index_from(models@, target@, k as int),
        decreases models.len() - k,
    {
        if models[k].id == *target {
            return Some(k);
        }
        k += 1;
    }
    None
}

/// The model that writes the title of a conversation, and the reasoning preset it is
/// asked with.
pub fn resolve_title_target<'a>(
    settings: &crate::domain::AppSettings,
    conversation: &crate::domain::Conversation,
    models: &'a [Model],
) -> (r: Option<(&'a Model, Option<String>)>)
    ensures
        match title_target(settings_view(*settings), *conversation, models@) {
            Some(t) => r matches Some(p) && 0 <= t.0 < models@.len() && *p.0 == models@[t.0]
                && crate::domain::opt_view(p.1) == t.1,
            None => r is None,
        },
{
    let index = match &settings.title_generation_model {
        crate::domain::TitleModelSource::Current => match find_model(models, &conversation.model_id) {
            Some(i) => Some(i),
            None => find_model(models, &settings.primary_model_id),
        },
        crate::domain::TitleModelSource::Primary => find_model(models, &settings.primary_model_id),
        crate::domain::TitleModelSource::Model(id) => find_model(models, &Some(id.clone())),
    };
    let preset = match &settings.title_generation_model {
        crate::domain::TitleModelSource::Current => crate::domain::clone_opt(
            &conversation.generation_config.reasoning_preset,
        ),
        _ => crate::domain::clone_opt(&settings.title_generation_reasoning_preset),
    };
    match index {
        Some(i) => Some((&models[i], preset)),
        None => None,
    }
}

} // verus!
