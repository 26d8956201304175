//! Exports a conversation path as Markdown or as a self-contained HTML document.
use vstd::prelude::*;
use crate::domain::{
    message_status_text, AssistantResponse, Attachment, AttachmentFile, AttachmentKind,
    Conversation, MessageStatus, Timestamp, Turn,
};
use crate::html::{escape, markdown_html, to_html};
use crate::prompt::lookup;
use crate::text::{
    chars_of, i64_decimal, is_whitespace, is_ws, push_all, push_str, signed_decimal, string_of,
    trim, trim_chars, u64_decimal, decimal,
};
use crate::time::{local_display, rfc3339_utc, utc_rfc3339};

verus! {

/// The colour scheme that an HTML export asks for.
#[derive(Clone, Copy, Debug, PartialEq, Eq, Structural)]
pub enum ExportTheme {
    Auto,
    Light,
    Dark,
}

/// A timestamp in RFC 3339 (UTC), or its decimal value where the calendar cannot show it.
pub open spec fn stamp(timestamp: i64) -> Seq<char> {
    match rfc3339_utc(timestamp) {
        Some(s) => s,
        None => signed_decimal(timestamp as int),
    }
}

fn format_timestamp(timestamp: Timestamp) -> (r: Vec<char>)
    ensures
        r@ == stamp(timestamp),
{
    match utc_rfc3339(timestamp) {
        Some(s) => chars_of(s.as_str()),
        None => i64_decimal(timestamp),
    }
}

/// A timestamp shown in the machine's time zone, or its decimal value where the calendar
/// cannot show it. The text in the machine's time zone is not stated.
fn format_display_timestamp(timestamp: Timestamp) -> (r: Vec<char>)
    ensures
        rfc3339_utc(timestamp) is None ==> r@ == signed_decimal(timestamp as int),
{
    match local_display(timestamp) {
        Some(s) => chars_of(s.as_str()),
        None => i64_decimal(timestamp),
    }
}

/// Characters that Markdown would read as markup.
pub open spec fn is_markdown_special(c: char) -> bool {
    c == '\\' || c == '`' || c == '*' || c == '_' || c == '[' || c == ']'
}

/// Text with Markdown markup characters escaped by a backslash.
pub open spec fn inline_escape(s: Seq<char>) -> Seq<char>
    decreases s.len(),
{
    if s.len() == 0 {
        Seq::empty()
    } else {
        inline_escape(s.drop_last()) + if is_markdown_special(s.last()) {
            seq!['\\', s.last()]
        } else {
            seq![s.last()]
        }
    }
}

/// Removing the escaping backslashes gives the text back.
pub open spec fn inline_unescape(s: Seq<char>) -> Seq<char>
    decreases s.len(),
{
    if s.len() == 0 {
        Seq::empty()
    } else if s[0] == '\\' && s.len() >= 2 {
        seq![s[1]] + inline_unescape(s.skip(2))
    } else {
        seq![s[0]] + inline_unescape(s.skip(1))
    }
}

fn inline_text(value: &Vec<char>) -> (r: Vec<char>)
    ensures
        r@ == inline_escape(value@),
{
    let mut out: Vec<char> = Vec::new();
    let mut i: usize = 0;
    while i < value.len()
        invariant
            0 <= i <= value.len(),
            out@ == inline_escape(value@.subrange(0, i as int)),
        decreases value.len() - i,
    {
        let c = value[i];
        proof {
            assert(value@.subrange(0, i + 1).drop_last() =~= value@.subrange(0, i as int));
        }
        if c == '\\' || c == '`' || c == '*' || c == '_' || c == '[' || c == ']' {
            out.push('\\');
        }
        out.push(c);
        proof {
            assert(out@ =~= inline_escape(value@.subrange(0, i + 1)));
        }
        i += 1;
    }
    assert(value@.subrange(0, value@.len() as int) =~= value@);
    out
}

/// Escaped Markdown text reads back as the original text.
pub proof fn lemma_inline_escape_round_trip(s: Seq<char>)
    ensures
        inline_unescape(inline_escape(s)) == s,
    decreases s.len(),
{
    lemma_unescape_concat(s);
}

proof fn lemma_unescape_concat(s: Seq<char>)
    ensures
        inline_unescape(inline_escape(s)) == s,
    decreases s.len(),
{
    if s.len() > 0 {
        let c = s[0];
        let rest = s.drop_first();
        lemma_escape_front(s);
        lemma_unescape_concat(rest);
        let head = if is_markdown_special(c) {
            seq!['\\', c]
        } else {
            seq![c]
        };
        let e = head + inline_escape(rest);
        if is_markdown_special(c) {
            assert(e.skip(2) =~= inline_escape(rest));
        } else {
            assert(e.skip(1) =~= inline_escape(rest));
        }
        assert(seq![c] + rest =~= s);
    }
}

proof fn lemma_escape_front(s: Seq<char>)
    requires
        s.len() > 0,
    ensures
        inline_escape(s) == (if is_markdown_special(s[0]) {
            seq!['\\', s[0]]
        } else {
            seq![s[0]]
        }) + inline_escape(s.drop_first()),
    decreases s.len(),
{
    if s.len() == 1 {
        assert(s.drop_last() =~= Seq::<char>::empty());
        assert(s.drop_first() =~= Seq::<char>::empty());
    } else {
        lemma_escape_front(s.drop_last());
        assert(s.drop_last().drop_first() =~= s.drop_first().drop_last());
        assert(s.drop_first().last() == s.last());
    }
}

/// Runs of white space collapsed to one space, with none at either end: the result and
/// whether white space is waiting to be written before the next word.
pub open spec fn collapse_acc(s: Seq<char>) -> (Seq<char>, bool)
    decreases s.len(),
{
    if s.len() == 0 {
        (Seq::empty(), false)
    } else {
        let (out, pending) = collapse_acc(s.drop_last());
        let c = s.last();
        if is_ws(c) {
            (out, true)
        } else if pending && out.len() > 0 {
            (out + seq![' ', c], false)
        } else {
            (out.push(c), false)
        }
    }
}

/// The words of a text joined by single spaces.
pub open spec fn collapse_ws(s: Seq<char>) -> Seq<char> {
    collapse_acc(s).0
}

fn collapse_whitespace(value: &Vec<char>) -> (r: Vec<char>)
    ensures
        r@ == collapse_ws(value@),
{
    let mut out: Vec<char> = Vec::new();
    let mut pending = false;
    let mut i: usize = 0;
    while i < value.len()
        invariant
            0 <= i <= value.len(),
            (out@, pending) == collapse_acc(value@.subrange(0, i as int)),
        decreases value.len() - i,
    {
        proof {
            assert(value@.subrange(0, i + 1).drop_last() =~= value@.subrange(0, i as int));
        }
        let c = value[i];
        if is_whitespace(c) {
            pending = true;
        } else {
            if pending && out.len() > 0 {
                out.push(' ');
            }
            out.push(c);
            pending = false;
        }
        proof {
            let (o, p) = collapse_acc(value@.subrange(0, i as int));
            if !is_ws(c) && p && o.len() > 0 {
                assert(out@ =~= o + seq![' ', c]);
            }
        }
        i += 1;
    }
    assert(value@.subrange(0, value@.len() as int) =~= value@);
    out
}

/// A heading: the words of the text, or `Untitled`, with markup escaped.
pub open spec fn heading(s: Seq<char>) -> Seq<char> {
    let words = collapse_ws(s);
    inline_escape(
        if words.len() == 0 {
            "Untitled"@
        } else {
            words
        },
    )
}

fn heading_text(value: &str) -> (r: Vec<char>)
    ensures
        r@ == heading(value@),
{
    let v = chars_of(value);
    let words = collapse_whitespace(&v);
    if words.len() == 0 {
        let untitled = chars_of("Untitled");
        inline_text(&untitled)
    } else {
        inline_text(&words)
    }
}

/// A message body in Markdown: the trimmed text and a line break, or a placeholder.
pub open spec fn content_block(content: Seq<char>) -> Seq<char> {
    let t = trim(content);
    if t.len() == 0 {
        "_No text content._\n"@
    } else {
        t + "\n"@
    }
}

fn append_content(out: &mut Vec<char>, content: &str)
    ensures
        final(out)@ == old(out)@ + content_block(content@),
{
    let v = chars_of(content);
    let t = trim_chars(&v);
    if t.len() == 0 {
        push_str(out, "_No text content._\n");
    } else {
        push_all(out, &t);
        push_str(out, "\n");
    }
}

/// The list of attachment names under a user message.
pub open spec fn attachment_list(attachments: Seq<Attachment>) -> Seq<char>
    decreases attachments.len(),
{
    if attachments.len() == 0 {
        Seq::empty()
    } else {
        attachment_list(attachments.drop_last()) + "- "@ + inline_escape(
            attachments.last().name@,
        ) + "\n"@
    }
}

/// The status shown after a response's time when it did not complete.
pub open spec fn status_suffix(status: MessageStatus) -> Seq<char> {
    if status != MessageStatus::Completed {
        " · "@ + message_status_text(status)
    } else {
        Seq::empty()
    }
}

/// The attachments section of a user message, if it has any.
pub open spec fn attachments_markdown(attachments: Seq<Attachment>) -> Seq<char> {
    if attachments.len() == 0 {
        Seq::empty()
    } else {
        "\n**Attachments**\n\n"@ + attachment_list(attachments)
    }
}

/// The Markdown of a user message.
pub open spec fn user_markdown(turn: Turn) -> Seq<char> {
    "## User\n\n> "@ + stamp(turn.user.created_at) + "\n\n"@ + content_block(turn.user.content@)
        + attachments_markdown(turn.user.attachments@)
}

/// The Markdown of a response.
pub open spec fn response_markdown(response: AssistantResponse) -> Seq<char> {
    "\n## Assistant · "@ + heading(response.model_name@) + "\n\n> "@ + stamp(response.created_at)
        + status_suffix(response.status) + "\n\n"@ + content_block(response.content@) + "\n"@
}

/// The Markdown of one exported turn.
pub open spec fn turn_markdown(turn: Turn, response: AssistantResponse) -> Seq<char> {
    user_markdown(turn) + response_markdown(response)
}

/// The Markdown of a sequence of turns.
pub open spec fn turns_markdown(turns: Seq<(&Turn, &AssistantResponse)>) -> Seq<char>
    decreases turns.len(),
{
    if turns.len() == 0 {
        Seq::empty()
    } else {
        turns_markdown(turns.drop_last()) + turn_markdown(*turns.last().0, *turns.last().1)
    }
}

/// The Markdown export of a conversation with the given turns.
pub open spec fn markdown_export(
    conversation: Conversation,
    turns: Seq<(&Turn, &AssistantResponse)>,
    exported_at: i64,
) -> Seq<char> {
    "# "@ + heading(conversation.title@) + "\n\n> Created: "@ + stamp(conversation.created_at)
        + "  \n> Exported: "@ + stamp(exported_at) + "\n\n"@ + (
    if conversation.assistant_opening@.len() == 0 {
        Seq::empty()
    } else {
        "## Assistant · Opening\n\n> "@ + stamp(conversation.created_at) + "\n\n"@
            + content_block(conversation.assistant_opening@) + "\n"@
    }) + turns_markdown(turns)
}

fn push_attachment_list(out: &mut Vec<char>, attachments: &Vec<Attachment>)
    ensures
        final(out)@ == old(out)@ + attachment_list(attachments@),
{
    let ghost list_start = out@;
    let mut j: usize = 0;
    while j < attachments.len()
        invariant
            0 <= j <= attachments@.len(),
            out@ == list_start + attachment_list(attachments@.subrange(0, j as int)),
        decreases attachments.len() - j,
    {
        proof {
            assert(attachments@.subrange(0, j + 1).drop_last() =~= attachments@.subrange(0, j as int));
        }
        push_str(out, "- ");
        let name = chars_of(attachments[j].name.as_str());
        let escaped = inline_text(&name);
        push_all(out, &escaped);
        push_str(out, "\n");
        proof {
            assert(out@ =~= list_start + attachment_list(attachments@.subrange(0, j + 1)));
        }
        j += 1;
    }
    assert(attachments@.subrange(0, attachments@.len() as int) =~= attachments@);
}

fn push_user_markdown(out: &mut Vec<char>, turn: &Turn)
    ensures
        final(out)@ == old(out)@ + user_markdown(*turn),
{
    let ghost before = out@;
    push_str(out, "## User\n\n> ");
    let user_time = format_timestamp(turn.user.created_at);
    push_all(out, &user_time);
    push_str(out, "\n\n");
    append_content(out, turn.user.content.as_str());
    let ghost middle = out@;
    if turn.user.attachments.len() > 0 {
        push_str(out, "\n**Attachments**\n\n");
        push_attachment_list(out, &turn.user.attachments);
    }
    proof {
        assert(out@ =~= middle + attachments_markdown(turn.user.attachments@));
        assert(middle =~= before + ("## User\n\n> "@ + stamp(turn.user.created_at) + "\n\n"@
            + content_block(turn.user.content@)));
    }
}

fn push_response_markdown(out: &mut Vec<char>, response: &AssistantResponse)
    ensures
        final(out)@ == old(out)@ + response_markdown(*response),
{
    let ghost before = out@;
    push_str(out, "\n## Assistant · ");
    let model = heading_text(response.model_name.as_str());
    push_all(out, &model);
    push_str(out, "\n\n> ");
    let response_time = format_timestamp(response.created_at);
    push_all(out, &response_time);
    let ghost middle = out@;
    if response.status != MessageStatus::Completed {
        push_str(out, " · ");
        push_str(out, response.status.as_str());
    }
    assert(out@ =~= middle + status_suffix(response.status));
    let ghost middle2 = out@;
    push_str(out, "\n\n");
    append_content(out, response.content.as_str());
    push_str(out, "\n");
    proof {
        assert(out@ =~= middle2 + ("\n\n"@ + content_block(response.content@) + "\n"@));
        assert(middle =~= before + ("\n## Assistant · "@ + heading(response.model_name@) + "\n\n> "@
            + stamp(response.created_at)));
    }
}

fn push_turn_markdown(out: &mut Vec<char>, turn: &Turn, response: &AssistantResponse)
    ensures
        final(out)@ == old(out)@ + turn_markdown(*turn, *response),
{
    let ghost before = out@;
    push_user_markdown(out, turn);
    push_response_markdown(out, response);
    assert(out@ =~= before + turn_markdown(*turn, *response));
}

/// The conversation's title, its opening and the given turns (each a user message and the
/// response shown for it) as Markdown.
pub fn conversation_markdown(
    conversation: &Conversation,
    turns: &[(&Turn, &AssistantResponse)],
    exported_at: Timestamp,
) -> (r: String)
    ensures
        r@ == markdown_export(*conversation, turns@, exported_at),
{
    let mut out: Vec<char> = Vec::new();
    push_str(&mut out, "# ");
    let title = heading_text(conversation.title.as_str());
    push_all(&mut out, &title);
    push_str(&mut out, "\n\n> Created: ");
    let created = format_timestamp(conversation.created_at);
    push_all(&mut out, &created);
    push_str(&mut out, "  \n> Exported: ");
    let exported = format_timestamp(exported_at);
    push_all(&mut out, &exported);
    push_str(&mut out, "\n\n");
    if !conversation.assistant_opening.as_str().is_empty() {
        push_str(&mut out, "## Assistant · Opening\n\n> ");
        push_all(&mut out, &created);
        push_str(&mut out, "\n\n");
        append_content(&mut out, conversation.assistant_opening.as_str());
        push_str(&mut out, "\n");
    }
    let ghost head = out@;
    let mut i: usize = 0;
    while i < turns.len()
        invariant
            0 <= i <= turns@.len(),
            out@ == head + turns_markdown(turns@.subrange(0, i as int)),
        decreases turns.len() - i,
    {
        proof {
            assert(turns@.subrange(0, i + 1).drop_last() =~= turns@.subrange(0, i as int));
        }
        let (turn, response) = turns[i];
        let ghost before = out@;
        push_turn_markdown(&mut out, turn, response);
        proof {
            assert(out@ =~= head + turns_markdown(turns@.subrange(0, i + 1)));
        }
        i += 1;
    }
    proof {
        assert(turns@.subrange(0, turns@.len() as int) =~= turns@);
        assert(out@ =~= markdown_export(*conversation, turns@, exported_at));
    }
    string_of(&out)
}


/// The style sheet embedded in HTML exports.
pub const EXPORT_CSS: &'static str = ":root{color-scheme:light dark;--theme-accent:#007AFF;font-family:-apple-system,BlinkMacSystemFont,\"SF Pro Text\",\"Helvetica Neue\",sans-serif;line-height:1.55}body{margin:0;background:Canvas;color:CanvasText}.conversation{max-width:760px;margin:0 auto;padding:48px 24px}.eyebrow{text-transform:uppercase;letter-spacing:.08em;font-size:12px;color:var(--theme-accent)}.conversation-title{font-size:32px;margin:4px 0}.conversation-meta span+span::before{content:\" · \"}.turn{margin:32px 0}.message-header{display:flex;justify-content:space-between;font-size:13px;opacity:.7}.user-bubble{background:color-mix(in srgb,var(--theme-accent) 14%,transparent);border-radius:18px;padding:8px 16px}.status{margin-left:8px;text-transform:capitalize}.attachments{display:flex;flex-wrap:wrap;gap:8px}.attachment-image img{max-width:240px;border-radius:12px}.attachment-file span{display:inline-block;border:1px solid;border-radius:8px;padding:4px 8px}.export-footer{margin-top:48px;font-size:12px;opacity:.6}[data-theme=light]{color-scheme:light}[data-theme=dark]{color-scheme:dark}";

/// The `data-theme` attribute of the document element.
pub open spec fn theme_attribute(theme: ExportTheme) -> Seq<char> {
    match theme {
        ExportTheme::Auto => Seq::empty(),
        ExportTheme::Light => " data-theme=\"light\""@,
        ExportTheme::Dark => " data-theme=\"dark\""@,
    }
}

pub open spec fn is_hex_digit(c: char) -> bool {
    ('0' <= c && c <= '9') || ('a' <= c && c <= 'f') || ('A' <= c && c <= 'F')
}

/// An accent colour written as `#` and six hexadecimal digits.
pub open spec fn accent_is_safe(accent: Seq<char>) -> bool {
    accent.len() == 7 && accent[0] == '#' && forall|i: int| 1 <= i < 7 ==> is_hex_digit(
        #[trigger] accent[i],
    )
}

/// The accent colour, or the default blue when it is not a safe colour.
pub open spec fn safe_accent_text(accent: Seq<char>) -> Seq<char> {
    if accent_is_safe(accent) {
        accent
    } else {
        "#007AFF"@
    }
}

fn safe_accent(accent: &str) -> (r: Vec<char>)
    ensures
        r@ == safe_accent_text(accent@),
{
    let v = chars_of(accent);
    if v.len() == 7 && v[0] == '#' {
        let mut i: usize = 1;
        while i < 7
            invariant
                1 <= i <= 7,
                v@ == accent@,
                v@.len() == 7,
                forall|j: int| 1 <= j < i ==> is_hex_digit(#[trigger] v@[j]),
            decreases 7 - i,
        {
            let c = v[i];
            if !(('0' <= c && c <= '9') || ('a' <= c && c <= 'f') || ('A' <= c && c <= 'F')) {
                assert(!is_hex_digit(v@[i as int]));
                return chars_of("#007AFF");
            }
            i += 1;
        }
        v
    } else {
        chars_of("#007AFF")
    }
}

/// The trimmed title, or `Untitled`.
pub open spec fn display_title(title: Seq<char>) -> Seq<char> {
    if trim(title).len() == 0 {
        "Untitled"@
    } else {
        trim(title)
    }
}

/// The data URL of the first file of an attachment that has one.
pub open spec fn first_url(files: Seq<AttachmentFile>, urls: Seq<(Seq<char>, Seq<char>)>) -> Option<
    Seq<char>,
>
    decreases files.len(),
{
    if files.len() == 0 {
        None
    } else {
        match lookup(urls, files[0].path@) {
            Some(u) => Some(u),
            None => first_url(files.drop_first(), urls),
        }
    }
}

/// The inline image of an image attachment, when one of its files has a data URL.
pub open spec fn image_source(attachment: Attachment, urls: Seq<(Seq<char>, Seq<char>)>) -> Option<
    Seq<char>,
> {
    if attachment.kind == AttachmentKind::Image {
        first_url(attachment.files@, urls)
    } else {
        None
    }
}

/// One attachment: an inline image, or its name.
pub open spec fn attachment_html(attachment: Attachment, urls: Seq<(Seq<char>, Seq<char>)>) -> Seq<
    char,
> {
    match image_source(attachment, urls) {
        Some(source) => "<figure class=\"attachment-image\"><img src=\""@ + escape(source)
            + "\" alt=\""@ + escape(attachment.name@) + "\"></figure>\n"@,
        None => "<div class=\"attachment-file\"><span>"@ + escape(attachment.name@)
            + "</span></div>\n"@,
    }
}

pub open spec fn attachment_items(
    attachments: Seq<Attachment>,
    urls: Seq<(Seq<char>, Seq<char>)>,
) -> Seq<char>
    decreases attachments.len(),
{
    if attachments.len() == 0 {
        Seq::empty()
    } else {
        attachment_items(attachments.drop_last(), urls) + attachment_html(attachments.last(), urls)
    }
}

/// The attachments of a user message, if it has any.
pub open spec fn attachments_html(
    attachments: Seq<Attachment>,
    urls: Seq<(Seq<char>, Seq<char>)>,
) -> Seq<char> {
    if attachments.len() == 0 {
        Seq::empty()
    } else {
        "<div class=\"attachments\" aria-label=\"Attachments\">\n"@ + attachment_items(
            attachments,
            urls,
        ) + "</div>\n"@
    }
}

/// The HTML of a user message shown at `time`.
pub open spec fn user_html(
    turn: Turn,
    urls: Seq<(Seq<char>, Seq<char>)>,
    time: Seq<char>,
) -> Seq<char> {
    "<article class=\"turn\">\n<section class=\"user-message\" aria-label=\"User message\">\n<header class=\"message-header\"><span class=\"message-author\">You</span><time class=\"message-time\">"@
        + time + "</time></header>\n"@ + attachments_html(turn.user.attachments@, urls) + (
    if trim(turn.user.content@).len() == 0 {
        Seq::empty()
    } else {
        "<div class=\"user-bubble prose\">\n"@ + markdown_html(turn.user.content@) + "</div>\n"@
    })
}

/// The name shown for a response's author.
pub open spec fn author(model_name: Seq<char>) -> Seq<char> {
    escape(
        if trim(model_name).len() == 0 {
            "Assistant"@
        } else {
            trim(model_name)
        },
    )
}

/// The HTML of a response shown at `time`.
pub open spec fn response_html(response: AssistantResponse, time: Seq<char>) -> Seq<char> {
    "</section>\n<section class=\"assistant-message\" aria-label=\"Assistant message\">\n<header class=\"message-header\"><span><span class=\"message-author\">"@
        + author(response.model_name@) + (if response.status != MessageStatus::Completed {
        "</span><span class=\"status\">"@ + escape(message_status_text(response.status))
    } else {
        Seq::empty()
    }) + "</span></span><time class=\"message-time\">"@ + time
        + "</time></header>\n<div class=\"assistant-content prose\">\n"@ + (
    if trim(response.content@).len() == 0 {
        "<p><em>No text content.</em></p>\n"@
    } else {
        markdown_html(response.content@)
    }) + "</div>\n</section>\n</article>\n"@
}

/// The turns of an HTML export; `stamps[2 + 2 i]` and `stamps[3 + 2 i]` are the shown times
/// of the `i`-th user message and response.
pub open spec fn turns_html(
    turns: Seq<(&Turn, &AssistantResponse)>,
    urls: Seq<(Seq<char>, Seq<char>)>,
    stamps: Seq<Seq<char>>,
) -> Seq<char>
    decreases turns.len(),
{
    if turns.len() == 0 {
        Seq::empty()
    } else {
        let i = turns.len() - 1;
        turns_html(turns.drop_last(), urls, stamps) + user_html(*turns.last().0, urls, stamps[2 + 2 * i])
            + response_html(*turns.last().1, stamps[3 + 2 * i])
    }
}

/// The start of the document up to the accent colour.
pub open spec fn head_top(theme: ExportTheme, title: Seq<char>) -> Seq<char> {
    "<!doctype html>\n<html lang=\"en\""@ + theme_attribute(theme)
        + ">\n<head>\n<meta charset=\"utf-8\">\n<meta name=\"viewport\" content=\"width=device-width, initial-scale=1\">\n<meta name=\"color-scheme\" content=\"light dark\">\n<meta http-equiv=\"Content-Security-Policy\" content=\"default-src 'none'; img-src data:; style-src 'unsafe-inline'; font-src data:\">\n<title>"@
        + title + "</title>\n<style>"@ + EXPORT_CSS@ + "\n:root{--theme-accent:"@
}

/// The turn count as shown in the header.
pub open spec fn turn_count_text(turn_count: nat) -> Seq<char> {
    decimal(turn_count) + " "@ + (if turn_count == 1 {
        "turn"@
    } else {
        "turns"@
    })
}

/// The rest of the head and the conversation header.
pub open spec fn head_bottom(title: Seq<char>, created: Seq<char>, turn_count: nat) -> Seq<char> {
    ";}</style>\n</head>\n<body>\n<main class=\"conversation\">\n<header class=\"conversation-header\">\n<p class=\"eyebrow\">Conversation</p>\n<h1 class=\"conversation-title\">"@
        + title + "</h1>\n<p class=\"conversation-meta\"><span>Created "@ + created
        + "</span><span>"@ + turn_count_text(turn_count)
        + "</span></p>\n</header>\n<section class=\"transcript\" aria-label=\"Conversation transcript\">\n"@
}

/// The document head and header; `created` is the shown creation time.
pub open spec fn html_head(
    conversation: Conversation,
    turn_count: nat,
    accent: Seq<char>,
    theme: ExportTheme,
    created: Seq<char>,
) -> Seq<char> {
    let title = escape(display_title(conversation.title@));
    head_top(theme, title) + safe_accent_text(accent) + head_bottom(title, created, turn_count)
}

/// The assistant opening, if the conversation has one.
pub open spec fn opening_html(conversation: Conversation, created: Seq<char>) -> Seq<char> {
    if conversation.assistant_opening@.len() == 0 {
        Seq::empty()
    } else {
        "<article class=\"turn\">\n<section class=\"assistant-message\" aria-label=\"Assistant opening\">\n<header class=\"message-header\"><span class=\"message-author\">Assistant · Opening</span><time class=\"message-time\">"@
            + created + "</time></header>\n<div class=\"assistant-content prose\">\n"@
            + markdown_html(conversation.assistant_opening@) + "</div>\n</section>\n</article>\n"@
    }
}

/// The whole HTML export; `stamps[0]` is the shown creation time and `stamps[1]` the shown
/// export time.
pub open spec fn html_export(
    conversation: Conversation,
    turns: Seq<(&Turn, &AssistantResponse)>,
    accent: Seq<char>,
    theme: ExportTheme,
    urls: Seq<(Seq<char>, Seq<char>)>,
    stamps: Seq<Seq<char>>,
) -> Seq<char> {
    html_head(conversation, turns.len(), accent, theme, stamps[0]) + opening_html(
        conversation,
        stamps[0],
    ) + turns_html(turns, urls, stamps)
        + "</section>\n<footer class=\"export-footer\">Exported from OneChat · "@ + stamps[1]
        + "</footer>\n</main>\n</body>\n</html>\n"@
}

/// The bindings of a list of pairs, as character sequences.
pub open spec fn pair_views(pairs: Seq<(String, String)>) -> Seq<(Seq<char>, Seq<char>)> {
    crate::prompt::value_views(pairs)
}

pub open spec fn stamp_views(stamps: Seq<String>) -> Seq<Seq<char>> {
    stamps.map_values(|s: String| s@)
}

fn push_escaped_text(out: &mut Vec<char>, s: &str)
    ensures
        final(out)@ == old(out)@ + escape(s@),
{
    let e = crate::html::html_escape(s);
    push_str(out, e.as_str());
}

fn find_url(files: &Vec<AttachmentFile>, urls: &Vec<(String, String)>) -> (r: Option<String>)
    ensures
        match first_url(files@, pair_views(urls@)) {
            Some(u) => r matches Some(s) && s@ == u,
            None => r is None,
        },
{
    let mut i: usize = 0;
    assert(files@.skip(0) =~= files@);
    while i < files.len()
        invariant
            0 <= i <= files@.len(),
            first_url(files@, pair_views(urls@)) == first_url(files@.skip(i as int), pair_views(
                urls@,
            )),
        decreases files.len() - i,
    {
        proof {
            assert(files@.skip(i as int).drop_first() =~= files@.skip(i + 1));
        }
        let path = chars_of(files[i].path.as_str());
        match crate::prompt::find_value(urls, &path) {
            Some(u) => {
                return Some(u);
            },
            None => {},
        }
        i += 1;
    }
    None
}

fn push_attachments_html(out: &mut Vec<char>, attachments: &Vec<Attachment>, urls: &Vec<(String, String)>)
    ensures
        final(out)@ == old(out)@ + attachments_html(attachments@, pair_views(urls@)),
{
    if attachments.len() == 0 {
        assert(out@ + Seq::<char>::empty() =~= out@);
        return;
    }
    let ghost before = out@;
    push_str(out, "<div class=\"attachments\" aria-label=\"Attachments\">\n");
    let ghost start = out@;
    let mut i: usize = 0;
    while i < attachments.len()
        invariant
            0 <= i <= attachments@.len(),
            out@ == start + attachment_items(attachments@.subrange(0, i as int), pair_views(urls@)),
        decreases attachments.len() - i,
    {
        proof {
            assert(attachments@.subrange(0, i + 1).drop_last() =~= attachments@.subrange(0, i as int));
        }
        let ghost mid = out@;
        let attachment = &attachments[i];
        let image = if attachment.kind == AttachmentKind::Image {
            find_url(&attachment.files, urls)
        } else {
            None
        };
        match image {
            Some(source) => {
                push_str(out, "<figure class=\"attachment-image\"><img src=\"");
                push_escaped_text(out, source.as_str());
                push_str(out, "\" alt=\"");
                push_escaped_text(out, attachment.name.as_str());
                push_str(out, "\"></figure>\n");
            },
            None => {
                push_str(out, "<div class=\"attachment-file\"><span>");
                push_escaped_text(out, attachment.name.as_str());
                push_str(out, "</span></div>\n");
            },
        }
        proof {
            assert(out@ =~= mid + attachment_html(*attachment, pair_views(urls@)));
            assert(out@ =~= start + attachment_items(attachments@.subrange(0, i + 1), pair_views(urls@)));
        }
        i += 1;
    }
    push_str(out, "</div>\n");
    proof {
        assert(attachments@.subrange(0, attachments@.len() as int) =~= attachments@);
        assert(out@ =~= before + attachments_html(attachments@, pair_views(urls@)));
    }
}

fn push_user_html(out: &mut Vec<char>, turn: &Turn, urls: &Vec<(String, String)>, time: &String)
    ensures
        final(out)@ == old(out)@ + user_html(*turn, pair_views(urls@), time@),
{
    let ghost before = out@;
    push_str(
        out,
        "<article class=\"turn\">\n<section class=\"user-message\" aria-label=\"User message\">\n<header class=\"message-header\"><span class=\"message-author\">You</span><time class=\"message-time\">",
    );
    push_str(out, time.as_str());
    push_str(out, "</time></header>\n");
    let ghost head = out@;
    push_attachments_html(out, &turn.user.attachments, urls);
    let ghost with_attachments = out@;
    if !crate::text::is_blank(turn.user.content.as_str()) {
        push_str(out, "<div class=\"user-bubble prose\">\n");
        let body = to_html(turn.user.content.as_str());
        push_str(out, body.as_str());
        push_str(out, "</div>\n");
    }
    proof {
        assert(out@ =~= before + user_html(*turn, pair_views(urls@), time@));
    }
}

#[verifier::spinoff_prover]
#[verifier::rlimit(40)]
fn push_response_html(out: &mut Vec<char>, response: &AssistantResponse, time: &String)
    ensures
        final(out)@ == old(out)@ + response_html(*response, time@),
{
    let ghost before = out@;
    push_str(
        out,
        "</section>\n<section class=\"assistant-message\" aria-label=\"Assistant message\">\n<header class=\"message-header\"><span><span class=\"message-author\">",
    );
    let name = crate::text::trim_str(response.model_name.as_str());
    if name.as_str().is_empty() {
        push_escaped_text(out, "Assistant");
    } else {
        push_escaped_text(out, name.as_str());
    }
    let ghost named = out@;
    if response.status != MessageStatus::Completed {
        push_str(out, "</span><span class=\"status\">");
        push_escaped_text(out, response.status.as_str());
    }
    let ghost with_status = out@;
    push_str(out, "</span></span><time class=\"message-time\">");
    push_str(out, time.as_str());
    push_str(out, "</time></header>\n<div class=\"assistant-content prose\">\n");
    let ghost body_start = out@;
    if crate::text::is_blank(response.content.as_str()) {
        push_str(out, "<p><em>No text content.</em></p>\n");
    } else {
        let body = to_html(response.content.as_str());
        push_str(out, body.as_str());
    }
    let ghost body_end = out@;
    push_str(out, "</div>\n</section>\n</article>\n");
    proof {
        assert(out@ =~= before + response_html(*response, time@));
    }
}

fn push_turn_html(
    out: &mut Vec<char>,
    turn: &Turn,
    response: &AssistantResponse,
    urls: &Vec<(String, String)>,
    user_time: &String,
    response_time: &String,
)
    ensures
        final(out)@ == old(out)@ + user_html(*turn, pair_views(urls@), user_time@) + response_html(
            *response,
            response_time@,
        ),
{
    let ghost before = out@;
    push_user_html(out, turn, urls, user_time);
    push_response_html(out, response, response_time);
    assert(out@ =~= before + user_html(*turn, pair_views(urls@), user_time@) + response_html(
        *response,
        response_time@,
    ));
}

fn push_head_top(out: &mut Vec<char>, theme: ExportTheme, title: &String)
    ensures
        final(out)@ == old(out)@ + head_top(theme, title@),
{
    let ghost before = out@;
    push_str(out, "<!doctype html>\n<html lang=\"en\"");
    match theme {
        ExportTheme::Auto => {},
        ExportTheme::Light => push_str(out, " data-theme=\"light\""),
        ExportTheme::Dark => push_str(out, " data-theme=\"dark\""),
    }
    let ghost opened = out@;
    assert(opened =~= before + "<!doctype html>\n<html lang=\"en\""@ + theme_attribute(theme));
    push_str(
        out,
        ">\n<head>\n<meta charset=\"utf-8\">\n<meta name=\"viewport\" content=\"width=device-width, initial-scale=1\">\n<meta name=\"color-scheme\" content=\"light dark\">\n<meta http-equiv=\"Content-Security-Policy\" content=\"default-src 'none'; img-src data:; style-src 'unsafe-inline'; font-src data:\">\n<title>",
    );
    push_str(out, title.as_str());
    push_str(out, "</title>\n<style>");
    push_str(out, EXPORT_CSS);
    push_str(out, "\n:root{--theme-accent:");
    assert(out@ =~= before + head_top(theme, title@));
}

fn push_turn_count(out: &mut Vec<char>, turn_count: usize)
    ensures
        final(out)@ == old(out)@ + turn_count_text(turn_count as nat),
{
    let ghost before = out@;
    let count = u64_decimal(turn_count as u64);
    push_all(out, &count);
    push_str(out, " ");
    if turn_count == 1 {
        push_str(out, "turn");
    } else {
        push_str(out, "turns");
    }
    assert(out@ =~= before + turn_count_text(turn_count as nat));
}

fn push_head_bottom(out: &mut Vec<char>, title: &String, created: &String, turn_count: usize)
    ensures
        final(out)@ == old(out)@ + head_bottom(title@, created@, turn_count as nat),
{
    let ghost before = out@;
    push_str(
        out,
        ";}</style>\n</head>\n<body>\n<main class=\"conversation\">\n<header class=\"conversation-header\">\n<p class=\"eyebrow\">Conversation</p>\n<h1 class=\"conversation-title\">",
    );
    push_str(out, title.as_str());
    push_str(out, "</h1>\n<p class=\"conversation-meta\"><span>Created ");
    push_str(out, created.as_str());
    push_str(out, "</span><span>");
    push_turn_count(out, turn_count);
    push_str(
        out,
        "</span></p>\n</header>\n<section class=\"transcript\" aria-label=\"Conversation transcript\">\n",
    );
    assert(out@ =~= before + head_bottom(title@, created@, turn_count as nat));
}

fn push_head_html(
    out: &mut Vec<char>,
    conversation: &Conversation,
    turn_count: usize,
    accent: &str,
    theme: ExportTheme,
    created: &String,
)
    ensures
        final(out)@ == old(out)@ + html_head(*conversation, turn_count as nat, accent@, theme, created@),
{
    let ghost before = out@;
    let title_chars = chars_of(conversation.title.as_str());
    let trimmed = trim_chars(&title_chars);
    let shown = if trimmed.len() == 0 {
        chars_of("Untitled")
    } else {
        trimmed
    };
    let shown_string = string_of(&shown);
    let title = crate::html::html_escape(shown_string.as_str());
    assert(title@ == escape(display_title(conversation.title@)));
    push_head_top(out, theme, &title);
    let accent_text = safe_accent(accent);
    push_all(out, &accent_text);
    push_head_bottom(out, &title, created, turn_count);
    assert(out@ =~= before + html_head(*conversation, turn_count as nat, accent@, theme, created@));
}

fn push_opening_html(out: &mut Vec<char>, conversation: &Conversation, created: &String)
    ensures
        final(out)@ == old(out)@ + opening_html(*conversation, created@),
{
    if conversation.assistant_opening.as_str().is_empty() {
        assert(out@ + Seq::<char>::empty() =~= out@);
        return;
    }
    let ghost before = out@;
    push_str(
        out,
        "<article class=\"turn\">\n<section class=\"assistant-message\" aria-label=\"Assistant opening\">\n<header class=\"message-header\"><span class=\"message-author\">Assistant · Opening</span><time class=\"message-time\">",
    );
    push_str(out, created.as_str());
    push_str(out, "</time></header>\n<div class=\"assistant-content prose\">\n");
    let body = to_html(conversation.assistant_opening.as_str());
    push_str(out, body.as_str());
    push_str(out, "</div>\n</section>\n</article>\n");
    assert(out@ =~= before + opening_html(*conversation, created@));
}

/// The HTML export with the shown times given: `stamps[0]` is the creation time, `stamps[1]`
/// the export time, and `stamps[2 + 2 i]`, `stamps[3 + 2 i]` the times of the `i`-th user
/// message and response. `data_urls` maps stored file paths to `data:` URLs for inline images.
pub fn render_conversation_html(
    conversation: &Conversation,
    turns: &[(&Turn, &AssistantResponse)],
    accent: &str,
    theme: ExportTheme,
    data_urls: &Vec<(String, String)>,
    stamps: &Vec<String>,
) -> (r: String)
    requires
        stamps@.len() == 2 + 2 * turns@.len(),
    ensures
        r@ == html_export(
            *conversation,
            turns@,
            accent@,
            theme,
            pair_views(data_urls@),
            stamp_views(stamps@),
        ),
{
    let ghost sv = stamp_views(stamps@);
    let mut out: Vec<char> = Vec::new();
    push_head_html(&mut out, conversation, turns.len(), accent, theme, &stamps[0]);
    push_opening_html(&mut out, conversation, &stamps[0]);
    let ghost head = out@;
    let n: usize = stamps.len();
    let mut i: usize = 0;
    while i < turns.len()
        invariant
            0 <= i <= turns@.len(),
            n == stamps@.len(),
            stamps@.len() == 2 + 2 * turns@.len(),
            sv == stamp_views(stamps@),
            out@ == head + turns_html(turns@.subrange(0, i as int), pair_views(data_urls@), sv),
        decreases turns.len() - i,
    {
        proof {
            assert(turns@.subrange(0, i + 1).drop_last() =~= turns@.subrange(0, i as int));
        }
        let (turn, response) = turns[i];
        push_turn_html(&mut out, turn, response, data_urls, &stamps[2 + 2 * i], &stamps[3 + 2 * i]);
        i += 1;
    }
    assert(turns@.subrange(0, turns@.len() as int) =~= turns@);
    let ghost body = out@;
    push_str(&mut out, "</section>\n<footer class=\"export-footer\">Exported from OneChat · ");
    push_str(&mut out, stamps[1].as_str());
    push_str(&mut out, "</footer>\n</main>\n</body>\n</html>\n");
    proof {
        assert(out@ =~= html_export(
            *conversation,
            turns@,
            accent@,
            theme,
            pair_views(data_urls@),
            sv,
        ));
    }
    string_of(&out)
}

/// The conversation as a self-contained HTML document. Times are shown in the machine's time
/// zone, so the contract leaves their text open; everything else is exact.
pub fn conversation_html(
    conversation: &Conversation,
    turns: &[(&Turn, &AssistantResponse)],
    exported_at: Timestamp,
    accent: &str,
    theme: ExportTheme,
    data_urls: &Vec<(String, String)>,
) -> (r: String)
    requires
        turns@.len() < usize::MAX / 4,
    ensures
        exists|stamps: Seq<Seq<char>>|
            stamps.len() == 2 + 2 * turns@.len() && r@ == #[trigger] html_export(
                *conversation,
                turns@,
                accent@,
                theme,
                pair_views(data_urls@),
                stamps,
            ),
{
    let mut stamps: Vec<String> = Vec::new();
    stamps.push(string_of(&format_display_timestamp(conversation.created_at)));
    stamps.push(string_of(&format_display_timestamp(exported_at)));
    let mut i: usize = 0;
    while i < turns.len()
        invariant
            0 <= i <= turns@.len(),
            stamps@.len() == 2 + 2 * i,
        decreases turns.len() - i,
    {
        let (turn, response) = turns[i];
        stamps.push(string_of(&format_display_timestamp(turn.user.created_at)));
        stamps.push(string_of(&format_display_timestamp(response.created_at)));
        i += 1;
    }
    let r = render_conversation_html(conversation, turns, accent, theme, data_urls, &stamps);
    assert(r@ == html_export(
        *conversation,
        turns@,
        accent@,
        theme,
        pair_views(data_urls@),
        stamp_views(stamps@),
    ));
    r
}


/// A control character (general category Cc).
pub open spec fn is_control(c: char) -> bool {
    c <= '\u{1f}' || ('\u{7f}' <= c && c <= '\u{9f}')
}

/// Characters that may not stand in a file name.
pub open spec fn is_path_char(c: char) -> bool {
    is_control(c) || c == '/' || c == '\\' || c == ':' || c == '*' || c == '?' || c == '"' || c
        == '<' || c == '>' || c == '|'
}

/// The stem built from characters: runs of unusable characters become one `-` between kept
/// characters; the flag tells whether such a run is pending.
pub open spec fn stem_scan(chars: Seq<char>) -> (Seq<char>, bool)
    decreases chars.len(),
{
    if chars.len() == 0 {
        (Seq::empty(), false)
    } else {
        let (stem, pending) = stem_scan(chars.drop_last());
        let c = chars.last();
        if is_path_char(c) {
            (stem, true)
        } else {
            ((if pending && stem.len() > 0 {
                stem.push('-')
            } else {
                stem
            }).push(c), false)
        }
    }
}

pub open spec fn is_dot_or_dash(c: char) -> bool {
    c == '.' || c == '-'
}

/// The text without dots and dashes at either end.
pub open spec fn strip_dots_dashes(s: Seq<char>) -> Seq<char>
    decreases s.len(),
{
    if s.len() > 0 && is_dot_or_dash(s[0]) {
        strip_dots_dashes(s.drop_first())
    } else if s.len() > 0 && is_dot_or_dash(s.last()) {
        strip_dots_dashes(s.drop_last())
    } else {
        s
    }
}

/// The stem of a file name made from a title: the first 80 characters of the trimmed title,
/// unusable characters turned into separators, trimmed of white space, dots and dashes; or
/// `Conversation` when nothing is left.
pub open spec fn file_stem(title: Seq<char>) -> Seq<char> {
    let stem = trim(strip_dots_dashes(trim(stem_scan(crate::title::truncated(trim(title), 80)).0)));
    if stem.len() == 0 {
        "Conversation"@
    } else {
        stem
    }
}

fn strip_dots_dashes_exec(v: &Vec<char>) -> (r: Vec<char>)
    ensures
        r@ == strip_dots_dashes(v@),
{
    let mut lo: usize = 0;
    let mut hi: usize = v.len();
    assert(v@.subrange(0, v@.len() as int) =~= v@);
    while lo < hi && (v[lo] == '.' || v[lo] == '-')
        invariant
            0 <= lo <= hi == v@.len(),
            strip_dots_dashes(v@) == strip_dots_dashes(v@.subrange(lo as int, hi as int)),
        decreases hi - lo,
    {
        assert(v@.subrange(lo as int, hi as int).drop_first() =~= v@.subrange(lo + 1, hi as int));
        lo += 1;
    }
    while lo < hi && (v[hi - 1] == '.' || v[hi - 1] == '-')
        invariant
            0 <= lo <= hi <= v@.len(),
            strip_dots_dashes(v@) == strip_dots_dashes(v@.subrange(lo as int, hi as int)),
            lo < hi ==> !is_dot_or_dash(v@[lo as int]),
        decreases hi - lo,
    {
        let ghost sub = v@.subrange(lo as int, hi as int);
        assert(sub[0] == v@[lo as int]);
        assert(sub.drop_last() =~= v@.subrange(lo as int, hi - 1));
        hi -= 1;
    }
    let r = crate::text::slice_chars(v, lo, hi);
    proof {
        let sub = v@.subrange(lo as int, hi as int);
        if sub.len() > 0 {
            assert(sub[0] == v@[lo as int]);
            assert(sub.last() == v@[hi - 1]);
        }
    }
    r
}

/// The stem of a file name made from a conversation title.
pub fn safe_file_stem(title: &str) -> (r: String)
    ensures
        r@ == file_stem(title@),
{
    let trimmed = crate::text::trim_str(title);
    let chars = chars_of(trimmed.as_str());
    let limit: usize = if chars.len() < 80 {
        chars.len()
    } else {
        80
    };
    let taken = crate::text::slice_chars(&chars, 0, limit);
    assert(taken@ =~= crate::title::truncated(trim(title@), 80));
    let mut stem: Vec<char> = Vec::new();
    let mut pending = false;
    let mut i: usize = 0;
    while i < taken.len()
        invariant
            0 <= i <= taken@.len(),
            (stem@, pending) == stem_scan(taken@.take(i as int)),
        decreases taken.len() - i,
    {
        proof {
            assert(taken@.take(i + 1).drop_last() =~= taken@.take(i as int));
            assert(taken@.take(i + 1).last() == taken@[i as int]);
        }
        let c = taken[i];
        if c <= '\u{1f}' || ('\u{7f}' <= c && c <= '\u{9f}') || c == '/' || c == '\\' || c == ':'
            || c == '*' || c == '?' || c == '"' || c == '<' || c == '>' || c == '|' {
            pending = true;
        } else {
            if pending && stem.len() > 0 {
                stem.push('-');
            }
            pending = false;
            stem.push(c);
        }
        i += 1;
    }
    assert(taken@.take(taken@.len() as int) =~= taken@);
    let first = crate::text::trim_chars(&stem);
    let second = strip_dots_dashes_exec(&first);
    let third = crate::text::trim_chars(&second);
    if third.len() == 0 {
        String::from_str("Conversation")
    } else {
        string_of(&third)
    }
}


/// The notices an export shows when it ends.
#[derive(Clone, Copy, Debug)]
pub struct ExportNotice {
    pub success_title: &'static str,
    pub error_prefix: &'static str,
}

impl ExportNotice {
    /// The notices of a conversation export.
    pub fn conversation() -> (r: ExportNotice)
        ensures
            r.success_title@ == "Conversation exported"@,
            r.error_prefix@ == "Could not export conversation"@,
    {
        ExportNotice { success_title: "Conversation exported", error_prefix: "Could not export conversation" }
    }

    /// The notices of a speech export, which may have ended early.
    pub fn speech(partial: bool) -> (r: ExportNotice)
        ensures
            r.success_title@ == (if partial {
                "Partial speech exported"@
            } else {
                "Speech exported"@
            }),
            r.error_prefix@ == "Could not export speech"@,
    {
        ExportNotice {
            success_title: if partial {
                "Partial speech exported"
            } else {
                "Speech exported"
            },
            error_prefix: "Could not export speech",
        }
    }
}


/// A response's Markdown names its status after its time exactly when it did not complete:
/// a completed response's time line is the time alone, any other one reads the time, ` · `
/// and the (never empty) name of its status.
pub proof fn lemma_markdown_shows_unfinished_status(response: AssistantResponse)
    ensures
        message_status_text(response.status).len() > 0,
        response.status == MessageStatus::Completed ==> response_markdown(response) == "\n## Assistant · "@
            + heading(response.model_name@) + "\n\n> "@ + stamp(response.created_at) + "\n\n"@
            + content_block(response.content@) + "\n"@,
        response.status != MessageStatus::Completed ==> response_markdown(response) == "\n## Assistant · "@
            + heading(response.model_name@) + "\n\n> "@ + stamp(response.created_at) + " · "@
            + message_status_text(response.status) + "\n\n"@ + content_block(response.content@) + "\n"@,
{
    let head = "\n## Assistant · "@ + heading(response.model_name@) + "\n\n> "@ + stamp(response.created_at);
    let tail = "\n\n"@ + content_block(response.content@) + "\n"@;
    reveal_strlit("pending");
    reveal_strlit("streaming");
    reveal_strlit("completed");
    reveal_strlit("stopped");
    reveal_strlit("failed");
    reveal_strlit("interrupted");
    if response.status == MessageStatus::Completed {
        assert(response_markdown(response) =~= head + Seq::<char>::empty() + "\n\n"@ + content_block(response.content@) + "\n"@);
        assert(head + Seq::<char>::empty() =~= head);
    } else {
        assert(status_suffix(response.status) == " · "@ + message_status_text(response.status));
        assert(response_markdown(response) =~= head + (" · "@ + message_status_text(response.status)) + "\n\n"@
            + content_block(response.content@) + "\n"@);
    }
}

/// A response's HTML header carries a status label exactly when the response did not
/// complete: a completed response shows its author and time alone, any other one shows the
/// (never empty) escaped name of its status between them.
pub proof fn lemma_html_shows_unfinished_status(response: AssistantResponse, time: Seq<char>)
    ensures
        message_status_text(response.status).len() > 0,
        response.status == MessageStatus::Completed ==> response_html(response, time) == "</section>\n<section class=\"assistant-message\" aria-label=\"Assistant message\">\n<header class=\"message-header\"><span><span class=\"message-author\">"@
            + author(response.model_name@) + "</span></span><time class=\"message-time\">"@ + time
            + html_message_body(response),
        response.status != MessageStatus::Completed ==> response_html(response, time) == "</section>\n<section class=\"assistant-message\" aria-label=\"Assistant message\">\n<header class=\"message-header\"><span><span class=\"message-author\">"@
            + author(response.model_name@) + "</span><span class=\"status\">"@ + escape(message_status_text(response.status))
            + "</span></span><time class=\"message-time\">"@ + time + html_message_body(response),
{
    reveal_strlit("pending");
    reveal_strlit("streaming");
    reveal_strlit("completed");
    reveal_strlit("stopped");
    reveal_strlit("failed");
    reveal_strlit("interrupted");
    let open_tag = "</section>\n<section class=\"assistant-message\" aria-label=\"Assistant message\">\n<header class=\"message-header\"><span><span class=\"message-author\">"@;
    let close = "</span></span><time class=\"message-time\">"@;
    if response.status == MessageStatus::Completed {
        assert(response_html(response, time) =~= open_tag + author(response.model_name@) + Seq::<char>::empty() + close + time
            + html_message_body(response));
        assert(open_tag + author(response.model_name@) + Seq::<char>::empty() =~= open_tag + author(response.model_name@));
    } else {
        assert(response_html(response, time) =~= open_tag + author(response.model_name@) + ("</span><span class=\"status\">"@
            + escape(message_status_text(response.status))) + close + time + html_message_body(response));
    }
}

/// What follows a response's header in the HTML export: its text as HTML, or a note that it
/// has none.
pub open spec fn html_message_body(response: AssistantResponse) -> Seq<char> {
    "</time></header>\n<div class=\"assistant-content prose\">\n"@ + (if trim(response.content@).len() == 0 {
        "<p><em>No text content.</em></p>\n"@
    } else {
        markdown_html(response.content@)
    }) + "</div>\n</section>\n</article>\n"@
}

} // verus!
