//! HTML escaping and the Markdown subset that exports render: paragraphs separated by blank
//! lines, `**strong**`, `*emphasis*` and `` `code` `` spans. Everything else is text.
use vstd::prelude::*;
use crate::text::{chars_of, is_whitespace, is_ws, matches_at, push_all, push_str, string_of};

verus! {

/// The HTML form of one character.
pub open spec fn escape_char(c: char) -> Seq<char> {
    if c == '&' {
        "&amp;"@
    } else if c == '<' {
        "&lt;"@
    } else if c == '>' {
        "&gt;"@
    } else if c == '"' {
        "&quot;"@
    } else if c == '\'' {
        "&#39;"@
    } else {
        seq![c]
    }
}

/// Text with the five HTML-significant characters replaced by entities.
pub open spec fn escape(s: Seq<char>) -> Seq<char>
    decreases s.len(),
{
    if s.len() == 0 {
        Seq::empty()
    } else {
        escape(s.drop_last()) + escape_char(s.last())
    }
}

fn push_escaped_char(out: &mut Vec<char>, c: char)
    ensures
        final(out)@ == old(out)@ + escape_char(c),
{
    if c == '&' {
        push_str(out, "&amp;");
    } else if c == '<' {
        push_str(out, "&lt;");
    } else if c == '>' {
        push_str(out, "&gt;");
    } else if c == '"' {
        push_str(out, "&quot;");
    } else if c == '\'' {
        push_str(out, "&#39;");
    } else {
        out.push(c);
    }
}

/// Appends the escaped form of `s[from..to]`.
fn push_escaped(out: &mut Vec<char>, s: &Vec<char>, from: usize, to: usize)
    requires
        from <= to <= s.len(),
    ensures
        final(out)@ == old(out)@ + escape(s@.subrange(from as int, to as int)),
{
    let mut i = from;
    let ghost start = out@;
    while i < to
        invariant
            from <= i <= to <= s.len(),
            out@ == start + escape(s@.subrange(from as int, i as int)),
        decreases to - i,
    {
        let ghost before = out@;
        push_escaped_char(out, s[i]);
        proof {
            assert(s@.subrange(from as int, i + 1).drop_last() =~= s@.subrange(from as int, i as int));
            assert(out@ =~= start + escape(s@.subrange(from as int, i + 1)));
        }
        i += 1;
    }
}

/// Escapes `&`, `<`, `>`, `"` and `'` for use in HTML text and attribute values.
pub fn html_escape(value: &str) -> (r: String)
    ensures
        r@ == escape(value@),
{
    let v = chars_of(value);
    let mut out: Vec<char> = Vec::new();
    push_escaped(&mut out, &v, 0, v.len());
    assert(v@.subrange(0, v@.len() as int) =~= v@);
    string_of(&out)
}

/// Escaped text holds none of `<`, `>`, `"` and `'`, so it cannot open or close a tag or an
/// attribute.
pub proof fn lemma_escape_is_inert(s: Seq<char>)
    ensures
        forall|i: int| 0 <= i < escape(s).len() ==> {
            let c = #[trigger] escape(s)[i];
            c != '<' && c != '>' && c != '"' && c != '\''
        },
    decreases s.len(),
{
    if s.len() > 0 {
        lemma_escape_is_inert(s.drop_last());
        let p = escape(s.drop_last());
        let q = escape_char(s.last());
        reveal_strlit("&amp;");
        reveal_strlit("&lt;");
        reveal_strlit("&gt;");
        reveal_strlit("&quot;");
        reveal_strlit("&#39;");
        assert forall|i: int| 0 <= i < escape(s).len() implies {
            let c = #[trigger] escape(s)[i];
            c != '<' && c != '>' && c != '"' && c != '\''
        } by {
            if i >= p.len() {
                assert(escape(s)[i] == q[i - p.len()]);
            } else {
                assert(escape(s)[i] == p[i]);
            }
        }
    }
}

/// Position of the first occurrence of `delim` at or after `k`.
pub open spec fn find_from(t: Seq<char>, k: int, delim: Seq<char>) -> Option<int>
    decreases t.len() + 1 - k,
{
    if k < 0 || k + delim.len() > t.len() {
        None
    } else if matches_at(t, k, delim) {
        Some(k)
    } else {
        find_from(t, k + 1, delim)
    }
}

pub proof fn lemma_find_from(t: Seq<char>, k: int, delim: Seq<char>)
    requires
        0 <= k,
    ensures
        find_from(t, k, delim) matches Some(e) ==> k <= e && e + delim.len() <= t.len()
            && matches_at(t, e, delim),
    decreases t.len() + 1 - k,
{
    if k + delim.len() <= t.len() && !matches_at(t, k, delim) {
        lemma_find_from(t, k + 1, delim);
    }
}

/// A span delimited by `delim` that opens at `c`: the position where its content ends, when
/// the closing delimiter exists and the content is not empty.
pub open spec fn span_at(t: Seq<char>, c: int, delim: Seq<char>) -> Option<int> {
    if matches_at(t, c, delim) {
        match find_from(t, c + delim.len(), delim) {
            Some(e) => if e > c + delim.len() {
                Some(e)
            } else {
                None
            },
            None => None,
        }
    } else {
        None
    }
}

/// The HTML of one line's worth of inline Markdown from position `c` on.
pub open spec fn inline_from(t: Seq<char>, c: int) -> Seq<char>
    decreases t.len() - c,
{
    if c < 0 || c >= t.len() {
        Seq::empty()
    } else {
        proof {
            reveal_strlit("**");
            reveal_strlit("*");
            reveal_strlit("`");
            lemma_find_from(t, c + 2, "**"@);
            lemma_find_from(t, c + 1, "*"@);
            lemma_find_from(t, c + 1, "`"@);
        }
        match span_at(t, c, "**"@) {
            Some(e) => "<strong>"@ + escape(t.subrange(c + 2, e)) + "</strong>"@ + inline_from(
                t,
                e + 2,
            ),
            None => match span_at(t, c, "`"@) {
                Some(e) => "<code>"@ + escape(t.subrange(c + 1, e)) + "</code>"@ + inline_from(
                    t,
                    e + 1,
                ),
                None => if !matches_at(t, c, "**"@) {
                    match span_at(t, c, "*"@) {
                        Some(e) => "<em>"@ + escape(t.subrange(c + 1, e)) + "</em>"@
                            + inline_from(t, e + 1),
                        None => escape_char(t[c]) + inline_from(t, c + 1),
                    }
                } else {
                    escape_char(t[c]) + inline_from(t, c + 1)
                },
            },
        }
    }
}

fn find(t: &Vec<char>, k: usize, delim: &Vec<char>) -> (r: Option<usize>)
    requires
        k <= t.len(),
        delim.len() > 0,
    ensures
        match find_from(t@, k as int, delim@) {
            None => r is None,
            Some(e) => r == Some(e as usize),
        },
{
    let mut i = k;
    while i < t.len() && delim.len() <= t.len() - i
        invariant
            k <= i <= t.len(),
            find_from(t@, k as int, delim@) == find_from(t@, i as int, delim@),
        decreases t.len() - i,
    {
        if crate::text::match_at(t, i, delim) {
            return Some(i);
        }
        i += 1;
    }
    None
}

fn span(t: &Vec<char>, c: usize, delim: &Vec<char>) -> (r: Option<usize>)
    requires
        c < t.len(),
        delim.len() > 0,
    ensures
        match span_at(t@, c as int, delim@) {
            None => r is None,
            Some(e) => r == Some(e as usize),
        },
{
    if crate::text::match_at(t, c, delim) {
        proof {
            assert(c + delim@.len() <= t@.len());
            lemma_find_from(t@, c + delim@.len(), delim@);
        }
        match find(t, c + delim.len(), delim) {
            Some(e) => if e > c + delim.len() {
                Some(e)
            } else {
                None
            },
            None => None,
        }
    } else {
        None
    }
}

/// Appends the inline HTML of `t`.
fn push_inline(out: &mut Vec<char>, t: &Vec<char>)
    ensures
        final(out)@ == old(out)@ + inline_from(t@, 0),
{
    let strong = chars_of("**");
    let star = chars_of("*");
    let tick = chars_of("`");
    let ghost start = out@;
    let mut c: usize = 0;
    while c < t.len()
        invariant
            0 <= c <= t.len(),
            strong@ == "**"@,
            star@ == "*"@,
            tick@ == "`"@,
            start + inline_from(t@, 0) == out@ + inline_from(t@, c as int),
        decreases t.len() - c,
    {
        proof {
            lemma_find_from(t@, c + 2, "**"@);
            lemma_find_from(t@, c + 1, "*"@);
            lemma_find_from(t@, c + 1, "`"@);
            reveal_strlit("**");
            reveal_strlit("*");
            reveal_strlit("`");
        }
        let ghost before = out@;
        match span(t, c, &strong) {
            Some(e) => {
                push_str(out, "<strong>");
                push_escaped(out, t, c + 2, e);
                push_str(out, "</strong>");
                proof {
                    assert(before + inline_from(t@, c as int) =~= out@ + inline_from(t@, e + 2));
                }
                c = e + 2;
            },
            None => match span(t, c, &tick) {
                Some(e) => {
                    push_str(out, "<code>");
                    push_escaped(out, t, c + 1, e);
                    push_str(out, "</code>");
                    proof {
                        assert(before + inline_from(t@, c as int) =~= out@ + inline_from(
                            t@,
                            e + 1,
                        ));
                    }
                    c = e + 1;
                },
                None => {
                    let emphasis = if !crate::text::match_at(t, c, &strong) {
                        span(t, c, &star)
                    } else {
                        None
                    };
                    match emphasis {
                        Some(e) => {
                            push_str(out, "<em>");
                            push_escaped(out, t, c + 1, e);
                            push_str(out, "</em>");
                            proof {
                                assert(before + inline_from(t@, c as int) =~= out@ + inline_from(
                                    t@,
                                    e + 1,
                                ));
                            }
                            c = e + 1;
                        },
                        None => {
                            push_escaped_char(out, t[c]);
                            proof {
                                assert(before + inline_from(t@, c as int) =~= out@ + inline_from(
                                    t@,
                                    c + 1,
                                ));
                            }
                            c = c + 1;
                        },
                    }
                },
            },
        }
    }
    assert(out@ + inline_from(t@, c as int) =~= out@);
}

/// The lines of a text, split at `\n`.
pub open spec fn split_lines(t: Seq<char>) -> Seq<Seq<char>>
    decreases t.len(),
{
    if t.len() == 0 {
        seq![Seq::empty()]
    } else {
        let rest = split_lines(t.drop_last());
        if t.last() == '\n' {
            rest.push(Seq::empty())
        } else {
            rest.update(rest.len() - 1, rest.last().push(t.last()))
        }
    }
}

proof fn lemma_split_lines_nonempty(t: Seq<char>)
    ensures
        split_lines(t).len() >= 1,
    decreases t.len(),
{
    if t.len() > 0 {
        lemma_split_lines_nonempty(t.drop_last());
    }
}

/// Lines joined with `\n`.
pub open spec fn join_lines(lines: Seq<Seq<char>>) -> Seq<char>
    decreases lines.len(),
{
    if lines.len() == 0 {
        Seq::empty()
    } else if lines.len() == 1 {
        lines[0]
    } else {
        join_lines(lines.drop_last()) + seq!['\n'] + lines.last()
    }
}

/// A line holding only white space.
pub open spec fn blank(line: Seq<char>) -> bool {
    forall|i: int| 0 <= i < line.len() ==> is_ws(#[trigger] line[i])
}

/// The paragraph made of the given lines, if there are any.
pub open spec fn paragraph(lines: Seq<Seq<char>>) -> Seq<char> {
    if lines.len() == 0 {
        Seq::empty()
    } else {
        "<p>"@ + inline_from(join_lines(lines), 0) + "</p>\n"@
    }
}

/// The HTML of the remaining lines, with `open` the lines of the paragraph being gathered.
pub open spec fn blocks(lines: Seq<Seq<char>>, open: Seq<Seq<char>>) -> Seq<char>
    decreases lines.len(),
{
    if lines.len() == 0 {
        paragraph(open)
    } else if blank(lines[0]) {
        paragraph(open) + blocks(lines.drop_first(), Seq::empty())
    } else {
        blocks(lines.drop_first(), open.push(lines[0]))
    }
}

/// The HTML of a Markdown text: each run of non-blank lines is a paragraph.
pub open spec fn markdown_html(t: Seq<char>) -> Seq<char> {
    blocks(split_lines(t), Seq::empty())
}

fn is_blank_line(line: &Vec<char>) -> (r: bool)
    ensures
        r == blank(line@),
{
    let mut i: usize = 0;
    while i < line.len()
        invariant
            0 <= i <= line.len(),
            forall|j: int| 0 <= j < i ==> is_ws(#[trigger] line@[j]),
        decreases line.len() - i,
    {
        if !is_whitespace(line[i]) {
            return false;
        }
        i += 1;
    }
    true
}

fn push_paragraph(out: &mut Vec<char>, lines: &Vec<Vec<char>>)
    ensures
        final(out)@ == old(out)@ + paragraph(line_views(lines@)),
{
    if lines.len() == 0 {
        assert(out@ + Seq::<char>::empty() =~= out@);
        return;
    }
    let mut joined: Vec<char> = Vec::new();
    let mut i: usize = 0;
    while i < lines.len()
        invariant
            0 <= i <= lines.len(),
            joined@ == join_lines(line_views(lines@).subrange(0, i as int)),
        decreases lines.len() - i,
    {
        proof {
            let s = line_views(lines@).subrange(0, i + 1);
            assert(s.drop_last() =~= line_views(lines@).subrange(0, i as int));
            if i == 0 {
                assert(s.len() == 1);
            }
        }
        if i > 0 {
            joined.push('\n');
        }
        let ghost before = joined@;
        push_all(&mut joined, &lines[i]);
        proof {
            if i == 0 {
                assert(joined@ =~= line_views(lines@).subrange(0, 1)[0]);
            }
        }
        i += 1;
    }
    assert(line_views(lines@).subrange(0, lines@.len() as int) =~= line_views(lines@));
    push_str(out, "<p>");
    push_inline(out, &joined);
    push_str(out, "</p>\n");
}

/// The character sequences of a list of lines.
pub open spec fn line_views(lines: Seq<Vec<char>>) -> Seq<Seq<char>> {
    lines.map_values(|l: Vec<char>| l@)
}

/// Renders Markdown text as HTML.
pub fn to_html(markdown: &str) -> (r: String)
    ensures
        r@ == markdown_html(markdown@),
{
    let t = chars_of(markdown);
    let lines = split(&t);
    let mut out: Vec<char> = Vec::new();
    let mut open: Vec<Vec<char>> = Vec::new();
    let mut i: usize = 0;
    assert(line_views(lines@).skip(0) =~= line_views(lines@));
    assert(line_views(open@) =~= Seq::<Seq<char>>::empty());
    while i < lines.len()
        invariant
            0 <= i <= lines.len(),
            line_views(lines@) == split_lines(t@),
            t@ == markdown@,
            out@ + blocks(line_views(lines@).skip(i as int), line_views(open@)) == markdown_html(
                markdown@,
            ),
        decreases lines.len() - i,
    {
        let ghost rest = line_views(lines@).skip(i as int);
        proof {
            assert(rest.drop_first() =~= line_views(lines@).skip(i + 1));
            assert(rest[0] == lines@[i as int]@);
        }
        if is_blank_line(&lines[i]) {
            let ghost before = out@;
            push_paragraph(&mut out, &open);
            open = Vec::new();
            proof {
                assert(line_views(open@) =~= Seq::<Seq<char>>::empty());
            }
        } else {
            let ghost before_open = line_views(open@);
            open.push(copy_line(&lines[i]));
            proof {
                assert(line_views(open@) =~= before_open.push(lines@[i as int]@));
            }
        }
        i += 1;
    }
    proof {
        assert(line_views(lines@).skip(lines@.len() as int) =~= Seq::<Seq<char>>::empty());
    }
    push_paragraph(&mut out, &open);
    string_of(&out)
}

fn copy_line(line: &Vec<char>) -> (r: Vec<char>)
    ensures
        r@ == line@,
{
    crate::text::slice_chars(line, 0, line.len())
}

/// Splits a text into its lines.
fn split(t: &Vec<char>) -> (r: Vec<Vec<char>>)
    ensures
        line_views(r@) == split_lines(t@),
{
    let mut lines: Vec<Vec<char>> = Vec::new();
    lines.push(Vec::new());
    let mut i: usize = 0;
    assert(line_views(lines@) =~= split_lines(t@.subrange(0, 0)));
    while i < t.len()
        invariant
            0 <= i <= t.len(),
            line_views(lines@) == split_lines(t@.subrange(0, i as int)),
            lines@.len() >= 1,
        decreases t.len() - i,
    {
        let ghost prefix = t@.subrange(0, i + 1);
        proof {
            assert(prefix.drop_last() =~= t@.subrange(0, i as int));
            lemma_split_lines_nonempty(t@.subrange(0, i as int));
        }
        let ghost before = line_views(lines@);
        if t[i] == '\n' {
            lines.push(Vec::new());
            proof {
                assert(line_views(lines@) =~= before.push(Seq::empty()));
            }
        } else {
            let n = lines.len();
            let mut last = lines.pop().unwrap();
            last.push(t[i]);
            lines.push(last);
            proof {
                assert(line_views(lines@) =~= before.update(n - 1, before.last().push(t@[i as int])));
            }
        }
        i += 1;
    }
    assert(t@.subrange(0, t@.len() as int) =~= t@);
    lines
}

} // verus!
