//! Prompt templates with `{{name}}` placeholders.
//!
//! A template is read left to right. `\{{` stands for a literal `{{`; `{{name}}` is a
//! placeholder whose name must be valid; every other character is copied. The same walk
//! collects the referenced names and substitutes their values.
use vstd::prelude::*;
use crate::order::{insert_sorted, lex_lt, strictly_sorted, views};
use crate::text::{chars_of, push_str, string_of};

verus! {

/// Values available while a prompt is being rendered.
#[derive(Clone, Debug, Default)]
pub struct PromptContext {
    pub conversation_id: String,
    pub conversation_title: String,
    pub model_name: String,
    pub provider_name: String,
}

/// Why a prompt could not be rendered.
#[derive(Clone, Debug, PartialEq, Eq)]
pub enum PromptRenderError {
    Cancelled,
    InvalidTemplate(String),
    Evaluation { name: String, message: String },
}

/// Mathematical model of [`PromptRenderError`].
pub enum RenderFault {
    Cancelled,
    InvalidTemplate(Seq<char>),
    Evaluation { name: Seq<char>, message: Seq<char> },
}

impl View for PromptRenderError {
    type V = RenderFault;

    open spec fn view(&self) -> RenderFault {
        match self {
            PromptRenderError::Cancelled => RenderFault::Cancelled,
            PromptRenderError::InvalidTemplate(m) => RenderFault::InvalidTemplate(m@),
            PromptRenderError::Evaluation { name, message } => RenderFault::Evaluation {
                name: name@,
                message: message@,
            },
        }
    }
}

pub open spec fn unclosed_message() -> Seq<char> {
    "Prompt template contains an unclosed variable placeholder"@
}

pub open spec fn invalid_name_message(name: Seq<char>) -> Seq<char> {
    "Invalid prompt variable placeholder: {{"@ + name + "}}"@
}

pub open spec fn undefined_message() -> Seq<char> {
    "variable is not defined"@
}

/// The text that the error displays.
pub open spec fn fault_text(f: RenderFault) -> Seq<char> {
    match f {
        RenderFault::Cancelled => "Prompt evaluation was cancelled"@,
        RenderFault::InvalidTemplate(m) => m,
        RenderFault::Evaluation { name, message } => "Could not evaluate prompt variable "@
            + name + ": "@ + message,
    }
}

impl PromptRenderError {
    /// The human-readable description of the error.
    pub fn message(&self) -> (r: String)
        ensures
            r@ == fault_text(self@),
    {
        match self {
            PromptRenderError::Cancelled => String::from_str("Prompt evaluation was cancelled"),
            PromptRenderError::InvalidTemplate(m) => m.clone(),
            PromptRenderError::Evaluation { name, message } => {
                let mut out: Vec<char> = Vec::new();
                push_str(&mut out, "Could not evaluate prompt variable ");
                push_str(&mut out, name.as_str());
                push_str(&mut out, ": ");
                push_str(&mut out, message.as_str());
                string_of(&out)
            },
        }
    }
}

/// A character allowed in a prompt variable name.
pub open spec fn is_name_char(c: char) -> bool {
    ||| ('a' <= c && c <= 'z')
    ||| ('A' <= c && c <= 'Z')
    ||| ('0' <= c && c <= '9')
    ||| c == '_'
    ||| c == '.'
    ||| c == '-'
}

/// Prompt variable names are non-empty and made of ASCII letters, digits, `_`, `.` and `-`.
pub open spec fn valid_name(name: Seq<char>) -> bool {
    name.len() > 0 && forall|i: int| 0 <= i < name.len() ==> is_name_char(#[trigger] name[i])
}

/// Whether `name` may be used as a prompt variable.
pub fn prompt_variable_name_is_valid(name: &str) -> (r: bool)
    ensures
        r == valid_name(name@),
{
    let v = chars_of(name);
    if v.len() == 0 {
        return false;
    }
    let mut i: usize = 0;
    while i < v.len()
        invariant
            0 <= i <= v.len(),
            v@ == name@,
            forall|j: int| 0 <= j < i ==> is_name_char(#[trigger] v@[j]),
        decreases v.len() - i,
    {
        let c = v[i];
        if !(('a' <= c && c <= 'z') || ('A' <= c && c <= 'Z') || ('0' <= c && c <= '9') || c
            == '_' || c == '.' || c == '-') {
            return false;
        }
        i += 1;
    }
    true
}

/// One step of the left-to-right walk over a template.
pub enum Piece {
    Literal(Seq<char>),
    Variable(Seq<char>),
}

/// Position of the first `}}` at or after `k`.
pub open spec fn first_close(t: Seq<char>, k: int) -> Option<int>
    decreases t.len() - k,
{
    if k < 0 || k + 2 > t.len() {
        None
    } else if t[k] == '}' && t[k + 1] == '}' {
        Some(k)
    } else {
        first_close(t, k + 1)
    }
}

pub proof fn lemma_first_close(t: Seq<char>, k: int)
    requires
        0 <= k,
    ensures
        first_close(t, k) matches Some(e) ==> k <= e && e + 2 <= t.len() && t[e] == '}' && t[e
            + 1] == '}',
    decreases t.len() - k,
{
    if k + 2 <= t.len() && !(t[k] == '}' && t[k + 1] == '}') {
        lemma_first_close(t, k + 1);
    }
}

/// The piece that starts at position `c`, and where the next one starts.
pub open spec fn piece_at(t: Seq<char>, c: int) -> Result<(Piece, int), RenderFault> {
    if c + 3 <= t.len() && t[c] == '\\' && t[c + 1] == '{' && t[c + 2] == '{' {
        Ok((Piece::Literal("{{"@), c + 3))
    } else if c + 2 <= t.len() && t[c] == '{' && t[c + 1] == '{' {
        match first_close(t, c + 2) {
            None => Err(RenderFault::InvalidTemplate(unclosed_message())),
            Some(e) => {
                let name = t.subrange(c + 2, e);
                if valid_name(name) {
                    Ok((Piece::Variable(name), e + 2))
                } else {
                    Err(RenderFault::InvalidTemplate(invalid_name_message(name)))
                }
            },
        }
    } else {
        Ok((Piece::Literal(seq![t[c]]), c + 1))
    }
}

pub proof fn lemma_piece_advances(t: Seq<char>, c: int)
    requires
        0 <= c < t.len(),
    ensures
        piece_at(t, c) matches Ok((p, n)) ==> c < n <= t.len(),
{
    lemma_first_close(t, c + 2);
}

/// The names of the placeholders from position `c` on, or the first template fault.
pub open spec fn references_from(t: Seq<char>, c: int) -> Result<Set<Seq<char>>, RenderFault>
    decreases t.len() - c,
{
    if c < 0 || c >= t.len() {
        Ok(Set::empty())
    } else {
        proof {
            lemma_piece_advances(t, c);
        }
        match piece_at(t, c) {
            Err(f) => Err(f),
            Ok((p, n)) => match references_from(t, n) {
                Err(f) => Err(f),
                Ok(rest) => match p {
                    Piece::Literal(_) => Ok(rest),
                    Piece::Variable(name) => Ok(rest.insert(name)),
                },
            },
        }
    }
}

/// The value bound to `name`: the first entry with that key.
pub open spec fn lookup(values: Seq<(Seq<char>, Seq<char>)>, name: Seq<char>) -> Option<
    Seq<char>,
>
    decreases values.len(),
{
    if values.len() == 0 {
        None
    } else if values[0].0 == name {
        Some(values[0].1)
    } else {
        lookup(values.drop_first(), name)
    }
}

/// The template from position `c` on with every placeholder replaced by its value, or the
/// first fault met on the way (a template fault or an undefined variable).
pub open spec fn render_from(
    t: Seq<char>,
    c: int,
    values: Seq<(Seq<char>, Seq<char>)>,
) -> Result<Seq<char>, RenderFault>
    decreases t.len() - c,
{
    if c < 0 || c >= t.len() {
        Ok(Seq::empty())
    } else {
        proof {
            lemma_piece_advances(t, c);
        }
        match piece_at(t, c) {
            Err(f) => Err(f),
            Ok((Piece::Literal(l), n)) => match render_from(t, n, values) {
                Err(f) => Err(f),
                Ok(rest) => Ok(l + rest),
            },
            Ok((Piece::Variable(name), n)) => match lookup(values, name) {
                None => Err(
                    RenderFault::Evaluation { name: name, message: undefined_message() },
                ),
                Some(v) => match render_from(t, n, values) {
                    Err(f) => Err(f),
                    Ok(rest) => Ok(v + rest),
                },
            },
        }
    }
}

/// Executable form of a piece.
enum ExecPiece {
    Literal(Vec<char>),
    Variable(Vec<char>),
}

impl ExecPiece {
    spec fn model(&self) -> Piece {
        match self {
            ExecPiece::Literal(l) => Piece::Literal(l@),
            ExecPiece::Variable(n) => Piece::Variable(n@),
        }
    }
}

fn find_close(t: &Vec<char>, k: usize) -> (r: Option<usize>)
    requires
        k <= t.len(),
    ensures
        match first_close(t@, k as int) {
            None => r is None,
            Some(e) => r == Some(e as usize),
        },
{
    let mut i = k;
    while t.len() >= 2 && i <= t.len() - 2
        invariant
            k <= i <= t.len(),
            first_close(t@, k as int) == first_close(t@, i as int),
        decreases t.len() - i,
    {
        if t[i] == '}' && t[i + 1] == '}' {
            return Some(i);
        }
        i += 1;
    }
    None
}

fn invalid_placeholder(name: &Vec<char>) -> (r: PromptRenderError)
    ensures
        r@ == RenderFault::InvalidTemplate(invalid_name_message(name@)),
{
    let mut out: Vec<char> = Vec::new();
    push_str(&mut out, "Invalid prompt variable placeholder: {{");
    crate::text::push_all(&mut out, name);
    push_str(&mut out, "}}");
    PromptRenderError::InvalidTemplate(string_of(&out))
}

fn next_piece(t: &Vec<char>, c: usize) -> (r: Result<(ExecPiece, usize), PromptRenderError>)
    requires
        c < t.len(),
    ensures
        match piece_at(t@, c as int) {
            Err(f) => r matches Err(e) && e@ == f,
            Ok((p, n)) => r matches Ok((q, m)) && q.model() == p && m == n,
        },
{
    if t.len() - c >= 3 && t[c] == '\\' && t[c + 1] == '{' && t[c + 2] == '{' {
        let mut l = Vec::new();
        l.push('{');
        l.push('{');
        proof {
            reveal_strlit("{{");
            assert(l@ =~= "{{"@);
        }
        Ok((ExecPiece::Literal(l), c + 3))
    } else if t.len() - c >= 2 && t[c] == '{' && t[c + 1] == '{' {
        match find_close(t, c + 2) {
            None => Err(
                PromptRenderError::InvalidTemplate(
                    String::from_str("Prompt template contains an unclosed variable placeholder"),
                ),
            ),
            Some(e) => {
                proof {
                    lemma_first_close(t@, c + 2);
                }
                let name = crate::text::slice_chars(t, c + 2, e);
                let ns = string_of(&name);
                if prompt_variable_name_is_valid(ns.as_str()) {
                    Ok((ExecPiece::Variable(name), e + 2))
                } else {
                    Err(invalid_placeholder(&name))
                }
            },
        }
    } else {
        let mut l = Vec::new();
        l.push(t[c]);
        assert(l@ =~= seq![t@[c as int]]);
        Ok((ExecPiece::Literal(l), c + 1))
    }
}

/// The names of the variables that a template refers to, in sorted order and each once.
/// Fails with the first template fault (an unclosed or an invalid placeholder).
pub fn referenced_prompt_variables(template: &str) -> (r: Result<Vec<String>, PromptRenderError>)
    ensures
        match references_from(template@, 0) {
            Err(f) => r matches Err(e) && e@ == f,
            Ok(names) => r matches Ok(list) && strictly_sorted(views(list@)) && views(
                list@,
            ).to_set() == names,
        },
{
    let t = chars_of(template);
    let mut pieces: Vec<ExecPiece> = Vec::new();
    let mut c: usize = 0;
    proof {
        match references_from(t@, 0) {
            Err(_) => {},
            Ok(rest) => {
                assert(names_of(pieces@).union(rest) =~= rest);
            },
        }
    }
    // First pass: split the template into pieces, stopping at the first fault.
    while c < t.len()
        invariant
            t@ == template@,
            0 <= c <= t.len(),
            references_from(t@, 0) == match references_from(t@, c as int) {
                Err(f) => Err(f),
                Ok(rest) => Ok(names_of(pieces@).union(rest)),
            },
        decreases t.len() - c,
    {
        proof {
            lemma_piece_advances(t@, c as int);
        }
        let step = next_piece(&t, c);
        match step {
            Err(e) => {
                return Err(e);
            },
            Ok((p, n)) => {
                let ghost before = pieces@;
                let ghost gp = p;
                proof {
                    lemma_names_of_push(pieces@, p);
                }
                pieces.push(p);
                proof {
                    assert(pieces@ == before.push(gp));
                    match references_from(t@, n as int) {
                        Err(_) => {},
                        Ok(rest) => {
                            match gp {
                                ExecPiece::Literal(_) => {
                                    assert(names_of(before).union(rest) =~= names_of(pieces@).union(rest));
                                },
                                ExecPiece::Variable(nm) => {
                                    assert(names_of(before).union(rest.insert(nm@)) =~= names_of(pieces@).union(rest));
                                },
                            }
                        },
                    }
                }
                c = n;
            },
        }
    }
    proof {
        assert(names_of(pieces@).union(Set::<Seq<char>>::empty()) =~= names_of(pieces@));
        assert(pieces@.subrange(0, 0) =~= Seq::<ExecPiece>::empty());
        assert(views(Seq::<String>::empty()).to_set() =~= Set::<Seq<char>>::empty());
    }
    let mut list: Vec<String> = Vec::new();
    let mut i: usize = 0;
    while i < pieces.len()
        invariant
            0 <= i <= pieces.len(),
            strictly_sorted(views(list@)),
            views(list@).to_set() == names_of(pieces@.subrange(0, i as int)),
            references_from(t@, 0) == Ok::<Set<Seq<char>>, RenderFault>(names_of(pieces@)),
        decreases pieces.len() - i,
    {
        proof {
            assert(pieces@.subrange(0, i + 1) =~= pieces@.subrange(0, i as int).push(pieces@[i as int]));
            lemma_names_of_push(pieces@.subrange(0, i as int), pieces@[i as int]);
        }
        match &pieces[i] {
            ExecPiece::Literal(_) => {},
            ExecPiece::Variable(name) => {
                insert_sorted(&mut list, string_of(name));
            },
        }
        i += 1;
    }
    assert(pieces@.subrange(0, pieces@.len() as int) =~= pieces@);
    Ok(list)
}

/// The variable names among a sequence of pieces.
spec fn names_of(pieces: Seq<ExecPiece>) -> Set<Seq<char>>
    decreases pieces.len(),
{
    if pieces.len() == 0 {
        Set::empty()
    } else {
        let rest = names_of(pieces.drop_last());
        match pieces.last() {
            ExecPiece::Literal(_) => rest,
            ExecPiece::Variable(n) => rest.insert(n@),
        }
    }
}

proof fn lemma_names_of_push(pieces: Seq<ExecPiece>, p: ExecPiece)
    ensures
        names_of(pieces.push(p)) == match p {
            ExecPiece::Literal(_) => names_of(pieces),
            ExecPiece::Variable(n) => names_of(pieces).insert(n@),
        },
{
    assert(pieces.push(p).drop_last() =~= pieces);
}

/// The template with each placeholder replaced by the value bound to its name. Fails with the
/// first fault met left to right: a template fault, or a name that has no value.
pub fn substitute(template: &str, values: &Vec<(String, String)>) -> (r: Result<
    String,
    PromptRenderError,
>)
    ensures
        match render_from(template@, 0, value_views(values@)) {
            Err(f) => r matches Err(e) && e@ == f,
            Ok(s) => r matches Ok(out) && out@ == s,
        },
{
    let t = chars_of(template);
    let ghost vals = value_views(values@);
    let mut out: Vec<char> = Vec::new();
    let mut c: usize = 0;
    while c < t.len()
        invariant
            t@ == template@,
            vals == value_views(values@),
            0 <= c <= t.len(),
            render_from(t@, 0, vals) == match render_from(t@, c as int, vals) {
                Err(f) => Err(f),
                Ok(rest) => Ok(out@ + rest),
            },
        decreases t.len() - c,
    {
        proof {
            lemma_piece_advances(t@, c as int);
        }
        let step = next_piece(&t, c);
        match step {
            Err(e) => {
                return Err(e);
            },
            Ok((p, n)) => {
                match p {
                    ExecPiece::Literal(l) => {
                        let ghost before = out@;
                        crate::text::push_all(&mut out, &l);
                        proof {
                            match render_from(t@, n as int, vals) {
                                Err(_) => {},
                                Ok(rest) => {
                                    assert(before + (l@ + rest) =~= out@ + rest);
                                },
                            }
                        }
                    },
                    ExecPiece::Variable(name) => {
                        let found = find_value(values, &name);
                        match found {
                            None => {
                                return Err(
                                    PromptRenderError::Evaluation {
                                        name: string_of(&name),
                                        message: String::from_str("variable is not defined"),
                                    },
                                );
                            },
                            Some(v) => {
                                let vc = chars_of(v.as_str());
                                let ghost before = out@;
                                crate::text::push_all(&mut out, &vc);
                                proof {
                                    match render_from(t@, n as int, vals) {
                                        Err(_) => {},
                                        Ok(rest) => {
                                            assert(before + (vc@ + rest) =~= out@ + rest);
                                        },
                                    }
                                }
                            },
                        }
                    },
                }
                c = n;
            },
        }
    }
    Ok(string_of(&out))
}

/// The bindings of a value list, as character sequences.
pub open spec fn value_views(values: Seq<(String, String)>) -> Seq<(Seq<char>, Seq<char>)> {
    values.map_values(|p: (String, String)| (p.0@, p.1@))
}

pub fn find_value(values: &Vec<(String, String)>, name: &Vec<char>) -> (r: Option<String>)
    ensures
        match lookup(value_views(values@), name@) {
            None => r is None,
            Some(v) => r matches Some(s) && s@ == v,
        },
{
    let ghost vals = value_views(values@);
    let mut i: usize = 0;
    assert(vals.skip(0) =~= vals);
    while i < values.len()
        invariant
            0 <= i <= values.len(),
            vals == value_views(values@),
            lookup(vals, name@) == lookup(vals.skip(i as int), name@),
        decreases values.len() - i,
    {
        proof {
            assert(vals.skip(i as int).drop_first() =~= vals.skip(i + 1));
            assert(vals.skip(i as int)[0] == vals[i as int]);
        }
        let key = chars_of(values[i].0.as_str());
        if crate::text::chars_equal(&key, name) {
            return Some(values[i].1.clone());
        }
        i += 1;
    }
    None
}


/// A template renders exactly when its placeholders are well formed and every name that it
/// refers to has a value: rendering never fails for a reason that reading the references
/// would not show.
pub proof fn lemma_render_succeeds_iff_references_bound(
    template: Seq<char>,
    values: Seq<(Seq<char>, Seq<char>)>,
)
    ensures
        render_from(template, 0, values) is Ok <==> (references_from(template, 0) matches Ok(
            names,
        ) && forall|n: Seq<char>| names.contains(n) ==> #[trigger] lookup(values, n) is Some),
{
    lemma_render_from_iff(template, 0, values);
}

proof fn lemma_render_from_iff(t: Seq<char>, c: int, values: Seq<(Seq<char>, Seq<char>)>)
    requires
        0 <= c,
    ensures
        render_from(t, c, values) is Ok <==> (references_from(t, c) matches Ok(names) && forall|
            n: Seq<char>,
        | names.contains(n) ==> #[trigger] lookup(values, n) is Some),
    decreases t.len() - c,
{
    if c < t.len() {
        lemma_piece_advances(t, c);
        match piece_at(t, c) {
            Err(_) => {},
            Ok((p, n)) => {
                lemma_render_from_iff(t, n, values);
                match p {
                    Piece::Literal(_) => {},
                    Piece::Variable(name) => {
                        match references_from(t, n) {
                            Err(_) => {},
                            Ok(rest) => {
                                assert(rest.insert(name).contains(name));
                            },
                        }
                    },
                }
            },
        }
    }
}

/// A template with no `{` is its own rendering, whatever the values.
pub proof fn lemma_plain_text_renders_unchanged(
    template: Seq<char>,
    values: Seq<(Seq<char>, Seq<char>)>,
)
    requires
        forall|i: int| 0 <= i < template.len() ==> #[trigger] template[i] != '{',
    ensures
        render_from(template, 0, values) == Ok::<Seq<char>, RenderFault>(template),
{
    lemma_plain_from(template, 0, values);
    assert(template.skip(0) =~= template);
}

proof fn lemma_plain_from(t: Seq<char>, c: int, values: Seq<(Seq<char>, Seq<char>)>)
    requires
        0 <= c <= t.len(),
        forall|i: int| 0 <= i < t.len() ==> #[trigger] t[i] != '{',
    ensures
        render_from(t, c, values) == Ok::<Seq<char>, RenderFault>(t.skip(c)),
    decreases t.len() - c,
{
    if c < t.len() {
        lemma_plain_from(t, c + 1, values);
        assert(seq![t[c]] + t.skip(c + 1) =~= t.skip(c));
    } else {
        assert(t.skip(c) =~= Seq::<char>::empty());
    }
}

} // verus!
