//! Rendering a set of prompt templates: which variables they refer to, how each variable is
//! evaluated, what an evaluation that read the environment or ran a command yields, and how
//! the values are substituted into snapshots.
//!
//! Reading the environment, running a command and measuring time happen outside; the steps
//! here decide what to do and what the results mean.
use vstd::prelude::*;

use crate::domain::{PromptEvaluation, PromptSnapshot, PromptVariableSource, opt_view};
use crate::order::{insert_sorted, strictly_sorted, views};
use crate::prompt::{
    referenced_prompt_variables, references_from, render_from, substitute, undefined_message,
    value_views, PromptContext, PromptRenderError, RenderFault,
};
use crate::text::{chars_of, decimal, push_str, string_of, trim, trim_str, u64_decimal};

verus! {

/// The most output a command variable may print, in bytes.
pub const MAX_COMMAND_OUTPUT_BYTES: usize = 65536;

/// The names each template refers to, or the first template fault, template by template.
pub open spec fn template_references(templates: Seq<Seq<char>>) -> Result<Seq<Set<Seq<char>>>, RenderFault>
    decreases templates.len(),
{
    if templates.len() == 0 {
        Ok(Seq::empty())
    } else {
        match template_references(templates.drop_last()) {
            Err(f) => Err(f),
            Ok(sets) => match references_from(templates.last(), 0) {
                Err(f) => Err(f),
                Ok(names) => Ok(sets.push(names)),
            },
        }
    }
}

/// Every name of every set.
pub open spec fn union_all(sets: Seq<Set<Seq<char>>>) -> Set<Seq<char>>
    decreases sets.len(),
{
    if sets.len() == 0 {
        Set::empty()
    } else {
        union_all(sets.drop_last()).union(sets.last())
    }
}

/// The names of each template, and of all templates together.
pub struct TemplateReferences {
    pub per_template: Vec<Vec<String>>,
    pub names: Vec<String>,
}

/// Sorted name lists that hold exactly the names of `sets`.
pub open spec fn lists_match(per_template: Seq<Vec<String>>, names: Seq<String>, sets: Seq<Set<Seq<char>>>) -> bool {
    &&& per_template.len() == sets.len()
    &&& forall|i: int|
        0 <= i < sets.len() ==> strictly_sorted(views(#[trigger] per_template[i]@)) && views(
            per_template[i]@,
        ).to_set() == sets[i]
    &&& strictly_sorted(views(names))
    &&& views(names).to_set() == union_all(sets)
}

proof fn lemma_references_prefix_fault(templates: Seq<Seq<char>>, k: int)
    requires
        0 <= k <= templates.len(),
        template_references(templates.take(k)) is Err,
    ensures
        template_references(templates) == template_references(templates.take(k)),
    decreases templates.len() - k,
{
    if k < templates.len() {
        assert(templates.take(k + 1).drop_last() =~= templates.take(k));
        lemma_references_prefix_fault(templates, k + 1);
    } else {
        assert(templates.take(k) =~= templates);
    }
}

/// The variables that a list of templates refers to: for each template its names, sorted and
/// each once, and all names together, sorted and each once. Fails with the first template
/// fault, in template order.
pub fn collect_references(templates: &Vec<String>) -> (r: Result<TemplateReferences, PromptRenderError>)
    ensures
        match template_references(views(templates@)) {
            Err(f) => r matches Err(e) && e@ == f,
            Ok(sets) => r matches Ok(t) && lists_match(t.per_template@, t.names@, sets),
        },
{
    let ghost all = views(templates@);
    let mut per_template: Vec<Vec<String>> = Vec::new();
    let mut names: Vec<String> = Vec::new();
    let mut i: usize = 0;
    proof {
        assert(all.take(0) =~= Seq::<Seq<char>>::empty());
        assert(views(names@).to_set() =~= Set::<Seq<char>>::empty());
    }
    while i < templates.len()
        invariant
            i <= templates.len(),
            all == views(templates@),
            template_references(all.take(i as int)) matches Ok(sets) && lists_match(
                per_template@,
                names@,
                sets,
            ),
        decreases templates.len() - i,
    {
        let ghost sets = template_references(all.take(i as int))->Ok_0;
        assert(all.take(i as int + 1).drop_last() =~= all.take(i as int));
        assert(all.take(i as int + 1).last() == templates@[i as int]@);
        let found = referenced_prompt_variables(templates[i].as_str());
        match found {
            Err(e) => {
                proof {
                    lemma_references_prefix_fault(all, i as int + 1);
                }
                return Err(e);
            },
            Ok(list) => {
                let ghost set_i = views(list@).to_set();
                let ghost before = views(names@).to_set();
                let mut j: usize = 0;
                while j < list.len()
                    invariant
                        j <= list.len(),
                        strictly_sorted(views(names@)),
                        views(names@).to_set() == before.union(views(list@).take(j as int).to_set()),
                    decreases list.len() - j,
                {
                    let name = list[j].clone();
                    insert_sorted(&mut names, name);
                    proof {
                        assert(views(list@).take(j as int + 1) =~= views(list@).take(j as int).push(list@[j as int]@));
                        assert(views(list@).take(j as int + 1).to_set() =~= views(list@).take(j as int).to_set().insert(list@[j as int]@)) by {
                            views(list@).take(j as int).lemma_push_to_set_commute(list@[j as int]@);
                        }
                    }
                    assert(views(names@).to_set() =~= before.union(views(list@).take(j as int + 1).to_set()));
                    j += 1;
                }
                assert(views(list@).take(list@.len() as int) =~= views(list@));
                let ghost per_before = per_template@;
                per_template.push(list);
                proof {
                    let new_sets = sets.push(set_i);
                    assert(template_references(all.take(i as int + 1)) == Ok::<Seq<Set<Seq<char>>>, RenderFault>(new_sets));
                    assert(new_sets.drop_last() =~= sets);
                    assert(union_all(new_sets) == union_all(sets).union(set_i));
                    assert forall|k: int| 0 <= k < new_sets.len() implies strictly_sorted(views(#[trigger] per_template@[k]@))
                        && views(per_template@[k]@).to_set() == new_sets[k] by {
                        if k < sets.len() {
                            assert(per_template@[k] == per_before[k]);
                        }
                    }
                }
                i += 1;
            },
        }
    }
    assert(all.take(templates.len() as int) =~= all);
    Ok(TemplateReferences { per_template, names })
}

/// The values of the built-in variables.
pub open spec fn builtin_bindings(context: PromptContext, date: Seq<char>, datetime: Seq<char>, os: Seq<char>) -> Seq<(Seq<char>, Seq<char>)> {
    seq![
        ("onechat.date"@, date),
        ("onechat.datetime"@, datetime),
        ("onechat.os"@, os),
        ("onechat.conversation.id"@, context.conversation_id@),
        ("onechat.conversation.title"@, context.conversation_title@),
        ("onechat.model.name"@, context.model_name@),
        ("onechat.provider.name"@, context.provider_name@),
    ]
}

fn binding(name: &str, value: String) -> (r: (String, String))
    ensures
        r.0@ == name@,
        r.1 == value,
{
    (String::from_str(name), value)
}

/// The built-in variables: today's date and the time (as given), the operating system, and
/// the conversation, model and provider of the request.
pub fn builtin_values(context: PromptContext, date: String, datetime: String, os: String) -> (r: Vec<(String, String)>)
    ensures
        value_views(r@) == builtin_bindings(context, date@, datetime@, os@),
{
    let ghost c = context;
    let mut values: Vec<(String, String)> = Vec::new();
    values.push(binding("onechat.date", date));
    values.push(binding("onechat.datetime", datetime));
    values.push(binding("onechat.os", os));
    values.push(binding("onechat.conversation.id", context.conversation_id));
    values.push(binding("onechat.conversation.title", context.conversation_title));
    values.push(binding("onechat.model.name", context.model_name));
    values.push(binding("onechat.provider.name", context.provider_name));
    assert(value_views(values@) =~= builtin_bindings(c, date@, datetime@, os@));
    values
}

/// What evaluating one variable takes.
#[derive(Debug)]
pub enum VariableStep {
    /// The value is known; `source` names where it came from.
    Ready { source: String, value: String },
    /// The value is the environment variable `variable`.
    ReadEnvironment { variable: String },
    /// The value is what the shell script prints, run in `cwd` if given, within `timeout_ms`.
    RunCommand { script: String, cwd: Option<String>, timeout_ms: u64 },
}

/// The directory a command runs in: the configured one unless it is blank.
pub open spec fn command_directory(cwd: Option<Seq<char>>) -> Option<Seq<char>> {
    match cwd {
        Some(c) => if trim(c).len() == 0 {
            None
        } else {
            Some(c)
        },
        None => None,
    }
}

/// A time limit of at least one millisecond.
pub open spec fn effective_timeout(timeout_ms: u64) -> u64 {
    if timeout_ms == 0 {
        1
    } else {
        timeout_ms
    }
}

/// Decides how a variable is evaluated: a built-in value wins; otherwise the configured
/// source gives text, an environment variable or a command; a name with neither is an error.
pub fn plan_variable(name: &String, source: Option<PromptVariableSource>, builtin: Option<String>) -> (r: Result<VariableStep, PromptRenderError>)
    ensures
        match builtin {
            Some(v) => r matches Ok(VariableStep::Ready { source: s, value }) && s@ == "built_in"@ && value == v,
            None => match source {
                None => r matches Err(e) && e@ == (RenderFault::Evaluation { name: name@, message: undefined_message() }),
                Some(PromptVariableSource::Text { value: t }) => r matches Ok(VariableStep::Ready { source: s, value })
                    && s@ == "text"@ && value == t,
                Some(PromptVariableSource::Environment { variable: v }) => r matches Ok(VariableStep::ReadEnvironment { variable })
                    && variable == v,
                Some(PromptVariableSource::Command { script: sc, cwd: d, timeout_ms: t }) => r matches Ok(VariableStep::RunCommand { script, cwd, timeout_ms })
                    && script == sc && opt_view(cwd) == command_directory(opt_view(d)) && timeout_ms == effective_timeout(t),
            },
        },
{
    if let Some(value) = builtin {
        return Ok(VariableStep::Ready { source: String::from_str("built_in"), value });
    }
    match source {
        None => Err(PromptRenderError::Evaluation { name: name.clone(), message: String::from_str("variable is not defined") }),
        Some(PromptVariableSource::Text { value }) => Ok(VariableStep::Ready { source: String::from_str("text"), value }),
        Some(PromptVariableSource::Environment { variable }) => Ok(VariableStep::ReadEnvironment { variable }),
        Some(PromptVariableSource::Command { script, cwd, timeout_ms }) => {
            let directory = match cwd {
                Some(c) => if crate::text::is_blank(c.as_str()) {
                    None
                } else {
                    Some(c)
                },
                None => None,
            };
            let limit = if timeout_ms == 0 {
                1
            } else {
                timeout_ms
            };
            Ok(VariableStep::RunCommand { script, cwd: directory, timeout_ms: limit })
        },
    }
}

pub open spec fn environment_failure(variable: Seq<char>) -> Seq<char> {
    "environment variable "@ + variable + " is not set or is not UTF-8"@
}

/// The value of an environment variable, given what reading it gave (`None` when it is not
/// set or not UTF-8).
pub fn environment_value(name: &String, variable: &String, value: Option<String>) -> (r: Result<String, PromptRenderError>)
    ensures
        match value {
            Some(v) => r matches Ok(s) && s == v,
            None => r matches Err(e) && e@ == (RenderFault::Evaluation { name: name@, message: environment_failure(variable@) }),
        },
{
    match value {
        Some(v) => Ok(v),
        None => {
            let mut m: Vec<char> = Vec::new();
            push_str(&mut m, "environment variable ");
            push_str(&mut m, variable.as_str());
            push_str(&mut m, " is not set or is not UTF-8");
            proof {
                reveal_strlit("environment variable ");
                reveal_strlit(" is not set or is not UTF-8");
            }
            Err(PromptRenderError::Evaluation { name: name.clone(), message: string_of(&m) })
        },
    }
}

/// How running a command ended.
#[derive(Debug)]
pub enum CommandRun {
    /// The request was cancelled first.
    Cancelled,
    /// The command could not be started; the text describes the error.
    StartFailed(String),
    /// The command did not finish within its time limit.
    TimedOut,
    /// The command finished; `status` describes its exit status.
    Exited { success: bool, status: String, stderr: Vec<u8>, stdout: Vec<u8> },
}

/// What `String::from_utf8_lossy` makes of bytes.
pub uninterp spec fn lossy_text(bytes: Seq<u8>) -> Seq<char>;

/// Decodes bytes with `String::from_utf8_lossy`, which replaces each invalid sequence by
/// U+FFFD. The result is named; of valid UTF-8 it is the decoded text.
#[verifier::external_body]
fn lossy_string(bytes: &Vec<u8>) -> (r: String)
    ensures
        r@ == lossy_text(bytes@),
        vstd::utf8::valid_utf8(bytes@) ==> r@ == vstd::utf8::decode_utf8(bytes@),
{
    String::from_utf8_lossy(bytes.as_slice()).into_owned()
}

/// Decodes bytes with `String::from_utf8`, which fails exactly on bytes that are not UTF-8.
#[verifier::external_body]
fn utf8_string(bytes: Vec<u8>) -> (r: Option<String>)
    ensures
        match r {
            Some(s) => vstd::utf8::valid_utf8(bytes@) && s@ == vstd::utf8::decode_utf8(bytes@),
            None => !vstd::utf8::valid_utf8(bytes@),
        },
{
    String::from_utf8(bytes).ok()
}

/// The text without its trailing carriage returns and line feeds.
pub open spec fn trim_newlines(s: Seq<char>) -> Seq<char>
    decreases s.len(),
{
    if s.len() > 0 && (s.last() == '\r' || s.last() == '\n') {
        trim_newlines(s.drop_last())
    } else {
        s
    }
}

/// Why a command that exited unsuccessfully failed.
pub open spec fn exit_failure(status: Seq<char>, stderr: Seq<char>) -> Seq<char> {
    if trim(stderr).len() == 0 {
        "command exited with "@ + status
    } else {
        "command exited with "@ + status + ": "@ + trim(stderr)
    }
}

/// The value of a command variable, or why it has none.
pub open spec fn command_result(name: Seq<char>, timeout_ms: u64, run: CommandRun) -> Result<Seq<char>, RenderFault> {
    match run {
        CommandRun::Cancelled => Err(RenderFault::Cancelled),
        CommandRun::StartFailed(e) => Err(RenderFault::Evaluation { name, message: "could not start command: "@ + e@ }),
        CommandRun::TimedOut => Err(
            RenderFault::Evaluation {
                name,
                message: "command timed out after "@ + decimal(effective_timeout(timeout_ms) as nat) + " ms"@,
            },
        ),
        CommandRun::Exited { success, status, stderr, stdout } => if !success {
            Err(RenderFault::Evaluation { name, message: exit_failure(status@, lossy_text(stderr@)) })
        } else if stdout@.len() > MAX_COMMAND_OUTPUT_BYTES {
            Err(RenderFault::Evaluation { name, message: "command output exceeds 65536 bytes"@ })
        } else if !vstd::utf8::valid_utf8(stdout@) {
            Err(RenderFault::Evaluation { name, message: "command output is not UTF-8"@ })
        } else {
            Ok(trim_newlines(vstd::utf8::decode_utf8(stdout@)))
        },
    }
}

fn trim_trailing_newlines(s: &String) -> (r: String)
    ensures
        r@ == trim_newlines(s@),
{
    let mut v = chars_of(s.as_str());
    while v.len() > 0 && (v[v.len() - 1] == '\r' || v[v.len() - 1] == '\n')
        invariant
            trim_newlines(v@) == trim_newlines(s@),
        decreases v.len(),
    {
        let ghost before = v@;
        v.pop();
        assert(v@ =~= before.drop_last());
    }
    string_of(&v)
}

fn evaluation_error(name: &String, message: Vec<char>) -> (r: PromptRenderError)
    ensures
        r@ == (RenderFault::Evaluation { name: name@, message: message@ }),
{
    PromptRenderError::Evaluation { name: name.clone(), message: string_of(&message) }
}

/// The value a command variable gets from how the command ended: its output without
/// trailing line breaks, provided it exited successfully and printed at most 64 KiB of UTF-8.
pub fn command_value(name: &String, timeout_ms: u64, run: CommandRun) -> (r: Result<String, PromptRenderError>)
    ensures
        match command_result(name@, timeout_ms, run) {
            Ok(s) => r matches Ok(out) && out@ == s,
            Err(f) => r matches Err(e) && e@ == f,
        },
{
    proof {
        reveal_strlit("could not start command: ");
        reveal_strlit("command timed out after ");
        reveal_strlit(" ms");
        reveal_strlit("command exited with ");
        reveal_strlit(": ");
    }
    match run {
        CommandRun::Cancelled => Err(PromptRenderError::Cancelled),
        CommandRun::StartFailed(e) => {
            let mut m: Vec<char> = Vec::new();
            push_str(&mut m, "could not start command: ");
            push_str(&mut m, e.as_str());
            Err(evaluation_error(name, m))
        },
        CommandRun::TimedOut => {
            let limit = if timeout_ms == 0 {
                1
            } else {
                timeout_ms
            };
            let mut m: Vec<char> = Vec::new();
            push_str(&mut m, "command timed out after ");
            let digits = u64_decimal(limit);
            crate::text::push_all(&mut m, &digits);
            push_str(&mut m, " ms");
            Err(evaluation_error(name, m))
        },
        CommandRun::Exited { success, status, stderr, stdout } => {
            if !success {
                let text = lossy_string(&stderr);
                let detail = trim_str(text.as_str());
                let mut m: Vec<char> = Vec::new();
                push_str(&mut m, "command exited with ");
                push_str(&mut m, status.as_str());
                if !crate::text::is_blank(text.as_str()) {
                    push_str(&mut m, ": ");
                    push_str(&mut m, detail.as_str());
                }
                return Err(evaluation_error(name, m));
            }
            if stdout.len() > MAX_COMMAND_OUTPUT_BYTES {
                return Err(
                    PromptRenderError::Evaluation {
                        name: name.clone(),
                        message: String::from_str("command output exceeds 65536 bytes"),
                    },
                );
            }
            match utf8_string(stdout) {
                None => Err(
                    PromptRenderError::Evaluation {
                        name: name.clone(),
                        message: String::from_str("command output is not UTF-8"),
                    },
                ),
                Some(text) => Ok(trim_trailing_newlines(&text)),
            }
        },
    }
}

/// The first failed evaluation, in order.
pub open spec fn first_failure(evaluations: Seq<Result<(PromptEvaluation, String), PromptRenderError>>) -> Option<RenderFault>
    decreases evaluations.len(),
{
    if evaluations.len() == 0 {
        None
    } else {
        match first_failure(evaluations.drop_last()) {
            Some(f) => Some(f),
            None => match evaluations.last() {
                Err(e) => Some(e@),
                Ok(_) => None,
            },
        }
    }
}

/// The values by name, the latest evaluation of a name first.
pub open spec fn latest_bindings(evaluations: Seq<Result<(PromptEvaluation, String), PromptRenderError>>) -> Seq<(Seq<char>, Seq<char>)>
    decreases evaluations.len(),
{
    if evaluations.len() == 0 {
        Seq::empty()
    } else {
        match evaluations.last() {
            Ok(p) => seq![(p.0.name@, p.1@)] + latest_bindings(evaluations.drop_last()),
            Err(_) => latest_bindings(evaluations.drop_last()),
        }
    }
}

/// The evaluation records, the latest first.
pub open spec fn latest_records(evaluations: Seq<Result<(PromptEvaluation, String), PromptRenderError>>) -> Seq<PromptEvaluation>
    decreases evaluations.len(),
{
    if evaluations.len() == 0 {
        Seq::empty()
    } else {
        match evaluations.last() {
            Ok(p) => seq![p.0] + latest_records(evaluations.drop_last()),
            Err(_) => latest_records(evaluations.drop_last()),
        }
    }
}

/// The first record of a name.
pub open spec fn find_record(records: Seq<PromptEvaluation>, name: Seq<char>) -> Option<PromptEvaluation>
    decreases records.len(),
{
    if records.len() == 0 {
        None
    } else if records[0].name@ == name {
        Some(records[0])
    } else {
        find_record(records.drop_first(), name)
    }
}

/// The records of the names that have one, in the order of the names.
pub open spec fn records_for(names: Seq<Seq<char>>, records: Seq<PromptEvaluation>) -> Seq<PromptEvaluation>
    decreases names.len(),
{
    if names.len() == 0 {
        Seq::empty()
    } else {
        let before = records_for(names.drop_last(), records);
        match find_record(records, names.last()) {
            Some(r) => before.push(r),
            None => before,
        }
    }
}

/// Mathematical model of a [`PromptSnapshot`].
pub struct SnapshotView {
    pub template: Seq<char>,
    pub resolved: Seq<char>,
    pub variables: Seq<PromptEvaluation>,
}

pub open spec fn snapshot_view(s: PromptSnapshot) -> SnapshotView {
    SnapshotView { template: s.template@, resolved: s.resolved@, variables: s.variables@ }
}

pub open spec fn snapshot_views(snapshots: Seq<PromptSnapshot>) -> Seq<SnapshotView> {
    snapshots.map_values(|s: PromptSnapshot| snapshot_view(s))
}

/// The snapshot of a template that was not rendered.
pub open spec fn unrendered(template: Seq<char>) -> SnapshotView {
    SnapshotView { template, resolved: Seq::empty(), variables: Seq::empty() }
}

/// The snapshot of each template, or the first fault met substituting them in order.
pub open spec fn snapshots_of(
    templates: Seq<String>,
    references: Seq<Vec<String>>,
    values: Seq<(Seq<char>, Seq<char>)>,
    records: Seq<PromptEvaluation>,
) -> Result<Seq<SnapshotView>, RenderFault>
    decreases templates.len(),
{
    if templates.len() == 0 || references.len() != templates.len() {
        Ok(Seq::empty())
    } else {
        match snapshots_of(templates.drop_last(), references.drop_last(), values, records) {
            Err(f) => Err(f),
            Ok(before) => match render_from(templates.last()@, 0, values) {
                Err(f) => Err(f),
                Ok(resolved) => Ok(
                    before.push(
                        SnapshotView {
                            template: templates.last()@,
                            resolved,
                            variables: records_for(views(references.last()@), records),
                        },
                    ),
                ),
            },
        }
    }
}

fn copy_error(e: &PromptRenderError) -> (r: PromptRenderError)
    ensures
        r@ == e@,
{
    match e {
        PromptRenderError::Cancelled => PromptRenderError::Cancelled,
        PromptRenderError::InvalidTemplate(m) => PromptRenderError::InvalidTemplate(m.clone()),
        PromptRenderError::Evaluation { name, message } => PromptRenderError::Evaluation {
            name: name.clone(),
            message: message.clone(),
        },
    }
}

proof fn lemma_failure_prefix(evaluations: Seq<Result<(PromptEvaluation, String), PromptRenderError>>, k: int)
    requires
        0 <= k <= evaluations.len(),
        first_failure(evaluations.take(k)) is Some,
    ensures
        first_failure(evaluations) == first_failure(evaluations.take(k)),
    decreases evaluations.len() - k,
{
    if k < evaluations.len() {
        assert(evaluations.take(k + 1).drop_last() =~= evaluations.take(k));
        lemma_failure_prefix(evaluations, k + 1);
    } else {
        assert(evaluations.take(k) =~= evaluations);
    }
}

proof fn lemma_snapshots_prefix_fault(
    templates: Seq<String>,
    references: Seq<Vec<String>>,
    values: Seq<(Seq<char>, Seq<char>)>,
    records: Seq<PromptEvaluation>,
    k: int,
)
    requires
        0 <= k <= templates.len(),
        templates.len() == references.len(),
        snapshots_of(templates.take(k), references.take(k), values, records) is Err,
    ensures
        snapshots_of(templates, references, values, records) == snapshots_of(templates.take(k), references.take(k), values, records),
    decreases templates.len() - k,
{
    if k < templates.len() {
        assert(templates.take(k + 1).drop_last() =~= templates.take(k));
        assert(references.take(k + 1).drop_last() =~= references.take(k));
        lemma_snapshots_prefix_fault(templates, references, values, records, k + 1);
    } else {
        assert(templates.take(k) =~= templates);
        assert(references.take(k) =~= references);
    }
}

fn find_record_exec(records: &Vec<PromptEvaluation>, name: &String) -> (r: Option<PromptEvaluation>)
    ensures
        r == find_record(records@, name@),
{
    let key = chars_of(name.as_str());
    let mut i: usize = 0;
    assert(records@.skip(0) =~= records@);
    while i < records.len()
        invariant
            i <= records.len(),
            key@ == name@,
            find_record(records@, name@) == find_record(records@.skip(i as int), name@),
        decreases records.len() - i,
    {
        assert(records@.skip(i as int).drop_first() =~= records@.skip(i as int + 1));
        assert(records@.skip(i as int)[0] == records@[i as int]);
        let candidate = chars_of(records[i].name.as_str());
        if crate::text::chars_equal(&candidate, &key) {
            return Some(records[i].clone());
        }
        i += 1;
    }
    None
}

/// Renders the templates once every referenced variable has been evaluated. `evaluations`
/// holds the outcome of each evaluation; the first failure, in order, is the result.
/// Otherwise each template is substituted with the values (the latest evaluation of a name
/// wins), and its snapshot lists the evaluations of the names it refers to.
pub fn assemble_snapshots(
    templates: Vec<String>,
    references: Vec<Vec<String>>,
    evaluations: Vec<Result<(PromptEvaluation, String), PromptRenderError>>,
) -> (r: Result<Vec<PromptSnapshot>, PromptRenderError>)
    requires
        templates.len() == references.len(),
    ensures
        match first_failure(evaluations@) {
            Some(f) => r matches Err(e) && e@ == f,
            None => match snapshots_of(templates@, references@, latest_bindings(evaluations@), latest_records(evaluations@)) {
                Err(f) => r matches Err(e) && e@ == f,
                Ok(s) => r matches Ok(v) && snapshot_views(v@) == s,
            },
        },
{
    let ghost evs = evaluations@;
    let mut values: Vec<(String, String)> = Vec::new();
    let mut records: Vec<PromptEvaluation> = Vec::new();
    let mut i: usize = 0;
    assert(evs.take(0) =~= Seq::<Result<(PromptEvaluation, String), PromptRenderError>>::empty());
    while i < evaluations.len()
        invariant
            i <= evaluations.len(),
            evs == evaluations@,
            first_failure(evs.take(i as int)) is None,
            value_views(values@) == latest_bindings(evs.take(i as int)),
            records@ == latest_records(evs.take(i as int)),
        decreases evaluations.len() - i,
    {
        assert(evs.take(i as int + 1).drop_last() =~= evs.take(i as int));
        assert(evs.take(i as int + 1).last() == evs[i as int]);
        match &evaluations[i] {
            Err(e) => {
                proof {
                    lemma_failure_prefix(evs, i as int + 1);
                }
                return Err(copy_error(e));
            },
            Ok(pair) => {
                let ghost vals_before = value_views(values@);
                let ghost recs_before = records@;
                values.insert(0, (pair.0.name.clone(), pair.1.clone()));
                records.insert(0, pair.0.clone());
                assert(value_views(values@) =~= seq![(pair.0.name@, pair.1@)] + vals_before);
                assert(records@ =~= seq![pair.0] + recs_before);
            },
        }
        i += 1;
    }
    assert(evs.take(evaluations.len() as int) =~= evs);
    let ghost vals = value_views(values@);
    let mut snapshots: Vec<PromptSnapshot> = Vec::new();
    let mut k: usize = 0;
    assert(templates@.take(0) =~= Seq::<String>::empty());
    while k < templates.len()
        invariant
            k <= templates.len(),
            templates.len() == references.len(),
            vals == value_views(values@),
            vals == latest_bindings(evs),
            records@ == latest_records(evs),
            first_failure(evs) is None,
            evs == evaluations@,
            snapshots_of(templates@.take(k as int), references@.take(k as int), vals, records@) matches Ok(s)
                && snapshot_views(snapshots@) == s,
        decreases templates.len() - k,
    {
        let ghost before = snapshot_views(snapshots@);
        assert(templates@.take(k as int + 1).drop_last() =~= templates@.take(k as int));
        assert(references@.take(k as int + 1).drop_last() =~= references@.take(k as int));
        assert(templates@.take(k as int + 1).last() == templates@[k as int]);
        assert(references@.take(k as int + 1).last() == references@[k as int]);
        let rendered = substitute(templates[k].as_str(), &values);
        match rendered {
            Err(e) => {
                proof {
                    let t1 = templates@.take(k as int + 1);
                    let r1 = references@.take(k as int + 1);
                    assert(t1.len() == r1.len() && t1.len() > 0);
                    assert(render_from(t1.last()@, 0, vals) == Err::<Seq<char>, RenderFault>(e@));
                    assert(snapshots_of(t1, r1, vals, records@) == Err::<Seq<SnapshotView>, RenderFault>(e@));
                    lemma_snapshots_prefix_fault(templates@, references@, vals, records@, k as int + 1);
                }
                return Err(e);
            },
            Ok(resolved) => {
                let names = &references[k];
                let mut variables: Vec<PromptEvaluation> = Vec::new();
                let mut j: usize = 0;
                assert(views(names@).take(0) =~= Seq::<Seq<char>>::empty());
                while j < names.len()
                    invariant
                        j <= names.len(),
                        variables@ == records_for(views(names@).take(j as int), records@),
                    decreases names.len() - j,
                {
                    assert(views(names@).take(j as int + 1).drop_last() =~= views(names@).take(j as int));
                    assert(views(names@).take(j as int + 1).last() == names@[j as int]@);
                    let found = find_record_exec(&records, &names[j]);
                    match found {
                        Some(record) => {
                            variables.push(record);
                        },
                        None => {},
                    }
                    j += 1;
                }
                assert(views(names@).take(names.len() as int) =~= views(names@));
                let snapshot = PromptSnapshot { template: templates[k].clone(), resolved, variables };
                snapshots.push(snapshot);
                assert(snapshot_views(snapshots@) =~= before.push(
                    SnapshotView {
                        template: templates@[k as int]@,
                        resolved: snapshot.resolved@,
                        variables: snapshot.variables@,
                    },
                ));
            },
        }
        k += 1;
    }
    assert(templates@.take(templates.len() as int) =~= templates@);
    assert(references@.take(references.len() as int) =~= references@);
    Ok(snapshots)
}

} // verus!
