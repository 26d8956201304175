use onechat::domain::{PromptEvaluation, PromptSnapshot, PromptVariableSource};
use onechat::prompt::{PromptContext, PromptRenderError};
use onechat::rendering::{
    assemble_snapshots, builtin_values, collect_references, command_value, environment_value,
    plan_variable, CommandRun, VariableStep,
};

/// Renders templates the way the application does, with command runs and environment reads
/// answered by `run` and `env`.
fn render(
    templates: Vec<String>,
    variables: Vec<(String, PromptVariableSource)>,
    run: &dyn Fn(&str) -> CommandRun,
    env: &dyn Fn(&str) -> Option<String>,
) -> Result<Vec<PromptSnapshot>, PromptRenderError> {
    let references = collect_references(&templates)?;
    let builtins = builtin_values(
        PromptContext::default(),
        "2024-05-06".into(),
        "2024-05-06T07:08:09+00:00".into(),
        "linux".into(),
    );
    let mut evaluations = Vec::new();
    for name in &references.names {
        let source = variables.iter().find(|(n, _)| n == name).map(|(_, s)| s.clone());
        let builtin = builtins.iter().find(|(n, _)| n == name).map(|(_, v)| v.clone());
        let record = |source: &str| PromptEvaluation { name: name.clone(), source: source.into(), duration_ms: 0 };
        let outcome = match plan_variable(name, source, builtin) {
            Err(error) => Err(error),
            Ok(VariableStep::Ready { source, value }) => Ok((record(&source), value)),
            Ok(VariableStep::ReadEnvironment { variable }) => {
                environment_value(name, &variable, env(&variable)).map(|value| (record("environment"), value))
            }
            Ok(VariableStep::RunCommand { script, timeout_ms, .. }) => {
                command_value(name, timeout_ms, run(&script)).map(|value| (record("command"), value))
            }
        };
        evaluations.push(outcome);
    }
    assemble_snapshots(templates, references.per_template, evaluations)
}

fn no_command(_: &str) -> CommandRun {
    panic!("no command expected")
}

fn no_env(_: &str) -> Option<String> {
    None
}

fn exited(stdout: &[u8]) -> CommandRun {
    CommandRun::Exited { success: true, status: "exit status: 0".into(), stderr: Vec::new(), stdout: stdout.to_vec() }
}

#[test]
fn renders_text_builtin_and_escaped_placeholders_once() {
    let variables = vec![
        ("name".to_string(), PromptVariableSource::Text { value: "Orion".into() }),
        ("nested".to_string(), PromptVariableSource::Text { value: "{{name}}".into() }),
    ];
    let snapshots = render(
        vec!["Hello {{name}} on {{onechat.os}}; \\{{name}}; {{nested}}".into()],
        variables,
        &no_command,
        &no_env,
    )
    .unwrap();
    let snapshot = &snapshots[0];

    assert!(snapshot.resolved.starts_with("Hello Orion on "));
    assert!(snapshot.resolved.ends_with("; {{name}}; {{name}}"));
    assert_eq!(snapshot.variables.len(), 3);
}

#[test]
fn shared_variables_are_evaluated_once_across_prompt_templates() {
    let runs = std::cell::Cell::new(0);
    let run = |_: &str| {
        runs.set(runs.get() + 1);
        exited(b"Orion")
    };
    let snapshots = render(
        vec!["System for {{owner}}".into(), "Welcome, {{owner}}".into()],
        vec![(
            "owner".to_string(),
            PromptVariableSource::Command { script: "printf Orion".into(), cwd: None, timeout_ms: 1_000 },
        )],
        &run,
        &no_env,
    )
    .unwrap();

    assert_eq!(snapshots[0].resolved, "System for Orion");
    assert_eq!(snapshots[1].resolved, "Welcome, Orion");
    assert_eq!(runs.get(), 1);
    assert_eq!(snapshots[0].variables.len(), snapshots[1].variables.len());
    assert_eq!(snapshots[0].variables[0].name, snapshots[1].variables[0].name);
}

#[test]
fn runs_only_referenced_commands_and_trims_trailing_newlines() {
    let variables = vec![
        (
            "used".to_string(),
            PromptVariableSource::Command { script: "printf 'hello\\n\\n'".into(), cwd: None, timeout_ms: 1_000 },
        ),
        ("unused".to_string(), PromptVariableSource::Command { script: "exit 1".into(), cwd: None, timeout_ms: 1_000 }),
    ];
    let run = |script: &str| {
        assert_eq!(script, "printf 'hello\\n\\n'");
        exited(b"hello\n\n")
    };
    let snapshots = render(vec!["{{used}}".into()], variables, &run, &no_env).unwrap();

    assert_eq!(snapshots[0].resolved, "hello");
    assert_eq!(snapshots[0].variables[0].name, "used");
}

#[test]
fn rejects_unknown_and_invalid_placeholders() {
    let unknown = render(vec!["{{missing}}".into()], Vec::new(), &no_command, &no_env).unwrap_err();
    assert!(unknown.message().contains("not defined"));

    let invalid = render(vec!["{{not valid}}".into()], Vec::new(), &no_command, &no_env).unwrap_err();
    assert!(invalid.message().contains("Invalid prompt variable"));
}

#[test]
fn builtins_win_over_configured_variables() {
    let variables = vec![("onechat.os".to_string(), PromptVariableSource::Text { value: "other".into() })];
    let snapshots = render(vec!["{{onechat.os}} {{onechat.date}}".into()], variables, &no_command, &no_env).unwrap();
    assert_eq!(snapshots[0].resolved, "linux 2024-05-06");
    assert_eq!(snapshots[0].variables[0].source, "built_in");
}

#[test]
fn environment_variables_are_read_and_missing_ones_fail() {
    let variables = vec![("home".to_string(), PromptVariableSource::Environment { variable: "HOME".into() })];
    let env = |name: &str| if name == "HOME" { Some("/home/orion".to_string()) } else { None };
    let snapshots = render(vec!["{{home}}".into()], variables.clone(), &no_command, &env).unwrap();
    assert_eq!(snapshots[0].resolved, "/home/orion");
    assert_eq!(snapshots[0].variables[0].source, "environment");

    let error = render(vec!["{{home}}".into()], variables, &no_command, &no_env).unwrap_err();
    assert_eq!(
        error,
        PromptRenderError::Evaluation {
            name: "home".into(),
            message: "environment variable HOME is not set or is not UTF-8".into(),
        }
    );
}

#[test]
fn command_failures_are_described() {
    let name = "tool".to_string();
    let failed = CommandRun::Exited {
        success: false,
        status: "exit status: 2".into(),
        stderr: b"  boom \n".to_vec(),
        stdout: Vec::new(),
    };
    assert_eq!(
        command_value(&name, 10, failed).unwrap_err().message(),
        "Could not evaluate prompt variable tool: command exited with exit status: 2: boom"
    );
    let quiet = CommandRun::Exited { success: false, status: "exit status: 1".into(), stderr: b" \n".to_vec(), stdout: Vec::new() };
    assert_eq!(
        command_value(&name, 10, quiet).unwrap_err(),
        PromptRenderError::Evaluation { name: name.clone(), message: "command exited with exit status: 1".into() }
    );
    assert_eq!(
        command_value(&name, 0, CommandRun::TimedOut).unwrap_err(),
        PromptRenderError::Evaluation { name: name.clone(), message: "command timed out after 1 ms".into() }
    );
    assert_eq!(
        command_value(&name, 5, CommandRun::StartFailed("not found".into())).unwrap_err(),
        PromptRenderError::Evaluation { name: name.clone(), message: "could not start command: not found".into() }
    );
    assert_eq!(command_value(&name, 5, CommandRun::Cancelled).unwrap_err(), PromptRenderError::Cancelled);
    assert_eq!(
        command_value(&name, 5, exited(&vec![b'x'; 65_537])).unwrap_err(),
        PromptRenderError::Evaluation { name: name.clone(), message: "command output exceeds 65536 bytes".into() }
    );
    assert_eq!(command_value(&name, 5, exited(&vec![b'x'; 65_536])).unwrap().len(), 65_536);
    assert_eq!(
        command_value(&name, 5, exited(b"\xff\xfe")).unwrap_err(),
        PromptRenderError::Evaluation { name: name.clone(), message: "command output is not UTF-8".into() }
    );
    assert_eq!(command_value(&name, 5, exited(b"a\r\nb\r\n\n")).unwrap(), "a\r\nb");
}

#[test]
fn blank_working_directories_and_zero_timeouts_are_normalized() {
    let step = plan_variable(
        &"x".to_string(),
        Some(PromptVariableSource::Command { script: "true".into(), cwd: Some("   ".into()), timeout_ms: 0 }),
        None,
    )
    .unwrap();
    match step {
        VariableStep::RunCommand { cwd, timeout_ms, .. } => {
            assert_eq!(cwd, None);
            assert_eq!(timeout_ms, 1);
        }
        other => panic!("unexpected step {other:?}"),
    }
    let kept = plan_variable(
        &"x".to_string(),
        Some(PromptVariableSource::Command { script: "true".into(), cwd: Some("/tmp".into()), timeout_ms: 7 }),
        None,
    )
    .unwrap();
    match kept {
        VariableStep::RunCommand { cwd, timeout_ms, .. } => {
            assert_eq!(cwd, Some("/tmp".to_string()));
            assert_eq!(timeout_ms, 7);
        }
        other => panic!("unexpected step {other:?}"),
    }
}

#[test]
fn references_are_collected_per_template_and_together() {
    let references = collect_references(&vec!["{{b}} {{a}} {{b}}".into(), "{{c}}".into()]).unwrap();
    assert_eq!(references.per_template, vec![vec!["a".to_string(), "b".to_string()], vec!["c".to_string()]]);
    assert_eq!(references.names, vec!["a".to_string(), "b".to_string(), "c".to_string()]);
    assert!(collect_references(&vec!["ok".into(), "{{broken".into()]).is_err());
}
