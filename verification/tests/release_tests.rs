use kraken::release::{
    bump_to_prerelease, check_uv_version, git_add_commit_tag_push, interpret_command_outcome,
    update_version, ExitOutcome, TransactionAction, TransactionEvent, TransactionStep,
};
use kraken::text::{dec_string, int_string, token_of, trim_of};

fn args_of(step: &TransactionStep) -> Vec<&str> {
    step.args.iter().map(|s| s.as_str()).collect()
}

/// Drives the transaction with a fake executor that answers each executed
/// step from `outcomes` in order and each version query with `query`, and
/// logs every command it was asked to run.
fn drive(
    mut outcomes: Vec<Result<(), String>>,
    query: Result<String, String>,
    message: &str,
    tag: bool,
) -> (Vec<String>, Result<(), String>) {
    let mut t = git_add_commit_tag_push(message.to_string(), tag);
    let mut log: Vec<String> = Vec::new();
    outcomes.reverse();
    loop {
        match t.next_action() {
            TransactionAction::Execute(step) => {
                log.push(format!("{} {}", step.program, args_of(&step).join(" ")));
                let outcome = outcomes.pop().expect("ran out of scripted outcomes");
                t.apply_event(TransactionEvent::StepDone(outcome));
            }
            TransactionAction::Query(step) => {
                log.push(format!("{} {}", step.program, args_of(&step).join(" ")));
                t.apply_event(TransactionEvent::VersionDone(query.clone()));
            }
            TransactionAction::Finished => return (log, Ok(())),
            TransactionAction::Aborted(msg) => return (log, Err(msg)),
        }
    }
}

#[test]
fn transaction_without_tag_runs_the_whole_sequence() {
    let (log, outcome) = drive(
        vec![Ok(()), Ok(()), Ok(()), Ok(()), Ok(())],
        Ok(String::new()),
        "Release 1.2.0",
        false,
    );
    assert_eq!(outcome, Ok(()));
    assert_eq!(
        log,
        vec![
            "git add pyproject.toml",
            "git add CHANGELOG.md",
            "git add uv.lock",
            "git commit -m Release 1.2.0",
            "git push",
        ]
    );
}

#[test]
fn transaction_with_tag_queries_and_tags() {
    let (log, outcome) = drive(
        vec![Ok(()), Ok(()), Ok(()), Ok(()), Ok(()), Ok(()), Ok(())],
        Ok("1.2.0\n".to_string()),
        "Release 1.2.0",
        true,
    );
    assert_eq!(outcome, Ok(()));
    assert_eq!(
        log,
        vec![
            "git add pyproject.toml",
            "git add CHANGELOG.md",
            "git add uv.lock",
            "git commit -m Release 1.2.0",
            "git push",
            "uv version --short",
            "git tag -a 1.2.0 -m Release 1.2.0",
            "git push --tags",
        ]
    );
}

#[test]
fn second_stage_failure_short_circuits() {
    let (log, outcome) = drive(
        vec![
            Ok(()),
            Err("Failed to add file to git: command returned code 1".to_string()),
        ],
        Ok(String::new()),
        "Release 1.2.0",
        true,
    );
    assert_eq!(
        outcome,
        Err("Failed to add file to git: command returned code 1".to_string())
    );
    assert_eq!(log, vec!["git add pyproject.toml", "git add CHANGELOG.md"]);
}

#[test]
fn aborted_transaction_ignores_later_events() {
    let mut t = git_add_commit_tag_push("Release 1.0.0".to_string(), false);
    t.apply_event(TransactionEvent::StepDone(Err("boom".to_string())));
    t.apply_event(TransactionEvent::StepDone(Ok(())));
    t.apply_event(TransactionEvent::VersionDone(Ok("2.0.0".to_string())));
    match t.next_action() {
        TransactionAction::Aborted(msg) => assert_eq!(msg, "boom"),
        _ => panic!("transaction must stay aborted"),
    }
    assert!(t.is_terminal());
}

#[test]
fn query_failure_aborts() {
    let (log, outcome) = drive(
        vec![Ok(()), Ok(()), Ok(()), Ok(()), Ok(())],
        Err("Failed to get package version: spawn failed".to_string()),
        "Release 1.2.0",
        true,
    );
    assert_eq!(
        outcome,
        Err("Failed to get package version: spawn failed".to_string())
    );
    assert_eq!(log.last().map(|s| s.as_str()), Some("uv version --short"));
    assert_eq!(log.len(), 6);
}

#[test]
fn update_version_step_shape() {
    let s = update_version("1.4.0");
    assert_eq!(s.program, "uv");
    assert_eq!(args_of(&s), vec!["version", "1.4.0"]);
    assert_eq!(s.failure_message, "Failed to update uv version");
}

#[test]
fn bump_step_shape() {
    let s = bump_to_prerelease();
    assert_eq!(s.program, "uv");
    assert_eq!(args_of(&s), vec!["version", "--bump", "patch", "--bump", "alpha"]);
    assert_eq!(s.failure_message, "Failed to bump version to pre-release");
}

#[test]
fn interpret_success() {
    assert_eq!(
        interpret_command_outcome("Failed to push changes to git", &ExitOutcome::Success),
        Ok(())
    );
}

#[test]
fn interpret_exit_code() {
    assert_eq!(
        interpret_command_outcome("Failed to add file to git", &ExitOutcome::Code(128)),
        Err("Failed to add file to git: command returned code 128".to_string())
    );
}

#[test]
fn interpret_spawn_failure() {
    assert_eq!(
        interpret_command_outcome(
            "Failed to commit changes to git",
            &ExitOutcome::SpawnFailed("No such file or directory".to_string())
        ),
        Err("Failed to commit changes to git: No such file or directory".to_string())
    );
}

#[test]
fn uv_version_at_floor_passes() {
    assert_eq!(check_uv_version("0.7.20"), Ok("0.7.20".to_string()));
}

#[test]
fn uv_version_above_floor_passes_and_is_trimmed() {
    assert_eq!(check_uv_version(" 0.8.1\n"), Ok("0.8.1".to_string()));
}

#[test]
fn uv_version_first_token_only() {
    assert_eq!(check_uv_version("0.7.21 (build 2025)"), Ok("0.7.21".to_string()));
}

#[test]
fn uv_version_below_floor_fails() {
    assert_eq!(
        check_uv_version("0.7.19"),
        Err("uv version 0.7.19 is less than the minimum required version 0.7.20".to_string())
    );
}

#[test]
fn decimal_rendering() {
    assert_eq!(dec_string(0), "0");
    assert_eq!(dec_string(907), "907");
    assert_eq!(int_string(-42), "-42");
    assert_eq!(int_string(7), "7");
}

#[test]
fn trimming_and_tokens() {
    assert_eq!(trim_of("  a b \n"), "a b");
    assert_eq!(trim_of("\t\r\n "), "");
    assert_eq!(trim_of("x"), "x");
    assert_eq!(token_of("1.2.3 extra"), "1.2.3");
    assert_eq!(token_of("plain"), "plain");
    assert_eq!(token_of(""), "");
}
