use rush::Statement;
use rush::ShellError;
use rush::builtin::exit_message;
use rush::builtin::fe;
use rush::builtin::te;
use rush::eval::Action;
use rush::eval::ActionOutcome;
use rush::eval::Evaluator;
use rush::eval::Step;

fn simple(name: &str, args: &[&str]) -> Statement {
    Statement::Simple(name.to_string(), args.iter().map(|a| a.to_string()).collect())
}

/// Steps the evaluator to its next observable event, panicking if it asks
/// for an action: for runs that must never touch the outside world.
fn run_without_actions(ev: &mut Evaluator) -> Step {
    loop {
        match ev.step() {
            Step::Continue => {}
            Step::StatementDone => {}
            Step::Perform(a) => panic!("unexpected action request: {:?}", a),
            other => return other,
        }
    }
}

/// Steps the evaluator until it asks for an action, panicking if it stops
/// some other way first.
fn run_to_action(ev: &mut Evaluator) -> Action {
    loop {
        match ev.step() {
            Step::Continue => {}
            Step::StatementDone => {}
            Step::Perform(a) => return a,
            other => panic!("expected an action request, got {:?}", other),
        }
    }
}

#[test]
fn test_exit_message() {
    assert_eq!("Goodbye!", exit_message());
}

#[test]
fn true_builtin_succeeds() {
    assert!(te().is_ok());
}

#[test]
fn false_builtin_fails() {
    assert!(matches!(fe(), Err(ShellError::False)));
}

#[test]
fn and_with_false_left_short_circuits() {
    // The right side is an external command with an observable side effect:
    // running it would surface as a `Perform` request, which must not occur.
    let tree = vec![Statement::And(
        Box::new(simple("false", &[])),
        Box::new(simple("touch", &["must-not-happen"])),
    )];
    let mut ev = Evaluator::new(tree, Ok(()));
    assert!(matches!(run_without_actions(&mut ev), Step::Finished));
    assert!(matches!(ev.status(), Err(ShellError::False)));
}

#[test]
fn or_with_true_left_short_circuits() {
    let tree = vec![Statement::Or(
        Box::new(simple("true", &[])),
        Box::new(simple("touch", &["must-not-happen"])),
    )];
    let mut ev = Evaluator::new(tree, Err(ShellError::False));
    assert!(matches!(run_without_actions(&mut ev), Step::Finished));
    assert!(ev.status().is_ok());
}

#[test]
fn sequence_status_is_the_last_items() {
    let tree = vec![simple("false", &[]), simple("true", &[])];
    let mut ev = Evaluator::new(tree, Ok(()));
    assert!(matches!(run_without_actions(&mut ev), Step::Finished));
    assert!(ev.status().is_ok());
}

#[test]
fn sequence_runs_every_item_despite_failures() {
    let tree = vec![simple("true", &[]), simple("false", &[])];
    let mut ev = Evaluator::new(tree, Ok(()));
    assert!(matches!(run_without_actions(&mut ev), Step::Finished));
    assert!(matches!(ev.status(), Err(ShellError::False)));
}

#[test]
fn and_with_true_left_runs_the_right_side() {
    let tree = vec![Statement::And(
        Box::new(simple("true", &[])),
        Box::new(simple("false", &[])),
    )];
    let mut ev = Evaluator::new(tree, Ok(()));
    assert!(matches!(run_without_actions(&mut ev), Step::Finished));
    assert!(matches!(ev.status(), Err(ShellError::False)));
}

#[test]
fn or_with_false_left_runs_the_right_side() {
    let tree = vec![Statement::Or(
        Box::new(simple("false", &[])),
        Box::new(simple("true", &[])),
    )];
    let mut ev = Evaluator::new(tree, Ok(()));
    assert!(matches!(run_without_actions(&mut ev), Step::Finished));
    assert!(ev.status().is_ok());
}

#[test]
fn cd_without_arguments_goes_home_and_succeeds() {
    let mut ev = Evaluator::new(vec![simple("cd", &[])], Ok(()));
    assert!(matches!(run_to_action(&mut ev), Action::ChdirHome));
    ev.resume(ActionOutcome::ChdirDone(true));
    assert!(matches!(run_without_actions(&mut ev), Step::Finished));
    assert!(ev.status().is_ok());
}

#[test]
fn cd_with_two_arguments_fails_without_changing_directory() {
    let mut ev = Evaluator::new(vec![simple("cd", &["a", "b"])], Ok(()));
    // No directory-change action may be requested.
    assert!(matches!(run_without_actions(&mut ev), Step::Finished));
    match ev.status() {
        Err(ShellError::Cd(msg)) => assert_eq!(msg, "cd: too many arguments"),
        other => panic!("expected a cd failure, got {:?}", other),
    }
}

#[test]
fn cd_to_a_missing_path_fails_without_changing_directory() {
    let mut ev = Evaluator::new(vec![simple("cd", &["nonexistent-path-xyz"])], Ok(()));
    match run_to_action(&mut ev) {
        Action::ChdirPath(p) => assert_eq!(p, "nonexistent-path-xyz"),
        other => panic!("expected a path change request, got {:?}", other),
    }
    ev.resume(ActionOutcome::ChdirDone(false));
    assert!(matches!(run_without_actions(&mut ev), Step::Finished));
    match ev.status() {
        Err(ShellError::Cd(msg)) => {
            assert_eq!(msg, "cd: no such file or directory: nonexistent-path-xyz")
        }
        other => panic!("expected a cd failure, got {:?}", other),
    }
}

#[test]
fn pwd_requests_a_printout_and_succeeds() {
    let mut ev = Evaluator::new(vec![simple("pwd", &[])], Err(ShellError::False));
    assert!(matches!(run_to_action(&mut ev), Action::ShowDir));
    ev.resume(ActionOutcome::DirShown);
    assert!(matches!(run_without_actions(&mut ev), Step::Finished));
    assert!(ev.status().is_ok());
}

#[test]
fn exit_requests_loop_termination() {
    let mut ev = Evaluator::new(vec![simple("exit", &[])], Ok(()));
    assert!(matches!(run_without_actions(&mut ev), Step::ExitRequested));
}

#[test]
fn unknown_name_runs_as_external_command() {
    let mut ev = Evaluator::new(vec![simple("somecmd", &["a", "b"])], Ok(()));
    match run_to_action(&mut ev) {
        Action::RunExternal(name, args) => {
            assert_eq!(name, "somecmd");
            assert_eq!(args, vec!["a".to_string(), "b".to_string()]);
        }
        other => panic!("expected an external run request, got {:?}", other),
    }
    ev.resume(ActionOutcome::Exited(true));
    assert!(matches!(run_without_actions(&mut ev), Step::Finished));
    assert!(ev.status().is_ok());
}

#[test]
fn external_nonzero_exit_is_a_failure() {
    let mut ev = Evaluator::new(vec![simple("somecmd", &[])], Ok(()));
    let _ = run_to_action(&mut ev);
    ev.resume(ActionOutcome::Exited(false));
    assert!(matches!(run_without_actions(&mut ev), Step::Finished));
    assert!(matches!(ev.status(), Err(ShellError::NonZeroExit)));
}

#[test]
fn external_spawn_failure_is_a_failure_not_fatal() {
    let mut ev = Evaluator::new(vec![simple("no-such-cmd", &[])], Ok(()));
    let _ = run_to_action(&mut ev);
    ev.resume(ActionOutcome::SpawnFailed("no such file or directory".to_string()));
    assert!(matches!(run_without_actions(&mut ev), Step::Finished));
    match ev.status() {
        Err(ShellError::IOError(msg)) => assert_eq!(msg, "no such file or directory"),
        other => panic!("expected a spawn failure, got {:?}", other),
    }
}

#[test]
fn empty_line_keeps_the_previous_status() {
    let mut ev = Evaluator::new(vec![], Err(ShellError::False));
    assert!(matches!(run_without_actions(&mut ev), Step::Finished));
    assert!(matches!(ev.into_status(), Err(ShellError::False)));
}

#[test]
fn each_finished_statement_is_reported() {
    let tree = vec![simple("true", &[]), simple("false", &[])];
    let mut ev = Evaluator::new(tree, Ok(()));
    let mut reports = 0;
    loop {
        match ev.step() {
            Step::Continue => {}
            Step::StatementDone => reports += 1,
            Step::Finished => break,
            other => panic!("unexpected event {:?}", other),
        }
    }
    assert_eq!(reports, 2);
}

#[test]
fn error_messages_describe_each_failure() {
    assert_eq!(ShellError::False.message(), "false");
    assert_eq!(
        ShellError::NonZeroExit.message(),
        "command exited with a non-zero status"
    );
    assert_eq!(ShellError::Cd("cd: oops".to_string()).message(), "cd: oops");
    assert_eq!(ShellError::IOError("why".to_string()).message(), "why");
    assert_eq!(ShellError::Parse("bad".to_string()).message(), "bad");
}
