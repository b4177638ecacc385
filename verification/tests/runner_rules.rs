use ff::executor::runner::{
    split_command, Action, ExecutionError, Invocation, Outcome, Runner, Stage,
};

fn exited(success: bool, status: &str) -> Outcome {
    Outcome::Exited { success, status: status.to_string() }
}

fn run(action: Action) -> (Stage, Invocation) {
    match action {
        Action::Run(stage, invocation) => (stage, invocation),
        other => panic!("expected a program to run, got {:?}", other),
    }
}

fn failure(action: Action) -> ExecutionError {
    match action {
        Action::Finish(Err(error)) => error,
        other => panic!("expected a failure, got {:?}", other),
    }
}

#[test]
fn execution_begins_with_the_probe() {
    let (stage, invocation) = run(Runner::new().start());
    assert_eq!(stage, Stage::Probe);
    assert_eq!(invocation.program, "ffmpeg");
    assert_eq!(invocation.arguments, vec!["-version".to_string()]);
}

#[test]
fn probe_that_cannot_start_ends_the_execution() {
    let action = Runner::new().proceed(
        Stage::Probe,
        "ffmpeg -i a b",
        Outcome::NotStarted("No such file or directory".to_string()),
    );
    match failure(action) {
        ExecutionError::CommandFailed(text) => assert_eq!(text, "ffmpeg is not available in PATH"),
        other => panic!("expected CommandFailed, got {:?}", other),
    }
}

#[test]
fn probe_that_ran_leads_to_the_command() {
    for outcome in [exited(true, "exit status: 0"), exited(false, "exit status: 1")] {
        let action = Runner::new().proceed(Stage::Probe, "ffmpeg -i \"a.mp4\"  \"b.avi\"\n", outcome);
        let (stage, invocation) = run(action);
        assert_eq!(stage, Stage::Command);
        assert_eq!(invocation.program, "ffmpeg");
        assert_eq!(
            invocation.arguments,
            vec!["-i".to_string(), "\"a.mp4\"".to_string(), "\"b.avi\"".to_string()]
        );
    }
}

#[test]
fn command_of_one_part_has_no_arguments() {
    let (stage, invocation) = run(Runner::new().proceed(Stage::Probe, " ls ", exited(true, "")));
    assert_eq!(stage, Stage::Command);
    assert_eq!(invocation.program, "ls");
    assert_eq!(invocation.arguments, Vec::<String>::new());
}

#[test]
fn empty_command_is_invalid() {
    for command in ["", "   ", "\t\n", "\u{a0}\u{2003}"] {
        match failure(Runner::new().proceed(Stage::Probe, command, exited(true, "exit status: 0"))) {
            ExecutionError::InvalidCommand(text) => assert_eq!(text, "Command is empty"),
            other => panic!("expected InvalidCommand, got {:?}", other),
        }
    }
}

#[test]
fn command_that_cannot_start_fails() {
    let action = Runner::new().proceed(
        Stage::Command,
        "ffmpeg -i a b",
        Outcome::NotStarted("permission denied".to_string()),
    );
    match failure(action) {
        ExecutionError::CommandFailed(text) => {
            assert_eq!(text, "Failed to execute command: permission denied")
        }
        other => panic!("expected CommandFailed, got {:?}", other),
    }
}

#[test]
fn command_that_ends_without_success_fails() {
    let action = Runner::new().proceed(Stage::Command, "ffmpeg -i a b", exited(false, "exit status: 1"));
    match failure(action) {
        ExecutionError::CommandFailed(text) => {
            assert_eq!(text, "Command exited with status: exit status: 1")
        }
        other => panic!("expected CommandFailed, got {:?}", other),
    }
}

#[test]
fn command_that_ends_with_success_succeeds() {
    let action = Runner::new().proceed(Stage::Command, "", exited(true, "exit status: 0"));
    assert!(matches!(action, Action::Finish(Ok(()))));
}

#[test]
fn command_is_split_at_whitespace() {
    assert_eq!(split_command(""), Vec::<String>::new());
    assert_eq!(split_command(" \t "), Vec::<String>::new());
    assert_eq!(split_command("a"), vec!["a"]);
    assert_eq!(split_command("  a  bc\td\n"), vec!["a", "bc", "d"]);
    assert_eq!(split_command("a\u{a0}b\u{2003}c"), vec!["a", "b", "c"]);
    assert_eq!(split_command("\u{e9}t\u{e9} \"x y\""), vec!["\u{e9}t\u{e9}", "\"x", "y\""]);
    for text in ["ffmpeg -i \"a b.mp4\" -vf scale=1:2 \"c.avi\"", " x\u{85}y ", "\u{200b} z"] {
        let expected: Vec<String> = text.split_whitespace().map(str::to_string).collect();
        assert_eq!(split_command(text), expected);
    }
}

#[test]
fn execution_error_messages() {
    assert_eq!(
        ExecutionError::CommandFailed("no luck".to_string()).message(),
        "Command failed: no luck"
    );
    assert_eq!(
        ExecutionError::InvalidCommand("Command is empty".to_string()).message(),
        "Invalid command: Command is empty"
    );
}
