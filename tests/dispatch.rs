use pipeshell::message::{failure_message, syntax_error_message};
use pipeshell::pipeline::{Action, Dispatcher, Source, SpawnOutcome};

/// Runs the dispatch of `line`, answering each spawn with the next of `outcomes`, and
/// returns the actions as text together with the count of spawns asked for.
fn run(line: &str, outcomes: &[SpawnOutcome]) -> (Vec<String>, usize) {
    let mut d = Dispatcher::from_line(line, "/home/ana");
    let mut out = Vec::new();
    let mut answers = outcomes.iter();
    loop {
        let a = d.next_action();
        out.push(format!("{:?}", a));
        match a {
            Action::Spawn { .. } => {
                d.report_spawn(*answers.next().expect("an outcome for each spawn"));
            }
            Action::SyntaxError | Action::Exit | Action::AwaitChildren => break,
            _ => {}
        }
    }
    (out, d.launched)
}

const OK: SpawnOutcome = SpawnOutcome::Spawned { has_output: true };
const LAST: SpawnOutcome = SpawnOutcome::Spawned { has_output: false };

#[test]
fn echo_into_cat() {
    let (actions, launched) = run("echo hello | cat", &[OK, LAST]);
    assert_eq!(
        actions,
        vec![
            "Spawn { program: \"echo\", args: [\"hello\"], stdin: Terminal, stdout: Pipe }",
            "Spawn { program: \"cat\", args: [], stdin: PreviousOutput, stdout: Terminal }",
            "AwaitChildren",
        ]
    );
    assert_eq!(launched, 2);
}

#[test]
fn every_external_stage_is_spawned_once() {
    let (actions, launched) = run("a | b x | c", &[OK, OK, LAST]);
    assert_eq!(actions.len(), 4);
    assert_eq!(actions[3], "AwaitChildren");
    assert_eq!(launched, 3);
}

#[test]
fn cd_feeds_nothing_downstream() {
    let (actions, launched) = run("cd | cat", &[LAST]);
    assert_eq!(
        actions,
        vec![
            "ChangeDirectory { path: \"/home/ana\" }",
            "Spawn { program: \"cat\", args: [], stdin: Null, stdout: Terminal }",
            "AwaitChildren",
        ]
    );
    assert_eq!(launched, 1);
}

#[test]
fn cd_to_a_missing_directory_is_asked_of_the_system() {
    let (actions, _) = run("cd /nonexistent", &[]);
    assert_eq!(actions, vec!["ChangeDirectory { path: \"/nonexistent\" }", "AwaitChildren"]);
    assert_eq!(
        failure_message("cd", "No such file or directory (os error 2)"),
        "cd: No such file or directory (os error 2)"
    );
}

#[test]
fn cd_with_too_many_arguments_changes_nothing() {
    let (actions, _) = run("cd a b", &[]);
    assert_eq!(actions, vec!["CdUsageError { error: TooManyArguments }", "AwaitChildren"]);
}

#[test]
fn leading_bar_spawns_nothing() {
    let (actions, launched) = run("| ls", &[]);
    assert_eq!(actions, vec!["SyntaxError"]);
    assert_eq!(launched, 0);
    assert_eq!(syntax_error_message(), "syntax error near unexpected token '|'");
}

#[test]
fn trailing_bar_stops_after_earlier_stages() {
    let (actions, launched) = run("ls |", &[OK]);
    assert_eq!(
        actions,
        vec!["Spawn { program: \"ls\", args: [], stdin: Terminal, stdout: Pipe }", "SyntaxError"]
    );
    assert_eq!(launched, 1);
}

#[test]
fn empty_stage_in_the_middle_stops_the_rest() {
    let (actions, launched) = run("ls || wc", &[OK]);
    assert_eq!(actions.len(), 2);
    assert_eq!(actions[1], "SyntaxError");
    assert_eq!(launched, 1);
}

#[test]
fn missing_program_is_reported_and_dispatch_goes_on() {
    let (actions, launched) = run("nonexistent_program", &[SpawnOutcome::Failed]);
    assert_eq!(
        actions,
        vec![
            "Spawn { program: \"nonexistent_program\", args: [], stdin: Terminal, stdout: Terminal }",
            "AwaitChildren",
        ]
    );
    assert_eq!(launched, 1);
    assert_eq!(
        failure_message("nonexistent_program", "No such file or directory (os error 2)"),
        "nonexistent_program: No such file or directory (os error 2)"
    );
}

#[test]
fn failed_spawn_leaves_next_stage_reading_nothing() {
    let (actions, _) = run("nope | cat", &[SpawnOutcome::Failed, LAST]);
    assert_eq!(actions[1], "Spawn { program: \"cat\", args: [], stdin: Null, stdout: Terminal }");
}

#[test]
fn missing_output_handle_falls_back_to_null() {
    let mut d = Dispatcher::from_line("a | b", "/h");
    assert!(matches!(d.next_action(), Action::Spawn { .. }));
    d.report_spawn(SpawnOutcome::Spawned { has_output: false });
    assert_eq!(d.input, Source::Null);
}

#[test]
fn exit_mid_pipeline_ends_at_once() {
    let (actions, launched) = run("ls | exit | cat", &[OK]);
    assert_eq!(actions.len(), 2);
    assert_eq!(actions[1], "Exit");
    assert_eq!(launched, 1);
}

#[test]
fn exit_first_spawns_nothing() {
    let (actions, launched) = run("exit | ls", &[]);
    assert_eq!(actions, vec!["Exit"]);
    assert_eq!(launched, 0);
}

#[test]
fn same_line_twice_gives_same_actions() {
    let first = run("cd /tmp | ls -a | sort", &[OK, LAST]);
    let second = run("cd /tmp | ls -a | sort", &[OK, LAST]);
    assert_eq!(first, second);
}
