use pipeshell::command::{Command, CdError, cd_target, classify, expand_tilde, same_text};
use pipeshell::parse::{is_whitespace, split_stages, split_words};
use pipeshell::pipeline::parse_line;

fn strings(v: &[&str]) -> Vec<String> {
    v.iter().map(|s| s.to_string()).collect()
}

#[test]
fn stages_keep_their_text_and_order() {
    assert_eq!(split_stages("ls -l | wc -l"), strings(&["ls -l ", " wc -l"]));
}

#[test]
fn stages_of_a_line_without_bars() {
    assert_eq!(split_stages("echo hi"), strings(&["echo hi"]));
}

#[test]
fn stages_keep_empty_pieces() {
    assert_eq!(split_stages("| ls"), strings(&["", " ls"]));
    assert_eq!(split_stages("ls |"), strings(&["ls ", ""]));
    assert_eq!(split_stages("a||b"), strings(&["a", "", "b"]));
}

#[test]
fn bars_inside_quotes_still_split() {
    assert_eq!(split_stages("echo 'a|b'"), strings(&["echo 'a", "b'"]));
}

#[test]
fn words_split_on_runs_of_whitespace() {
    assert_eq!(split_words("  echo   hello\tworld \n"), strings(&["echo", "hello", "world"]));
}

#[test]
fn words_of_blank_text() {
    assert_eq!(split_words(""), Vec::<String>::new());
    assert_eq!(split_words(" \t "), Vec::<String>::new());
}

#[test]
fn words_keep_non_ascii_text() {
    assert_eq!(split_words("grep été\u{3000}fichier"), strings(&["grep", "été", "fichier"]));
}

#[test]
fn whitespace_matches_std() {
    for c in ['a', ' ', '\t', '\n', '\u{85}', '\u{a0}', '\u{2009}', '\u{3000}', '|', '~', 'é'] {
        assert_eq!(is_whitespace(c), c.is_whitespace());
    }
}

#[test]
fn same_text_compares_characters() {
    assert!(same_text("exit", "exit"));
    assert!(!same_text("exit", "exi"));
    assert!(!same_text("cd", "cD"));
}

#[test]
fn classify_resolves_builtins_and_programs() {
    assert!(matches!(classify(vec![]), Command::Empty));
    assert!(matches!(classify(strings(&["exit", "3"])), Command::Exit));
    match classify(strings(&["cd", "/tmp"])) {
        Command::Cd { args } => assert_eq!(args, strings(&["/tmp"])),
        _ => panic!("cd is a built-in"),
    }
    match classify(strings(&["ls", "-l", "~"])) {
        Command::External { program, args } => {
            assert_eq!(program, "ls");
            assert_eq!(args, strings(&["-l", "~"]));
        }
        _ => panic!("ls is a program"),
    }
    assert!(matches!(classify(strings(&["exits"])), Command::External { .. }));
}

#[test]
fn parse_line_makes_one_command_per_stage() {
    let p = parse_line("cd /tmp | ls -a |");
    assert_eq!(p.len(), 3);
    assert!(matches!(&p[0], Command::Cd { args } if args == &strings(&["/tmp"])));
    assert!(matches!(&p[1], Command::External { program, args } if program == "ls" && args == &strings(&["-a"])));
    assert!(matches!(&p[2], Command::Empty));
}

#[test]
fn tilde_expands_everywhere() {
    assert_eq!(expand_tilde("~/src", "/home/ana"), "/home/ana/src");
    assert_eq!(expand_tilde("a~b~", "/h"), "a/hb/h");
    assert_eq!(expand_tilde("/etc", "/h"), "/etc");
}

#[test]
fn cd_without_argument_goes_home() {
    assert_eq!(cd_target(&vec![], "/home/ana"), Ok("/home/ana".to_string()));
}

#[test]
fn cd_with_one_argument() {
    assert_eq!(cd_target(&strings(&["~/x"]), "/home/ana"), Ok("/home/ana/x".to_string()));
    assert_eq!(cd_target(&strings(&["/nonexistent"]), "/home/ana"), Ok("/nonexistent".to_string()));
}

#[test]
fn cd_with_two_arguments_is_refused() {
    assert_eq!(cd_target(&strings(&["a", "b"]), "/home/ana"), Err(CdError::TooManyArguments));
    assert_eq!(CdError::TooManyArguments.message(), "cd: too many arguments");
}
