use gosh::aliases::Aliases;
use gosh::pipeline::is_comment;
use gosh::pipeline::segment_action;
use gosh::pipeline::split_pipeline;
use gosh::pipeline::split_script_lines;
use gosh::pipeline::stage_wiring;
use gosh::pipeline::KeyMode;
use gosh::pipeline::SegmentAction;
use gosh::pipeline::StdinWiring;
use gosh::pipeline::StdoutWiring;
use gosh::tokenize::split_whitespace_quotes;

fn words(line: &str) -> Vec<String> {
    split_whitespace_quotes(line)
}

#[test]
fn two_stage_line_splits_in_order() {
    let segs = split_pipeline("echo hi | wc -w");
    assert_eq!(segs, vec![String::from("echo hi"), String::from("wc -w")]);
}

#[test]
fn outer_spaces_are_trimmed_before_splitting() {
    let segs = split_pipeline("  a | b  ");
    assert_eq!(segs, vec![String::from("a"), String::from("b")]);
}

#[test]
fn line_without_separator_is_one_segment() {
    let segs = split_pipeline("ls -la");
    assert_eq!(segs, vec![String::from("ls -la")]);
}

#[test]
fn empty_line_is_one_empty_segment() {
    let segs = split_pipeline("");
    assert_eq!(segs, vec![String::new()]);
}

#[test]
fn script_lines_split_on_newlines() {
    assert_eq!(
        split_script_lines("a\nb\n"),
        vec![String::from("a"), String::from("b")]
    );
    assert_eq!(
        split_script_lines("a\n\nb"),
        vec![String::from("a"), String::new(), String::from("b")]
    );
    assert_eq!(split_script_lines(""), Vec::<String>::new());
}

#[test]
fn comment_lines_are_recognized() {
    assert!(is_comment("# a comment"));
    assert!(!is_comment("not # a comment"));
    assert!(!is_comment(""));
}

#[test]
fn alias_words_precede_user_arguments() {
    let mut table = Aliases::new();
    table.set(String::from("g"), String::from("git status"));
    match segment_action(&table, &words("g --short")) {
        SegmentAction::Spawn { command, args } => {
            assert_eq!(command, "git");
            assert_eq!(args, vec![String::from("status"), String::from("--short")]);
        }
        _ => panic!("expected an external command"),
    }
}

#[test]
fn single_word_alias_replaces_command_only() {
    let mut table = Aliases::new();
    table.set(String::from("l"), String::from("ls"));
    match segment_action(&table, &words("l -a")) {
        SegmentAction::Spawn { command, args } => {
            assert_eq!(command, "ls");
            assert_eq!(args, vec![String::from("-a")]);
        }
        _ => panic!("expected an external command"),
    }
}

#[test]
fn unknown_command_spawns_verbatim() {
    let table = Aliases::new();
    match segment_action(&table, &words("definitely-not-a-command x y")) {
        SegmentAction::Spawn { command, args } => {
            assert_eq!(command, "definitely-not-a-command");
            assert_eq!(args, vec![String::from("x"), String::from("y")]);
        }
        _ => panic!("expected an external command"),
    }
}

#[test]
fn builtin_cannot_be_shadowed_by_alias() {
    let mut table = Aliases::new();
    table.set(String::from("cd"), String::from("evil"));
    match segment_action(&table, &words("cd")) {
        SegmentAction::ChangeDir { path } => assert_eq!(path, "/"),
        _ => panic!("expected the cd built-in"),
    }
}

#[test]
fn cd_takes_first_argument_as_path() {
    let table = Aliases::new();
    match segment_action(&table, &words("cd /tmp")) {
        SegmentAction::ChangeDir { path } => assert_eq!(path, "/tmp"),
        _ => panic!("expected the cd built-in"),
    }
}

#[test]
fn exit_is_dispatched_in_process() {
    let table = Aliases::new();
    assert!(matches!(
        segment_action(&table, &words("exit")),
        SegmentAction::Exit
    ));
}

#[test]
fn empty_segment_gives_empty_action() {
    let table = Aliases::new();
    assert!(matches!(
        segment_action(&table, &words("")),
        SegmentAction::Empty
    ));
}

#[test]
fn echo_joins_its_arguments() {
    let table = Aliases::new();
    match segment_action(&table, &words("echo a  b")) {
        SegmentAction::Echo { text } => assert_eq!(text, "a b"),
        _ => panic!("expected the echo built-in"),
    }
}

#[test]
fn alias_builtin_defines_joined_target() {
    let table = Aliases::new();
    match segment_action(&table, &words("alias ll ls -la")) {
        SegmentAction::DefineAlias { name, target } => {
            assert_eq!(name, "ll");
            assert_eq!(target, "ls -la");
        }
        _ => panic!("expected the alias built-in"),
    }
}

#[test]
fn alias_without_name_reports_and_aborts() {
    let table = Aliases::new();
    match segment_action(&table, &words("alias")) {
        SegmentAction::UsageError {
            message,
            abort_line,
        } => {
            assert_eq!(message, "missing alias");
            assert!(abort_line);
        }
        _ => panic!("expected a usage error"),
    }
}

#[test]
fn alias_without_target_reports_and_aborts() {
    let table = Aliases::new();
    match segment_action(&table, &words("alias x")) {
        SegmentAction::UsageError {
            message,
            abort_line,
        } => {
            assert_eq!(message, "missing alias target");
            assert!(abort_line);
        }
        _ => panic!("expected a usage error"),
    }
}

#[test]
fn set_mode_without_argument_aborts_line() {
    let table = Aliases::new();
    match segment_action(&table, &words("set-mode")) {
        SegmentAction::UsageError {
            message,
            abort_line,
        } => {
            assert_eq!(message, "missing mode");
            assert!(abort_line);
        }
        _ => panic!("expected a usage error"),
    }
}

#[test]
fn set_mode_with_bad_argument_continues_line() {
    let table = Aliases::new();
    match segment_action(&table, &words("set-mode dvorak")) {
        SegmentAction::UsageError {
            message,
            abort_line,
        } => {
            assert_eq!(message, "invalid mode");
            assert!(!abort_line);
        }
        _ => panic!("expected a usage error"),
    }
}

#[test]
fn set_mode_selects_key_bindings() {
    let table = Aliases::new();
    match segment_action(&table, &words("set-mode vi")) {
        SegmentAction::SetKeyMode { mode } => assert!(matches!(mode, KeyMode::Vi)),
        _ => panic!("expected the set-mode built-in"),
    }
}

#[test]
fn two_stage_wiring_pipes_first_into_second() {
    let first = stage_wiring(false, true);
    assert!(matches!(first.stdin, StdinWiring::Inherit));
    assert!(matches!(first.stdout, StdoutWiring::Piped));
    let second = stage_wiring(true, false);
    assert!(matches!(second.stdin, StdinWiring::FromPrevious));
    assert!(matches!(second.stdout, StdoutWiring::Inherit));
}
