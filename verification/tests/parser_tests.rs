use rush::Statement;
use rush::ShellError;
use rush::parser::parse_line;

fn simple(name: &str, args: &[&str]) -> Statement {
    Statement::Simple(name.to_string(), args.iter().map(|a| a.to_string()).collect())
}

#[test]
fn test_multiple_statement_parser() {
    assert_eq!(
        parse_line("true && true ; true || true").unwrap(),
        vec![
            Statement::And(
                Box::new(simple("true", &[])),
                Box::new(simple("true", &[])),
            ),
            Statement::Or(
                Box::new(simple("true", &[])),
                Box::new(simple("true", &[])),
            ),
        ]
    );
}

#[test]
fn empty_line_parses_to_empty_sequence() {
    assert_eq!(parse_line("").unwrap(), vec![]);
}

#[test]
fn whitespace_only_line_parses_to_empty_sequence() {
    assert_eq!(parse_line("  \t \t  ").unwrap(), vec![]);
}

#[test]
fn semicolons_only_line_parses_to_empty_sequence() {
    assert_eq!(parse_line(" ; ;; ").unwrap(), vec![]);
}

#[test]
fn connective_without_left_operand_is_an_error() {
    assert!(matches!(parse_line("&& true"), Err(ShellError::Parse(_))));
}

#[test]
fn connective_without_right_operand_is_an_error() {
    assert!(matches!(parse_line("true &&"), Err(ShellError::Parse(_))));
    assert!(matches!(parse_line("true ||"), Err(ShellError::Parse(_))));
}

#[test]
fn adjacent_connectives_are_an_error() {
    assert!(matches!(parse_line("a && && b"), Err(ShellError::Parse(_))));
}

#[test]
fn lone_ampersand_is_an_error() {
    assert!(matches!(parse_line("a & b"), Err(ShellError::Parse(_))));
}

#[test]
fn lone_pipe_is_an_error() {
    assert!(matches!(parse_line("a | b"), Err(ShellError::Parse(_))));
}

#[test]
fn unrecognized_character_is_an_error() {
    assert!(matches!(parse_line("echo $HOME"), Err(ShellError::Parse(_))));
}

#[test]
fn simple_command_keeps_name_and_argument_order() {
    assert_eq!(
        parse_line("ls -l foo_bar baz").unwrap(),
        vec![simple("ls", &["-l", "foo_bar", "baz"])]
    );
}

#[test]
fn identifier_characters_include_underscore_and_dash() {
    assert_eq!(
        parse_line("my-cmd _x 0ARG-z").unwrap(),
        vec![simple("my-cmd", &["_x", "0ARG-z"])]
    );
}

#[test]
fn connectives_share_precedence_and_associate_left() {
    assert_eq!(
        parse_line("true && false || true").unwrap(),
        vec![Statement::Or(
            Box::new(Statement::And(
                Box::new(simple("true", &[])),
                Box::new(simple("false", &[])),
            )),
            Box::new(simple("true", &[])),
        )]
    );
}

#[test]
fn empty_segments_are_dropped() {
    assert_eq!(
        parse_line("a ;; b ;").unwrap(),
        vec![simple("a", &[]), simple("b", &[])]
    );
}

#[test]
fn arguments_flow_through_connectives() {
    assert_eq!(
        parse_line("grep -q pattern && echo found").unwrap(),
        vec![Statement::And(
            Box::new(simple("grep", &["-q", "pattern"])),
            Box::new(simple("echo", &["found"])),
        )]
    );
}

#[test]
fn tabs_separate_tokens() {
    assert_eq!(
        parse_line("\ta\tb\t;\tc\t").unwrap(),
        vec![simple("a", &["b"]), simple("c", &[])]
    );
}
