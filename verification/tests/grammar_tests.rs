use rush::grammar::Token;
use rush::grammar::is_name_char;
use rush::grammar::is_space;
use rush::grammar::tokenize_line;

#[test]
fn tokenizer_splits_names_connectives_and_separators() {
    let toks = tokenize_line("ab cd;x && y || z").unwrap();
    let shown: Vec<String> = toks
        .iter()
        .map(|t| match t {
            Token::Name(s) => s.clone(),
            Token::AndOp => String::from("&&"),
            Token::OrOp => String::from("||"),
            Token::Semi => String::from(";"),
        })
        .collect();
    assert_eq!(shown, vec!["ab", "cd", ";", "x", "&&", "y", "||", "z"]);
}

#[test]
fn tokenizer_takes_maximal_name_runs() {
    let toks = tokenize_line("abc-def_9;").unwrap();
    assert_eq!(toks.len(), 2);
    assert!(matches!(&toks[0], Token::Name(s) if s == "abc-def_9"));
    assert!(matches!(&toks[1], Token::Semi));
}

#[test]
fn tokenizer_rejects_a_lone_ampersand_or_pipe() {
    assert!(tokenize_line("a & b").is_none());
    assert!(tokenize_line("a | b").is_none());
    assert!(tokenize_line("&").is_none());
}

#[test]
fn tokenizer_rejects_characters_outside_the_grammar() {
    assert!(tokenize_line("echo *").is_none());
    assert!(tokenize_line("a\"b").is_none());
}

#[test]
fn tokenizer_yields_nothing_for_blank_input() {
    assert_eq!(tokenize_line("").unwrap().len(), 0);
    assert_eq!(tokenize_line(" \t ").unwrap().len(), 0);
}

#[test]
fn name_characters_are_ascii_alphanumerics_underscore_and_dash() {
    for c in ['a', 'z', 'A', 'Z', '0', '9', '_', '-'] {
        assert!(is_name_char(c));
    }
    for c in [' ', '\t', ';', '&', '|', '$', 'é', '\n'] {
        assert!(!is_name_char(c));
    }
}

#[test]
fn whitespace_is_space_or_tab_only() {
    assert!(is_space(' '));
    assert!(is_space('\t'));
    assert!(!is_space('\n'));
    assert!(!is_space(';'));
}
