use hierrorchy::token::{read_tokens, render, tokenize, Lexeme, Token};

fn word(text: &str) -> Token {
    Token::Ident(text.to_string())
}

fn keyword(text: &str) -> Token {
    Token::Keyword(text.to_string())
}

#[test]
fn reads_words_marks_and_strings() {
    assert_eq!(
        read_tokens("pub type Foo<A> = \"p\""),
        Some(vec![
            keyword("pub"),
            keyword("type"),
            word("Foo"),
            Token::Punct('<'),
            word("A"),
            Token::Punct('>'),
            Token::Punct('='),
            Token::Str("p".to_string()),
        ])
    );
}

#[test]
fn reads_nothing_from_empty_text() {
    assert_eq!(read_tokens(""), Some(vec![]));
    assert_eq!(read_tokens("  // only a comment\n"), Some(vec![]));
}

#[test]
fn reserved_words_are_keywords() {
    assert_eq!(
        read_tokens("self Self fn _ union r#type"),
        Some(vec![
            keyword("self"),
            keyword("Self"),
            keyword("fn"),
            keyword("_"),
            word("union"),
            word("r#type"),
        ])
    );
}

#[test]
fn string_literals_are_read_by_value() {
    assert_eq!(
        read_tokens("\"a\\tb\" r\"c\\d\" \"\\u{e9}\""),
        Some(vec![
            Token::Str("a\tb".to_string()),
            Token::Str("c\\d".to_string()),
            Token::Str("\u{e9}".to_string()),
        ])
    );
}

#[test]
fn other_literals_and_groups_are_other() {
    assert_eq!(
        read_tokens("1 'c' b\"x\" 1.5 (a, b) [c] {d}"),
        Some(vec![
            Token::Other,
            Token::Other,
            Token::Other,
            Token::Other,
            Token::Other,
            Token::Other,
            Token::Other,
        ])
    );
}

#[test]
fn two_colons_that_touch_are_a_path_separator() {
    assert_eq!(read_tokens("a::b"), Some(vec![word("a"), Token::PathSep, word("b")]));
    assert_eq!(
        read_tokens("a: :b"),
        Some(vec![word("a"), Token::Punct(':'), Token::Punct(':'), word("b")])
    );
    assert_eq!(
        read_tokens("a:::b"),
        Some(vec![word("a"), Token::PathSep, Token::Punct(':'), word("b")])
    );
    assert_eq!(read_tokens("::::"), Some(vec![Token::PathSep, Token::PathSep]));
}

#[test]
fn refuses_unbalanced_brackets() {
    assert_eq!(read_tokens("(a"), None);
    assert_eq!(read_tokens("a)"), None);
    assert_eq!(read_tokens("(a]"), None);
    assert_eq!(read_tokens("\"open"), None);
}

#[test]
fn tokenizes_lexemes_written_by_hand() {
    let lexemes = vec![
        Lexeme::Ident("x".to_string()),
        Lexeme::Punct(':', true),
        Lexeme::Punct(':', false),
        Lexeme::Ident("type".to_string()),
        Lexeme::Punct(':', false),
        Lexeme::Punct(':', false),
        Lexeme::Punct(':', true),
        Lexeme::Literal("\"v\"".to_string()),
        Lexeme::Literal("7".to_string()),
        Lexeme::Group("(a)".to_string()),
    ];
    assert_eq!(
        tokenize(&lexemes),
        vec![
            word("x"),
            Token::PathSep,
            keyword("type"),
            Token::Punct(':'),
            Token::Punct(':'),
            Token::Punct(':'),
            Token::Str("v".to_string()),
            Token::Other,
            Token::Other,
        ]
    );
}

#[test]
fn renders_lexemes_with_one_space_between() {
    let lexemes = vec![
        Lexeme::Ident("std".to_string()),
        Lexeme::Punct(':', true),
        Lexeme::Punct(':', false),
        Lexeme::Ident("format".to_string()),
        Lexeme::Punct('!', false),
        Lexeme::Group("(\"{}\" , self . x)".to_string()),
    ];
    assert_eq!(render(&lexemes), "std :: format ! (\"{}\" , self . x)");
    assert_eq!(render(&Vec::new()), "");
    assert_eq!(render(&vec![Lexeme::Literal("1".to_string())]), "1");
    assert_eq!(
        render(&vec![Lexeme::Punct('\'', true), Lexeme::Ident("a".to_string())]),
        "'a"
    );
}
