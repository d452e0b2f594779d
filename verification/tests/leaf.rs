use hierrorchy::error::Error;
use hierrorchy::error_leaf;
use hierrorchy::leaf::{leaf_items, MessageFormat};
use hierrorchy::token::{Lexeme, Token};

fn lines(lines: &[&str]) -> String {
    let mut text = String::new();
    for line in lines {
        text.push_str(line);
        text.push('\n');
    }
    text
}

#[test]
fn a_string_literal_is_a_literal_message() {
    assert_eq!(MessageFormat::parse("\"simple error\""), Ok(MessageFormat::Lit("simple error".to_string())));
    assert_eq!(MessageFormat::parse("\"\""), Ok(MessageFormat::Lit(String::new())));
    assert_eq!(
        MessageFormat::parse(" /* c */ \"a\\n\\\"b\\\"\" // d"),
        Ok(MessageFormat::Lit("a\n\"b\"".to_string()))
    );
    assert_eq!(MessageFormat::parse("r#\"raw \"x\"\"#"), Ok(MessageFormat::Lit("raw \"x\"".to_string())));
}

#[test]
fn a_macro_call_is_a_templated_message() {
    assert_eq!(
        MessageFormat::parse("format!(\"{} is wrong\", self.myfield)"),
        Ok(MessageFormat::Format("format ! (\"{} is wrong\" , self . myfield)".to_string()))
    );
    assert_eq!(
        MessageFormat::parse("std::format!{\"x\"}"),
        Ok(MessageFormat::Format("std :: format ! { \"x\" }".to_string()))
    );
    assert_eq!(
        MessageFormat::parse("format![\"error child 1\"]"),
        Ok(MessageFormat::Format("format ! [\"error child 1\"]".to_string()))
    );
}

#[test]
fn any_other_payload_is_refused() {
    assert_eq!(MessageFormat::parse(""), Err(Error::Message));
    assert_eq!(MessageFormat::parse("42"), Err(Error::Message));
    assert_eq!(MessageFormat::parse("b\"bytes\""), Err(Error::Message));
    assert_eq!(MessageFormat::parse("\"a\" \"b\""), Err(Error::Message));
    assert_eq!(MessageFormat::parse("\"a\", x"), Err(Error::Message));
    assert_eq!(MessageFormat::parse("format"), Err(Error::Message));
    assert_eq!(MessageFormat::parse("format!"), Err(Error::Message));
    assert_eq!(MessageFormat::parse("format!(\"x\") y"), Err(Error::Message));
    assert_eq!(MessageFormat::parse("self.message()"), Err(Error::Message));
    assert_eq!(MessageFormat::parse("(\"x\")"), Err(Error::Message));
}

#[test]
fn a_payload_that_is_no_tokens_is_refused() {
    assert_eq!(MessageFormat::parse("\"open"), Err(Error::Lex));
    assert_eq!(MessageFormat::parse("format!(\"x\""), Err(Error::Lex));
}

#[test]
fn resolves_from_what_is_known_of_the_payload() {
    let literal = vec![Token::Str("m".to_string())];
    let lexemes = vec![Lexeme::Literal("\"m\"".to_string())];
    assert_eq!(MessageFormat::resolve(&literal, &lexemes, false), Ok(MessageFormat::Lit("m".to_string())));
    assert_eq!(MessageFormat::resolve(&literal, &lexemes, true), Ok(MessageFormat::Lit("m".to_string())));
    let call = vec![Token::Ident("f".to_string()), Token::Punct('!'), Token::Other];
    let lexemes = vec![
        Lexeme::Ident("f".to_string()),
        Lexeme::Punct('!', false),
        Lexeme::Group("()".to_string()),
    ];
    assert_eq!(MessageFormat::resolve(&call, &lexemes, true), Ok(MessageFormat::Format("f ! ()".to_string())));
    assert_eq!(MessageFormat::resolve(&call, &lexemes, false), Err(Error::Message));
    let two = vec![Token::Str("a".to_string()), Token::Str("b".to_string())];
    assert_eq!(MessageFormat::resolve(&two, &Vec::new(), false), Err(Error::Message));
    assert_eq!(MessageFormat::resolve(&Vec::new(), &Vec::new(), false), Err(Error::Message));
    assert_eq!(MessageFormat::resolve(&vec![Token::Other], &Vec::new(), false), Err(Error::Message));
}

#[test]
fn message_stands_in_the_rendering() {
    assert_eq!(MessageFormat::Lit("simple error".to_string()).text(), "\"simple error\"");
    assert_eq!(MessageFormat::Lit("a \"b\"\n\\".to_string()).text(), "\"a \\\"b\\\"\\n\\\\\"");
    assert_eq!(MessageFormat::Lit(String::new()).text(), "\"\"");
    assert_eq!(MessageFormat::Format("format ! (\"x\")".to_string()).text(), "format ! (\"x\")");
}

#[test]
fn writes_the_items_of_a_leaf() {
    assert_eq!(
        leaf_items("MyError", "struct MyError { }", "\"{}\"", "\"My error\""),
        lines(&[
            "#[derive(Debug)]",
            "struct MyError { }",
            "impl std::fmt::Display for MyError {",
            "    fn fmt(&self, f: &mut std::fmt::Formatter<'_>) -> std::fmt::Result {",
            "        write!(f, \"{}\", \"My error\")",
            "    }",
            "}",
            "impl std::error::Error for MyError {}",
        ])
    );
}

#[test]
fn expands_the_documented_leaf() {
    assert_eq!(
        error_leaf("\"My error\"", "struct MyError {}").unwrap(),
        lines(&[
            "#[derive(Debug)]",
            "struct MyError { }",
            "impl std::fmt::Display for MyError {",
            "    fn fmt(&self, f: &mut std::fmt::Formatter<'_>) -> std::fmt::Result {",
            "        write!(f, \"{}\", \"My error\")",
            "    }",
            "}",
            "impl std::error::Error for MyError {}",
        ])
    );
}

#[test]
fn expands_a_leaf_with_a_template() {
    assert_eq!(
        error_leaf(
            "format!(\"second check failed: value is {}\", self.value)",
            "struct MySecondErrorLeaf {\n    value: i32,\n}"
        )
        .unwrap(),
        lines(&[
            "#[derive(Debug)]",
            "struct MySecondErrorLeaf { value : i32 , }",
            "impl std::fmt::Display for MySecondErrorLeaf {",
            "    fn fmt(&self, f: &mut std::fmt::Formatter<'_>) -> std::fmt::Result {",
            "        write!(f, \"{}\", format ! (\"second check failed: value is {}\" , self . value))",
            "    }",
            "}",
            "impl std::error::Error for MySecondErrorLeaf {}",
        ])
    );
}

#[test]
fn the_struct_passes_through_as_declared() {
    let text = error_leaf(
        "\"m\"",
        "/// Documented.\n#[allow(dead_code)]\npub(crate) struct Wide<'a, T: Clone>(pub &'a T, u8) where T: Copy; // end",
    )
    .unwrap();
    assert!(text.starts_with(
        "#[derive(Debug)]\n# [doc = \" Documented.\"] # [allow (dead_code)] pub (crate) struct Wide <'a , T : Clone > (pub &'a T , u8) where T : Copy ;\nimpl std::fmt::Display for Wide {\n"
    ));
    assert!(text.ends_with("impl std::error::Error for Wide {}\n"));
}

#[test]
fn a_leaf_on_what_is_no_struct_is_refused() {
    assert_eq!(error_leaf("\"m\"", "enum E { A }"), Err(Error::Item));
    assert_eq!(error_leaf("\"m\"", "fn f() {}"), Err(Error::Item));
    assert_eq!(error_leaf("\"m\"", ""), Err(Error::Item));
    assert_eq!(error_leaf("\"m\"", "struct A; struct B;"), Err(Error::Item));
    assert_eq!(error_leaf("\"m\"", "struct"), Err(Error::Item));
}

#[test]
fn a_leaf_on_what_is_no_tokens_is_refused() {
    assert_eq!(error_leaf("\"m\"", "struct A {"), Err(Error::Lex));
}

#[test]
fn the_message_is_read_before_the_struct() {
    assert_eq!(error_leaf("42", "enum E { A }"), Err(Error::Message));
    assert_eq!(error_leaf("\"open", "struct A {"), Err(Error::Lex));
    assert_eq!(error_leaf("", "struct A;"), Err(Error::Message));
}
