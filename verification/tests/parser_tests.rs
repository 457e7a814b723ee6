use htmlisp::grammar::ParseError;
use htmlisp::parser::Parser;
use htmlisp::Node;

#[test]
fn basic() {
    let test = r#"(img :src "https://via.placeholder.com/150")"#;
    let parsed = Parser::new(test).parse().unwrap();
    println!("Input: {}\nOutput:\n{}", test, parsed.render_compact());
}

#[test]
fn nested() {
    let test = r#"(div :style "background: white" (h1 "hello") (p "world"))"#;
    let parsed = Parser::new(test).parse().unwrap();
    println!("Input: {}\nOutput:\n{}", test, parsed.render_compact());
}

#[test]
fn multi_attr() {
    let test = r#"(meta :name "viewport" :content "width=device-width, initial-scale=1")"#;
    let parsed = Parser::new(test).parse().unwrap();
    println!("Input: {}\nOutput:\n{}", test, parsed.render_compact());
}

#[test]
fn escape_string() {
    let test = r#"(p "jioj\"jiojio\"")"#;
    let parsed = Parser::new(test).parse().unwrap();
    println!("Input: {}\nOutput:\n{}", test, parsed.render_compact());
}

#[test]
fn empty() {
    let test = r#"(html)"#;
    let parsed = Parser::new(test).parse().unwrap();
    println!("Input: {}\nOutput:\n{}", test, parsed.render_compact());
}

#[test]
fn parse_is_deterministic() {
    let test = r#"(div :style "background: white" (h1 "hello") (p "world"))"#;
    let first = Parser::new(test).parse().unwrap().render_compact();
    let second = Parser::new(test).parse().unwrap().render_compact();
    assert_eq!(first, second);
}

#[test]
fn escape_string_unescapes_content() {
    let test = r#"(p "jioj\"jiojio\"")"#;
    let parsed = Parser::new(test).parse().unwrap();
    match parsed {
        Node::Tag { name, attributes, inner } => {
            assert_eq!(name, "p");
            assert!(attributes.is_empty());
            assert_eq!(inner.len(), 1);
            match &inner[0] {
                Node::Text(s) => assert_eq!(s, "jioj\"jiojio\""),
                Node::Tag { .. } => panic!("expected a text child"),
            }
        }
        Node::Text(_) => panic!("expected a tag"),
    }
}

#[test]
fn empty_attribute_value_before_another_attribute() {
    let test = r#"(input :disabled:checked "x")"#;
    let parsed = Parser::new(test).parse().unwrap();
    match parsed {
        Node::Tag { name, attributes, inner } => {
            assert_eq!(name, "input");
            assert_eq!(attributes.len(), 2);
            assert_eq!(attributes[0].0, "disabled");
            assert_eq!(attributes[0].1, "");
            assert_eq!(attributes[1].0, "checked");
            assert_eq!(attributes[1].1, "x");
            assert!(inner.is_empty());
        }
        Node::Text(_) => panic!("expected a tag"),
    }
}

#[test]
fn duplicate_attributes_are_kept() {
    let test = r#"(a :x "1" :x "2")"#;
    let parsed = Parser::new(test).parse().unwrap();
    assert_eq!(parsed.render_compact(), r#"<a x="1"  x="2"></a>"#);
}

#[test]
fn text_document_root() {
    let parsed = Parser::new(r#""hello""#).parse().unwrap();
    assert_eq!(parsed.render_compact(), "hello");
    assert_eq!(parsed.pretty_print(0), "hello");
}

#[test]
fn whitespace_between_children_is_skipped() {
    let test = "(div \t\n  (h1 \"a\")\n\t (p \"b\")  \n)";
    let parsed = Parser::new(test).parse().unwrap();
    assert_eq!(parsed.render_compact(), "<div><h1>a</h1><p>b</p></div>");
}

#[test]
fn trailing_input_is_left_unread() {
    let parsed = Parser::new("(p)(q)").parse().unwrap();
    assert_eq!(parsed.render_compact(), "<p></p>");
}

#[test]
fn backslash_escapes_pass_through_unchanged() {
    let test = r#"(p "a\nb")"#;
    let parsed = Parser::new(test).parse().unwrap();
    assert_eq!(parsed.render_compact(), r#"<p>a\nb</p>"#);
}

#[test]
fn error_expected_attribute_value() {
    assert_eq!(
        Parser::new("(div :attr)").parse().unwrap_err(),
        ParseError::ExpectedAttributeValue
    );
}

#[test]
fn error_unterminated_string() {
    assert_eq!(
        Parser::new("\"unterminated").parse().unwrap_err(),
        ParseError::UnterminatedString
    );
}

#[test]
fn error_unterminated_string_by_escaped_final_quote() {
    // The closing quote is escaped away, so the literal never ends.
    assert_eq!(
        Parser::new(r#"(p "x\\")"#).parse().unwrap_err(),
        ParseError::UnterminatedString
    );
}

#[test]
fn error_unexpected_character_on_empty_input() {
    assert_eq!(Parser::new("").parse().unwrap_err(), ParseError::UnexpectedCharacter);
}

#[test]
fn error_unexpected_character_on_other_leading_character() {
    assert_eq!(Parser::new("div").parse().unwrap_err(), ParseError::UnexpectedCharacter);
}

#[test]
fn error_expected_identifier() {
    assert_eq!(Parser::new("(").parse().unwrap_err(), ParseError::ExpectedIdentifier);
    assert_eq!(Parser::new("( div)").parse().unwrap_err(), ParseError::ExpectedIdentifier);
    assert_eq!(Parser::new("(div :)").parse().unwrap_err(), ParseError::ExpectedIdentifier);
}

#[test]
fn error_unexpected_end_of_input() {
    assert_eq!(Parser::new("(html").parse().unwrap_err(), ParseError::UnexpectedEndOfInput);
    assert_eq!(Parser::new("(div ").parse().unwrap_err(), ParseError::UnexpectedEndOfInput);
    assert_eq!(Parser::new("(div \"x\"").parse().unwrap_err(), ParseError::UnexpectedEndOfInput);
    assert_eq!(
        Parser::new(r#"(a :b "c""#).parse().unwrap_err(),
        ParseError::UnexpectedEndOfInput
    );
}

#[test]
fn error_expected_closing_paren() {
    assert_eq!(
        Parser::new("(div \"x\" ]").parse().unwrap_err(),
        ParseError::ExpectedClosingParen
    );
}

#[test]
fn compact_output_does_not_reparse() {
    // The output notation is HTML, not the input notation: feeding a
    // rendered tag back to the parser is expected to fail.
    let test = r#"(p "x")"#;
    let rendered = Parser::new(test).parse().unwrap().render_compact();
    assert_eq!(rendered, "<p>x</p>");
    assert_eq!(
        Parser::new(&rendered).parse().unwrap_err(),
        ParseError::UnexpectedCharacter
    );
}

#[test]
fn whitespace_before_the_closing_paren_is_optional() {
    assert_eq!(Parser::new("(div )").parse().unwrap().render_compact(), "<div></div>");
    assert_eq!(Parser::new("(div)").parse().unwrap().render_compact(), "<div></div>");
}

#[test]
fn names_may_hold_digits() {
    let parsed = Parser::new(r#"(h1 :data2 "x" "t")"#).parse().unwrap();
    assert_eq!(parsed.render_compact(), r#"<h1 data2="x">t</h1>"#);
}
