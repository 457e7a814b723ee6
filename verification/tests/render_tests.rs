use htmlisp::parser::Parser;
use htmlisp::render::fmt_attrs;
use htmlisp::Node;

fn parse(source: &str) -> Node {
    Parser::new(source).parse().unwrap()
}

#[test]
fn compact_single_attribute() {
    let parsed = parse(r#"(img :src "https://via.placeholder.com/150")"#);
    assert_eq!(
        parsed.render_compact(),
        r#"<img src="https://via.placeholder.com/150"></img>"#
    );
}

#[test]
fn compact_nested_tags() {
    let parsed = parse(r#"(div :style "background: white" (h1 "hello") (p "world"))"#);
    assert_eq!(
        parsed.render_compact(),
        r#"<div style="background: white"><h1>hello</h1><p>world</p></div>"#
    );
}

#[test]
fn compact_two_attributes_have_a_double_space() {
    // Attribute fragments each start with a space and are then joined by
    // one more: exactly one extra space stands between the two attributes.
    let parsed = parse(r#"(meta :name "viewport" :content "width=device-width, initial-scale=1")"#);
    let out = parsed.render_compact();
    assert_eq!(
        out,
        r#"<meta name="viewport"  content="width=device-width, initial-scale=1"></meta>"#
    );
    assert!(out.contains(r#""viewport"  content"#));
    assert!(!out.contains(r#""viewport"   content"#));
}

#[test]
fn compact_empty_tag() {
    assert_eq!(parse("(html)").render_compact(), "<html></html>");
}

#[test]
fn compact_empty_attribute_value() {
    let parsed = parse(r#"(input :disabled:checked "x")"#);
    assert_eq!(parsed.render_compact(), r#"<input disabled=""  checked="x"></input>"#);
}

#[test]
fn pretty_nested_tags() {
    // Every tag with children opens its own block: the inner tag holds a
    // text child, so it too spreads over three lines, one level deeper.
    let parsed = parse(r#"(div (h1 "hello"))"#);
    assert_eq!(
        parsed.pretty_print(0),
        "<div>\n\t<h1>\n\t\thello\n\t</h1>\n</div>"
    );
}

#[test]
fn pretty_childless_tag_stays_on_one_line() {
    // No newlines are inserted; the closing part still carries its own
    // depth of tabs, so at a positive depth the tabs appear mid-line too.
    assert_eq!(parse("(html)").pretty_print(0), "<html></html>");
    assert_eq!(parse("(html)").pretty_print(2), "\t\t<html>\t\t</html>");
}

#[test]
fn pretty_text_is_indented() {
    assert_eq!(parse(r#""hello""#).pretty_print(3), "\t\t\thello");
}

#[test]
fn pretty_attributes_render_as_in_compact() {
    let parsed = parse(r#"(p :a "1" :b "2" "t")"#);
    assert_eq!(
        parsed.pretty_print(1),
        "\t<p a=\"1\"  b=\"2\">\n\t\tt\n\t</p>"
    );
}

#[test]
fn pretty_children_are_joined_by_newlines() {
    let parsed = parse(r#"(ul (li "a") (li "b"))"#);
    assert_eq!(
        parsed.pretty_print(0),
        "<ul>\n\t<li>\n\t\ta\n\t</li>\n\t<li>\n\t\tb\n\t</li>\n</ul>"
    );
}

#[test]
fn fmt_attrs_empty_list_is_empty() {
    let empty: Vec<(String, String)> = Vec::new();
    assert_eq!(fmt_attrs(&empty), "");
}

#[test]
fn fmt_attrs_one_leading_space_per_attribute_plus_join() {
    let one = vec![("a".to_string(), "b".to_string())];
    assert_eq!(fmt_attrs(&one), r#" a="b""#);
    let two = vec![
        ("a".to_string(), "b".to_string()),
        ("c".to_string(), "d".to_string()),
    ];
    assert_eq!(fmt_attrs(&two), r#" a="b"  c="d""#);
}

#[test]
fn render_is_deterministic() {
    let parsed = parse(r#"(div :style "x" (p "y"))"#);
    assert_eq!(parsed.render_compact(), parsed.render_compact());
    assert_eq!(parsed.pretty_print(1), parsed.pretty_print(1));
}

#[test]
fn text_renders_verbatim_without_escaping() {
    let parsed = parse(r#"(p "1 < 2 & 3 > 2")"#);
    assert_eq!(parsed.render_compact(), "<p>1 < 2 & 3 > 2</p>");
}
