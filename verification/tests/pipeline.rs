use trowel::ast::{AttributeKind, Node, ValueSource};
use trowel::bindings::{Binding, Value};
use trowel::generator::{compile, render, InvocationError, RenderError};
use trowel::host::PlainSyntax;
use trowel::html::WriteHtml;
use trowel::parser::{parse, parse_with, SyntaxError, SyntaxErrorKind};
use trowel::procedure::Renderable;
use trowel::template::{trowel_html, expand_with, TemplateError};
use trowel::util::{html_to_string, NoComponents, UtilComponents};

fn bind(source: &str, value: Value) -> Binding {
    Binding { source: source.to_string(), value }
}

fn render_plain(source: &str, bindings: Vec<Binding>) -> Result<String, TemplateError> {
    expand_with(source, &PlainSyntax, &bindings, &UtilComponents).map(html_to_string)
}

fn render_rust(source: &str, bindings: Vec<Binding>) -> Result<String, TemplateError> {
    trowel_html(source, &bindings, &UtilComponents).map(html_to_string)
}

#[test]
fn element_with_attribute_and_text_child() {
    let out = render_rust("div(foo: \"bar\") { \"hi\" }", vec![]).unwrap();
    assert_eq!(out, "<div foo=\"bar\">hi\n</div>");
}

#[test]
fn self_closing_element_has_no_close_tag() {
    let out = render_rust("<br, <img(src: \"a.png\", hidden)", vec![]).unwrap();
    assert_eq!(out, "<br /><img src=\"a.png\" hidden />");
}

#[test]
fn attributes_keep_declared_order() {
    let out = render_rust("p(b: \"1\", a: \"2\") {}", vec![]).unwrap();
    assert_eq!(out, "<p b=\"1\" a=\"2\"></p>");
}

#[test]
fn absent_valued_attribute_is_omitted() {
    let bindings = vec![bind("x", Value::Text(None)), bind("y", Value::Text(Some("v".to_string())))];
    let out = render_rust("p(a: {x}, b: {y}) {}", bindings).unwrap();
    assert_eq!(out, "<p b=\"v\"></p>");
}

#[test]
fn conditional_attribute_follows_its_condition() {
    let bindings = vec![bind("on", Value::Flag(true)), bind("off", Value::Flag(false))];
    let out = render_rust("input(checked[on], disabled[off]) {}", bindings).unwrap();
    assert_eq!(out, "<input checked></input>");
}

#[test]
fn children_render_in_document_order() {
    let out = render_rust("ul { li { \"1\" }, li { \"2\" }, li { \"3\" }, }", vec![]).unwrap();
    assert_eq!(out, "<ul><li>1\n</li><li>2\n</li><li>3\n</li></ul>");
}

#[test]
fn rust_literals_are_decoded() {
    let out = render_rust("\"a\\tb\\\"c\", r#\"<a href=\"x\">\"#", vec![]).unwrap();
    assert_eq!(out, "a\tb\"c\n<a href=\"x\">\n");
}

#[test]
fn plain_literals_are_taken_verbatim() {
    let out = render_plain("\"a\\tb\", r#\"q\"q\"#", vec![]).unwrap();
    assert_eq!(out, "a\\tb\nq\"q\n");
}

#[test]
fn expression_renders_bound_value() {
    let items = Renderable::Sequence(vec![
        Renderable::Text("x".to_string()),
        Renderable::Optional(None),
        Renderable::Optional(Some(Box::new(Renderable::Text("y".to_string())))),
    ]);
    let out = render_rust("div { { items.iter() } }", vec![bind("items.iter()", Value::Render(items))])
        .unwrap();
    assert_eq!(out, "<div>x\ny\n</div>");
}

#[test]
fn code_block_names_are_seen_by_later_siblings_only() {
    let inner = vec![bind("x", Value::Render(Renderable::Text("inner".to_string())))];
    let bindings = vec![
        bind("x", Value::Render(Renderable::Text("outer".to_string()))),
        bind("let x = 1;", Value::Names(inner)),
    ];
    let out = render_rust("{x}, div { !{ let x = 1; }, {x} }, {x}", bindings).unwrap();
    assert_eq!(out, "outer\n<div>inner\n</div>outer\n");
}

#[test]
fn code_block_writes_nothing() {
    let bindings = vec![bind("let a = 1;", Value::Names(vec![]))];
    let out = render_rust("!{ let a = 1; }", bindings).unwrap();
    assert_eq!(out, "");
}

#[test]
fn unbound_expression_is_refused() {
    assert_eq!(render_rust("{x}", vec![]), Err(TemplateError::Render(RenderError::Unbound)));
    assert_eq!(
        render_rust("{x}", vec![bind("x", Value::Flag(true))]),
        Err(TemplateError::Render(RenderError::Mismatch))
    );
}

#[test]
fn unknown_component_is_refused() {
    assert_eq!(
        render_rust("!Missing {}", vec![]),
        Err(TemplateError::Render(RenderError::UnknownComponent))
    );
    let nodes = parse("<!Doctype").unwrap();
    assert!(matches!(compile(&nodes, &vec![], &NoComponents), Err(RenderError::UnknownComponent)));
}

#[test]
fn component_call_renders_its_result() {
    let out = render_rust("<!Doctype, html { head { <!HeadDefault } }", vec![]).unwrap();
    assert!(out.starts_with("<!DOCTYPE html>\n<html><head><meta charset=\"utf-8\" />\n"));
    assert!(out.ends_with("initial-scale=1\" />\n</head></html>"));
}

#[test]
fn component_refuses_unexpected_attribute() {
    assert_eq!(
        render_rust("<!Doctype(x)", vec![]),
        Err(TemplateError::Render(RenderError::Invocation(InvocationError::UnexpectedAttribute)))
    );
}

#[test]
fn failed_render_writes_nothing() {
    let nodes = parse("p { \"a\" }, {missing}").unwrap();
    let mut w = WriteHtml::new("seed".to_string());
    assert_eq!(render(&nodes, &vec![], &NoComponents, &mut w), Err(RenderError::Unbound));
    assert_eq!(w.into_string(), "seed");
}

#[test]
fn rendering_twice_gives_the_same_text() {
    let nodes = parse("div(a: \"1\") { \"x\", <br }").unwrap();
    let procedure = compile(&nodes, &vec![], &NoComponents).unwrap();
    let mut first = WriteHtml::new(String::new());
    let mut second = WriteHtml::new(String::new());
    procedure.run(&mut first);
    procedure.run(&mut second);
    let a = first.into_string();
    assert_eq!(a, second.into_string());
    assert_eq!(a, "<div a=\"1\">x\n<br /></div>");
}

#[test]
fn parse_builds_the_tree() {
    let nodes = parse("a::b(x, y[c > 1], z: {v}) { \"t\" }").unwrap_err();
    assert_eq!(nodes, SyntaxError { position: 1, kind: SyntaxErrorKind::ExpectedChildren });
    let nodes = parse("!a::b(x, y[c > 1], z: {v}) { \"t\" }").unwrap();
    assert_eq!(nodes.len(), 1);
    match &nodes[0] {
        Node::Fragment { name, attributes, children } => {
            assert_eq!(name, "a::b");
            assert_eq!(attributes.len(), 3);
            assert_eq!(attributes[0].name, "x");
            assert!(matches!(attributes[0].kind, AttributeKind::Boolean));
            assert!(matches!(&attributes[1].kind, AttributeKind::Conditional(c) if c == "c > 1"));
            assert!(matches!(
                &attributes[2].kind,
                AttributeKind::Valued(ValueSource::Expression(v)) if v == "v"
            ));
            assert_eq!(children.len(), 1);
            assert!(matches!(&children[0], Node::Text(t) if t == "t"));
        }
        _ => panic!("expected a component call"),
    }
}

#[test]
fn syntax_errors_carry_their_position() {
    let err = |s: &str| parse(s).unwrap_err();
    assert_eq!(err("div {"), SyntaxError { position: 5, kind: SyntaxErrorKind::UnterminatedGroup });
    assert_eq!(err("div"), SyntaxError { position: 3, kind: SyntaxErrorKind::ExpectedChildren });
    assert_eq!(err("\"abc"), SyntaxError { position: 0, kind: SyntaxErrorKind::UnterminatedLiteral });
    assert_eq!(err("{ a + }"), SyntaxError { position: 0, kind: SyntaxErrorKind::InvalidExpression });
    assert_eq!(err("{ a "), SyntaxError { position: 0, kind: SyntaxErrorKind::UnterminatedGroup });
    assert_eq!(err("!{ let }"), SyntaxError { position: 1, kind: SyntaxErrorKind::InvalidStatements });
    assert_eq!(err("\"\\q\""), SyntaxError { position: 0, kind: SyntaxErrorKind::InvalidLiteral });
    assert_eq!(err("p(a: 1) {}"), SyntaxError { position: 5, kind: SyntaxErrorKind::ExpectedValue });
    assert_eq!(err("p(a b) {}"), SyntaxError { position: 4, kind: SyntaxErrorKind::ExpectedSeparator });
    assert_eq!(err("p(1) {}"), SyntaxError { position: 2, kind: SyntaxErrorKind::ExpectedName });
    assert_eq!(err("p {} q {}"), SyntaxError { position: 5, kind: SyntaxErrorKind::ExpectedSeparator });
    assert_eq!(err("}"), SyntaxError { position: 0, kind: SyntaxErrorKind::ExpectedName });
}

#[test]
fn plain_host_takes_any_group() {
    let nodes = parse_with("{ a + }, !{ let }", &PlainSyntax).unwrap();
    assert!(matches!(&nodes[0], Node::Expression(e) if e == "a +"));
    assert!(matches!(&nodes[1], Node::CodeBlock(e) if e == "let"));
}

#[test]
fn groups_skip_delimiters_in_strings_and_characters() {
    let nodes = parse("{ f(\"}\", '}', '\\'', {1}) }").unwrap();
    assert!(matches!(&nodes[0], Node::Expression(e) if e == "f(\"}\", '}', '\\'', {1})"));
}

#[test]
fn empty_template_is_empty() {
    assert_eq!(parse("  \n ").unwrap().len(), 0);
    assert_eq!(render_rust("", vec![]).unwrap(), "");
}

#[test]
fn every_open_tag_is_closed_once() {
    let out = render_rust("div { p { \"a\" }, <br, ul { li { \"b\" }, li {} } }, <hr", vec![])
        .unwrap();
    assert_eq!(out, "<div><p>a\n</p><br /><ul><li>b\n</li><li></li></ul></div><hr />");
    assert_eq!(out.matches("</").count(), 5);
    assert_eq!(out.matches(" />").count(), 2);
    assert_eq!(out.matches('<').count(), 12);
}

#[test]
fn malformed_template_is_refused() {
    assert_eq!(
        render_rust("div {", vec![]),
        Err(TemplateError::Syntax(SyntaxError {
            position: 5,
            kind: SyntaxErrorKind::UnterminatedGroup
        }))
    );
}

#[test]
fn path_names_a_component() {
    let nodes = parse("<!a::b::c, !d {}").unwrap();
    assert!(matches!(&nodes[0], Node::Fragment { name, children, .. } if name == "a::b::c" && children.is_empty()));
    assert!(matches!(&nodes[1], Node::Fragment { name, .. } if name == "d"));
    assert_eq!(
        parse("a::b {}").unwrap_err(),
        SyntaxError { position: 1, kind: SyntaxErrorKind::ExpectedChildren }
    );
}

#[test]
fn self_closing_element_takes_attributes() {
    let nodes = parse("< input ( disabled , name : \"n\" , )").unwrap();
    match &nodes[0] {
        Node::Element { name, attributes, children, self_closing } => {
            assert_eq!(name, "input");
            assert_eq!(attributes.len(), 2);
            assert!(children.is_empty());
            assert!(*self_closing);
        }
        _ => panic!("expected an element"),
    }
}

#[test]
fn printed_form_is_read_back() {
    let text = "div(a,b[c],d:\"x\",e:{f},){\"t\",<br(),{g},!{h},!i::j(){k(){},},},";
    let nodes = parse_with(text, &PlainSyntax).unwrap();
    assert_eq!(nodes.len(), 1);
    match &nodes[0] {
        Node::Element { name, attributes, children, self_closing } => {
            assert_eq!(name, "div");
            assert!(!*self_closing);
            assert_eq!(attributes.len(), 4);
            assert!(matches!(&attributes[0].kind, AttributeKind::Boolean));
            assert!(matches!(&attributes[1].kind, AttributeKind::Conditional(c) if c == "c"));
            assert!(matches!(
                &attributes[2].kind,
                AttributeKind::Valued(ValueSource::Literal(v)) if v == "x"
            ));
            assert!(matches!(
                &attributes[3].kind,
                AttributeKind::Valued(ValueSource::Expression(v)) if v == "f"
            ));
            assert_eq!(children.len(), 5);
            assert!(matches!(&children[0], Node::Text(t) if t == "t"));
            assert!(matches!(
                &children[1],
                Node::Element { name, self_closing: true, children, .. }
                    if name == "br" && children.is_empty()
            ));
            assert!(matches!(&children[2], Node::Expression(e) if e == "g"));
            assert!(matches!(&children[3], Node::CodeBlock(e) if e == "h"));
            match &children[4] {
                Node::Fragment { name, attributes, children } => {
                    assert_eq!(name, "i::j");
                    assert!(attributes.is_empty());
                    assert_eq!(children.len(), 1);
                    assert!(matches!(
                        &children[0],
                        Node::Element { name, self_closing: false, children, .. }
                            if name == "k" && children.is_empty()
                    ));
                }
                _ => panic!("expected a component call"),
            }
        }
        _ => panic!("expected an element"),
    }
}
