use trowel::html::{HtmlWriter, ToHtml, WriteHtml};
use trowel::procedure::{Procedure, Renderable};
use trowel::util::html_to_string;

fn text(s: &str) -> String {
    s.to_string()
}

#[test]
fn open_tag_renders_attributes_in_given_order() {
    let mut w = WriteHtml::new(String::new());
    w.write_tag(
        "div",
        false,
        vec![(text("b"), Some(text("1"))), (text("a"), Some(text("2")))],
    );
    assert_eq!(w.into_string(), "<div b=\"1\" a=\"2\">");
}

#[test]
fn open_tag_renders_bare_attribute_without_value() {
    let mut w = WriteHtml::new(String::new());
    w.write_tag("input", true, vec![(text("disabled"), None)]);
    assert_eq!(w.into_string(), "<input disabled />");
}

#[test]
fn attribute_value_is_not_escaped() {
    let mut w = WriteHtml::new(String::new());
    w.write_tag("a", false, vec![(text("href"), Some(text("x\"y<z>&")))]);
    assert_eq!(w.into_string(), "<a href=\"x\"y<z>&\">");
}

#[test]
fn close_tag_and_text() {
    let mut w = WriteHtml::new(text("seed"));
    w.write_string_lit("<b>hi</b>");
    w.write_end_tag("p");
    assert_eq!(w.into_string(), "seed<b>hi</b>\n</p>");
}

#[test]
fn absent_option_renders_nothing() {
    let nothing: Option<String> = None;
    assert_eq!(html_to_string(nothing), "");
    assert_eq!(html_to_string(Some(text("x"))), "x\n");
}

#[test]
fn sequence_renders_in_list_order() {
    assert_eq!(html_to_string(vec!["a", "b", "c"]), "a\nb\nc\n");
    let mut w = WriteHtml::new(String::new());
    vec![text("1"), text("2")].to_html(&mut w);
    assert_eq!(w.into_string(), "1\n2\n");
}

#[test]
fn procedure_records_calls_and_replays_them() {
    let mut recorded = Procedure::new();
    recorded.write_tag("p", false, vec![(text("class"), Some(text("c")))]);
    recorded.write_string_lit("x");
    recorded.write_end_tag("p");
    assert_eq!(recorded.ops.len(), 3);
    let mut first = WriteHtml::new(String::new());
    recorded.run(&mut first);
    assert_eq!(first.into_string(), "<p class=\"c\">x\n</p>");
    assert_eq!(html_to_string(recorded), "<p class=\"c\">x\n</p>");
}

#[test]
fn renderable_values_render_by_kind() {
    let mut inner = Procedure::new();
    inner.write_tag("br", true, vec![]);
    let value = Renderable::Sequence(vec![
        Renderable::Text(text("a")),
        Renderable::Optional(None),
        Renderable::Deferred(inner),
        Renderable::Optional(Some(Box::new(Renderable::Text(text("b"))))),
        Renderable::Sequence(vec![]),
    ]);
    assert_eq!(html_to_string(value), "a\n<br />b\n");
}
