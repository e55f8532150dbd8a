use trowel::blog::{article_html, index_html, new_page, BlogComponents, BlogError, BlogPageBase};
use trowel::generator::{InvocationError, RenderError};
use trowel::page::{page_options, parse_front_matter, MarkdownOptions, Page, PageError, Timestamp};
use trowel::procedure::Procedure;
use trowel::template::{trowel_html, TemplateError};
use trowel::util::{
    html_to_string, optional_attribute, required_attribute, Doctype, HeadDefault,
};

const STYLE: &str = r#"
nav {
  display: flex;
  justify-content: space-between;
}

aside {
  width: 40%;
  padding-left: 0.5rem;
  margin-left: 0.5rem;
  float: right;
  box-shadow: inset 5px 0 5px -5px #49002d;
  font-style: italic;
  color: #49002d;
}

@media (min-width: calc(38em * 2.2)) {
  aside {
    float: none; /* Disable floating */
    position: absolute; /* Take it out of the document flow */
    right: -40%;
    width: calc(38em * 0.4);
  }
  body {
    position: relative;
  }
}
                    "#;
const SCRIPT: &str = r#"
document.querySelectorAll('time').forEach($e => {
  const date = new Date($e.dateTime);
  // output the localized date and time
  $e.innerHTML = date.toLocaleString();
});
                    "#;

const HEAD: &str = "<meta charset=\"utf-8\" />\n<link rel=\"stylesheet\" href=\"https://unpkg.com/normalize.css@7.0.0/normalize.css\" type=\"text/css\" />\n<link rel=\"stylesheet\" href=\"https://unpkg.com/sakura.css@1.5.0/css/sakura-pink.css\" type=\"text/css\" />\n<meta name=\"viewport\" content=\"width=device-width, initial-scale=1\" />\n";

fn s(text: &str) -> String {
    text.to_string()
}

fn layout(title: &str, time: &str, content: &str) -> String {
    format!(
        "<!DOCTYPE html>\n<html><head>{HEAD}<title>{title}\n</title><style>{STYLE}\n</style></head>\
<body><header><nav><div>TODO\n</div><div><a href=\"/\">Home\n</a><a href=\"/about\">Bbout\n</a></div></nav></header>\
<article><h1>{title}\n</h1>{time}{content}</article><script>{SCRIPT}\n</script></body></html>"
    )
}

fn lines(text: &str) -> Vec<String> {
    text.lines().map(s).collect()
}

#[test]
fn doctype_writes_the_declaration() {
    assert_eq!(html_to_string(Doctype(vec![], Procedure::new()).unwrap()), "<!DOCTYPE html>\n");
    assert!(matches!(
        Doctype(vec![(s("a"), None)], Procedure::new()),
        Err(InvocationError::UnexpectedAttribute)
    ));
}

#[test]
fn head_default_writes_its_lines() {
    assert_eq!(html_to_string(HeadDefault(vec![], Procedure::new()).unwrap()), HEAD);
    assert!(matches!(
        HeadDefault(vec![(s("a"), None)], Procedure::new()),
        Err(InvocationError::UnexpectedAttribute)
    ));
}

#[test]
fn attribute_lookup_takes_the_last_of_a_name() {
    let attrs = vec![
        (s("title"), Some(s("first"))),
        (s("bare"), None),
        (s("title"), Some(s("last"))),
    ];
    assert_eq!(required_attribute(&attrs, "title"), Ok(s("last")));
    assert_eq!(optional_attribute(&attrs, "title"), Some(s("last")));
    assert_eq!(optional_attribute(&attrs, "bare"), None);
    assert_eq!(optional_attribute(&attrs, "none"), None);
    assert_eq!(required_attribute(&attrs, "bare"), Err(InvocationError::MissingAttribute));
    assert_eq!(required_attribute(&attrs, "none"), Err(InvocationError::MissingAttribute));
}

#[test]
fn blog_page_lays_out_title_and_children() {
    let children = trowel_html("p { \"content\" }", &vec![], &BlogComponents).unwrap();
    let page = BlogPageBase(vec![(s("title"), Some(s("X")))], children).unwrap();
    assert_eq!(html_to_string(page), layout("X", "", "<p>content\n</p>"));
}

#[test]
fn blog_page_shows_its_timestamp() {
    let attrs = vec![(s("timestamp"), Some(s("T"))), (s("title"), Some(s("X")))];
    let page = BlogPageBase(attrs, Procedure::new()).unwrap();
    assert_eq!(html_to_string(page), layout("X", "<time datetime=\"T\">T\n</time>", ""));
}

#[test]
fn blog_page_without_title_is_an_invocation_error() {
    assert!(matches!(
        BlogPageBase(vec![], Procedure::new()),
        Err(InvocationError::MissingAttribute)
    ));
    assert!(matches!(
        BlogPageBase(vec![(s("title"), None)], Procedure::new()),
        Err(InvocationError::MissingAttribute)
    ));
    assert_eq!(
        trowel_html("!BlogPageBase {}", &vec![], &BlogComponents).map(html_to_string),
        Err(TemplateError::Render(RenderError::Invocation(InvocationError::MissingAttribute)))
    );
}

#[test]
fn component_echoes_its_title() {
    let out = trowel_html("!BlogPageBase(title: \"X\") {}", &vec![], &BlogComponents)
        .map(html_to_string)
        .unwrap();
    assert_eq!(out, layout("X", "", ""));
}

#[test]
fn front_matter_is_read() {
    let source = lines("---\ntitle:  Hello: world \ntimestamp: Tue, 1 Jul 2003 10:52:37 +0200\n---\nbody\n---\n");
    let front = parse_front_matter(&source).unwrap();
    assert_eq!(front.title, "Hello: world");
    assert_eq!(front.timestamp, "Tue, 1 Jul 2003 10:52:37 +0200");
    assert_eq!(front.body_from, 4);
}

#[test]
fn front_matter_errors() {
    let err = |text: &str| parse_front_matter(&lines(text)).unwrap_err();
    assert_eq!(err(""), PageError::MissingOpening);
    assert_eq!(err("title: x\n---"), PageError::MissingOpening);
    assert_eq!(err("---\ntitle x\n---"), PageError::MalformedLine(1));
    assert_eq!(err("---\ntitle: x\nauthor: y\n---"), PageError::UnknownKey(2));
    assert_eq!(err("---\n title: x\n---"), PageError::UnknownKey(1));
    assert_eq!(err("---\ntimestamp: y\n---"), PageError::MissingTitle);
    assert_eq!(err("---\ntitle: x\n---"), PageError::MissingTimestamp);
    assert_eq!(err("---\ntitle: x"), PageError::MissingTimestamp);
}

#[test]
fn front_matter_may_end_with_the_text() {
    let front = parse_front_matter(&lines("---\ntitle: a\ntitle: b\ntimestamp: t")).unwrap();
    assert_eq!(front.title, "b");
    assert_eq!(front.timestamp, "t");
    assert_eq!(front.body_from, 4);
}

#[test]
fn timestamp_is_read_and_written() {
    let t = Timestamp::parse_from_rfc2822("Tue, 1 Jul 2003 10:52:37 +0200").unwrap();
    assert_eq!(t, Timestamp { seconds: 1057049557, nanos: 0, offset: 7200 });
    assert_eq!(t.to_rfc2822(), Some(s("Tue, 1 Jul 2003 10:52:37 +0200")));
    assert_eq!(Timestamp::parse_from_rfc2822("yesterday"), None);
    let short = Timestamp::parse_from_rfc2822("1 Jan 03 00:00:00 GMT").unwrap();
    assert_eq!(short.to_rfc2822(), Some(s("Wed, 1 Jan 2003 00:00:00 +0000")));
}

#[test]
fn timestamp_outside_four_digit_years_is_not_written() {
    let last = Timestamp { seconds: 253_402_300_799, nanos: 0, offset: 0 };
    assert!(last.has_four_digit_year());
    assert_eq!(last.to_rfc2822(), Some(s("Fri, 31 Dec 9999 23:59:59 +0000")));
    let after = Timestamp { seconds: 253_402_300_799, nanos: 0, offset: 1 };
    assert!(!after.has_four_digit_year());
    assert_eq!(after.to_rfc2822(), None);
    let first = Timestamp { seconds: -62_167_219_200, nanos: 0, offset: 0 };
    assert_eq!(first.to_rfc2822(), Some(s("Sat, 1 Jan 0000 00:00:00 +0000")));
    let before = Timestamp { seconds: -62_167_219_201, nanos: 0, offset: 0 };
    assert_eq!(before.to_rfc2822(), None);
    let far = Timestamp::parse_from_rfc2822("1 Jan 12345 00:00:00 +0000").unwrap();
    assert_eq!(far.to_rfc2822(), None);
    let odd = Timestamp { seconds: 0, nanos: 0, offset: 86_400 };
    assert_eq!(odd.to_rfc2822(), None);
    let extreme = Timestamp { seconds: i64::MAX, nanos: 0, offset: i32::MIN };
    assert_eq!(extreme.to_rfc2822(), None);
}

#[test]
fn page_is_loaded() {
    let source = lines("---\ntitle: First\ntimestamp: Tue, 1 Jul 2003 10:52:37 +0200\n---\n# Head\n\ntext\n");
    let page = Page::load(&source, s("first")).unwrap();
    assert_eq!(page.title, "First");
    assert_eq!(page.slug, "first");
    assert_eq!(page.timestamp, Timestamp { seconds: 1057049557, nanos: 0, offset: 7200 });
    assert_eq!(page.body, "<h1>Head</h1>\n<p>text</p>\n");
    let marked = lines("---\ntitle: t\ntimestamp: 1 Jan 2000 00:00:00 GMT\n---\n__u__ <b>x</b>\n\n| a |\n|---|\n| 1 |\n\n>quoted");
    assert_eq!(
        Page::load(&marked, s("m")).unwrap().body,
        "<p><u>u</u> <b>x</b></p>\n<table>\n<thead>\n<tr>\n<th>a</th>\n</tr>\n</thead>\n<tbody>\n<tr>\n<td>1</td>\n</tr>\n</tbody>\n</table>\n<p>&gt;quoted</p>\n"
    );
    assert_eq!(
        page_options(),
        MarkdownOptions { table: true, underline: true, greentext: true, raw_html: true }
    );
    let bad = lines("---\ntitle: First\ntimestamp: soon\n---\n");
    assert_eq!(Page::load(&bad, s("x")).unwrap_err(), PageError::InvalidTimestamp);
}

fn sample(title: &str, slug: &str) -> Page {
    Page {
        title: s(title),
        timestamp: Timestamp { seconds: 1057049557, nanos: 0, offset: 7200 },
        slug: s(slug),
        body: s("<p>body</p>\n"),
    }
}

#[test]
fn article_is_laid_out() {
    let html = article_html(&sample("First", "first")).unwrap();
    let stamp = "Tue, 1 Jul 2003 10:52:37 +0200";
    assert_eq!(
        html,
        layout("First", &format!("<time datetime=\"{stamp}\">{stamp}\n</time>"), "<p>body</p>\n\n")
    );
}

#[test]
fn index_lists_the_pages_in_order() {
    let html = index_html(&vec![sample("One", "one"), sample("Two", "two")]).unwrap();
    let stamp = "Tue, 1 Jul 2003 10:52:37 +0200";
    let item = |title: &str, slug: &str| {
        format!("<li><a href=\"/{slug}\">{title}\n<sub><time datetime=\"{stamp}\">{stamp}\n</time></sub></a></li>")
    };
    let list = format!(
        "<ul style=\"list-style-type:none;\">{}{}</ul>",
        item("One", "one"),
        item("Two", "two")
    );
    assert_eq!(html, layout("Blog", "", &list));
    assert_eq!(index_html(&vec![]).unwrap(), layout("Blog", "", "<ul style=\"list-style-type:none;\"></ul>"));
}

#[test]
fn page_with_unwritable_timestamp_is_refused() {
    let mut page = sample("One", "one");
    page.timestamp = Timestamp { seconds: 253_402_300_800, nanos: 0, offset: 0 };
    assert_eq!(article_html(&page), Err(BlogError::Timestamp));
    assert_eq!(index_html(&vec![sample("a", "a"), page]), Err(BlogError::Timestamp));
}

#[test]
fn new_page_has_a_front_matter() {
    let text = new_page("hello", "Tue, 1 Jul 2003 10:52:37 +0200");
    assert_eq!(text, "---\ntitle: hello\ntimestamp: Tue, 1 Jul 2003 10:52:37 +0200\n---\n");
    let front = parse_front_matter(&lines(&text)).unwrap();
    assert_eq!(front.title, "hello");
    assert_eq!(front.body_from, 4);
}
