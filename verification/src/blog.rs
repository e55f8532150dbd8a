//! The pages of a blog: the component that lays a page out, and the HTML of
//! the index and of each page.

use crate::bindings::{
    bindings_model, names_binding, push_binding, render_binding, text_binding, Binding, BindingModel,
};
use crate::generator::{Components, InvocationError};
use crate::host::RustSyntax;
use crate::html::{ops_text, Attribute, AttributeModel, Op};
use crate::page::{pages_model, Page, PageModel};
use crate::procedure::{ops_view, renderable_ops, renderables_ops, Procedure, Renderable, WriterOp};
use crate::template::{expansion, trowel_html, TemplateError};
use crate::util::{
    answered, attribute_value, html_to_string, optional_attribute, required_attribute, util_component, Doctype, HeadDefault, NoComponents, UtilComponents,
};
use vstd::prelude::*;
use vstd::string::*;

verus! {

/// The layout of a page. It is bound to the title, the links of the
/// navigation, the time of publication and the content.
pub const PAGE_TEMPLATE: &'static str = r##"<!Doctype,
html {
    head {
        <!HeadDefault,
        title { {title.as_str()} },
        style { r#"
nav {
  display: flex;
  justify-content: space-between;
}

aside {
  width: 40%;
  padding-left: 0.5rem;
  margin-left: 0.5rem;
  float: right;
  box-shadow: inset 5px 0 5px -5px #49002d;
  font-style: italic;
  color: #49002d;
}

@media (min-width: calc(38em * 2.2)) {
  aside {
    float: none; /* Disable floating */
    position: absolute; /* Take it out of the document flow */
    right: -40%;
    width: calc(38em * 0.4);
  }
  body {
    position: relative;
  }
}
                    "# },
    },
    body {
        header {
            nav {
                div { "TODO" },
                div { {links} }
            }
        },
        article {
            h1 { {title.as_str()} },
            {time},
            {children}
        },
        script { r#"
document.querySelectorAll('time').forEach($e => {
  const date = new Date($e.dateTime);
  // output the localized date and time
  $e.innerHTML = date.toLocaleString();
});
                    "# }
    },
}"##;

/// A link of the navigation.
pub const LINK_TEMPLATE: &'static str = r##"a(href: {Some(href)}) { {label} }"##;

/// The time of publication.
pub const TIME_TEMPLATE: &'static str =
    r##"time(datetime: {Some(timestamp.as_str())}) { {timestamp.as_str()} },"##;

/// The plan of a link of the navigation.
pub open spec fn link_plan(href: Seq<char>, label: Seq<char>) -> Result<Seq<Op>, TemplateError> {
    expansion(
        LINK_TEMPLATE@,
        RustSyntax,
        seq![
            text_binding("Some(href)"@, Some(href)),
            render_binding("label"@, seq![Op::Text { lit: label }]),
        ],
        NoComponents,
    )
}

/// The plan of the navigation: a link to the start page and one to the page
/// about the site.
pub open spec fn links_plan() -> Result<Seq<Op>, TemplateError> {
    match link_plan("/"@, "Home"@) {
        Err(e) => Err(e),
        Ok(home) => match link_plan("/about"@, "Bbout"@) {
            Err(e) => Err(e),
            Ok(about) => Ok(home + about),
        },
    }
}

/// The plan of the time of publication: nothing where there is no timestamp.
pub open spec fn time_plan(timestamp: Option<Seq<char>>) -> Result<Seq<Op>, TemplateError> {
    match timestamp {
        None => Ok(Seq::empty()),
        Some(text) => expansion(
            TIME_TEMPLATE@,
            RustSyntax,
            seq![
                text_binding("Some(timestamp.as_str())"@, Some(text)),
                render_binding("timestamp.as_str()"@, seq![Op::Text { lit: text }]),
            ],
            NoComponents,
        ),
    }
}

/// The value of the last attribute called `name`, if it has one.
pub open spec fn optional_value(attributes: Seq<AttributeModel>, name: Seq<char>) -> Option<
    Seq<char>,
> {
    match attribute_value(attributes, name) {
        Some(Some(text)) => Some(text),
        _ => None,
    }
}

/// What the component `BlogPageBase` makes of its arguments. It requires the
/// attribute `title` and takes the attribute `timestamp`; it lays the page
/// out around `children`.
pub open spec fn blog_page(attributes: Seq<AttributeModel>, children: Seq<Op>) -> Result<
    Seq<Op>,
    InvocationError,
> {
    match attribute_value(attributes, "title"@) {
        Some(Some(title)) => match links_plan() {
            Err(_) => Err(InvocationError::InvalidTemplate),
            Ok(links) => match time_plan(optional_value(attributes, "timestamp"@)) {
                Err(_) => Err(InvocationError::InvalidTemplate),
                Ok(time) => match expansion(
                    PAGE_TEMPLATE@,
                    RustSyntax,
                    seq![
                        render_binding("title.as_str()"@, seq![Op::Text { lit: title }]),
                        render_binding("links"@, links),
                        render_binding("time"@, time),
                        render_binding("children"@, children),
                    ],
                    UtilComponents,
                ) {
                    Err(_) => Err(InvocationError::InvalidTemplate),
                    Ok(ops) => Ok(ops),
                },
            },
        },
        _ => Err(InvocationError::MissingAttribute),
    }
}

/// Whether `r` is the value, or the error, that `expected` names.
pub open spec fn rendered(
    r: Result<Renderable, TemplateError>,
    expected: Result<Seq<Op>, TemplateError>,
) -> bool {
    match expected {
        Ok(ops) => r matches Ok(value) && renderable_ops(value) == ops,
        Err(e) => r matches Err(f) && f == e,
    }
}

/// A link of the navigation.
pub fn nav_link(href: &str, label: &str) -> (r: Result<Renderable, TemplateError>)
    ensures
        rendered(r, link_plan(href@, label@)),
{
    let mut bindings: Vec<Binding> = Vec::new();
    assert(bindings_model(bindings@) =~= Seq::<BindingModel>::empty());
    push_binding(&mut bindings, Binding::text("Some(href)", Some(String::from_str(href))));
    push_binding(
        &mut bindings,
        Binding::render("label", Renderable::Text(String::from_str(label))),
    );
    assert(bindings_model(bindings@) =~= seq![
        text_binding("Some(href)"@, Some(href@)),
        render_binding("label"@, seq![Op::Text { lit: label@ }]),
    ]);
    match trowel_html(LINK_TEMPLATE, &bindings, &NoComponents) {
        Ok(procedure) => Ok(Renderable::Deferred(procedure)),
        Err(e) => Err(e),
    }
}

/// The links of the navigation.
pub fn nav_links() -> (r: Result<Renderable, TemplateError>)
    ensures
        rendered(r, links_plan()),
{
    let home = match nav_link("/", "Home") {
        Ok(home) => home,
        Err(e) => {
            return Err(e);
        },
    };
    let about = match nav_link("/about", "Bbout") {
        Ok(about) => about,
        Err(e) => {
            return Err(e);
        },
    };
    let ghost first = renderable_ops(home);
    let ghost second = renderable_ops(about);
    let mut links: Vec<Renderable> = Vec::new();
    links.push(home);
    links.push(about);
    proof {
        assert(links@[0] == home && links@[1] == about);
        assert(renderables_ops(links@, 0) =~= Seq::<Op>::empty());
        assert(renderables_ops(links@, 1) =~= first);
        assert(renderables_ops(links@, 2) =~= first + second);
    }
    Ok(Renderable::Sequence(links))
}

/// The time of publication.
pub fn time_element(timestamp: Option<String>) -> (r: Result<Renderable, TemplateError>)
    ensures
        rendered(r, time_plan(timestamp.deep_view())),
{
    match timestamp {
        None => {
            let value = Renderable::Optional(None);
            assert(renderable_ops(value) =~= Seq::<Op>::empty());
            Ok(value)
        },
        Some(text) => {
            assert(timestamp.deep_view() == Some(text@));
            let mut bindings: Vec<Binding> = Vec::new();
            assert(bindings_model(bindings@) =~= Seq::<BindingModel>::empty());
            push_binding(
                &mut bindings,
                Binding::text("Some(timestamp.as_str())", Some(text.clone())),
            );
            push_binding(&mut bindings, Binding::render("timestamp.as_str()", Renderable::Text(text)));
            assert(bindings_model(bindings@) =~= seq![
                text_binding("Some(timestamp.as_str())"@, Some(text@)),
                render_binding("timestamp.as_str()"@, seq![Op::Text { lit: text@ }]),
            ]);
            match trowel_html(TIME_TEMPLATE, &bindings, &NoComponents) {
                Ok(procedure) => {
                    let ghost ops = procedure@;
                    let inner = Renderable::Deferred(procedure);
                    assert(renderable_ops(inner) == ops);
                    Ok(Renderable::Optional(Some(Box::new(inner))))
                },
                Err(e) => Err(e),
            }
        },
    }
}

/// The component that lays a page of the blog out. It requires the attribute
/// `title` and takes the attribute `timestamp`.
#[allow(non_snake_case)]
pub fn BlogPageBase(attrs: Vec<Attribute>, children: Procedure) -> (r: Result<
    Renderable,
    InvocationError,
>)
    ensures
        answered(r, blog_page(attrs.deep_view(), children@)),
{
    let title = match required_attribute(&attrs, "title") {
        Ok(title) => title,
        Err(e) => {
            return Err(e);
        },
    };
    let timestamp = optional_attribute(&attrs, "timestamp");
    let links = match nav_links() {
        Ok(links) => links,
        Err(_) => {
            return Err(InvocationError::InvalidTemplate);
        },
    };
    let time = match time_element(timestamp) {
        Ok(time) => time,
        Err(_) => {
            return Err(InvocationError::InvalidTemplate);
        },
    };
    let ghost expected = seq![
        render_binding("title.as_str()"@, seq![Op::Text { lit: title@ }]),
        render_binding("links"@, renderable_ops(links)),
        render_binding("time"@, renderable_ops(time)),
        render_binding("children"@, children@),
    ];
    let mut bindings: Vec<Binding> = Vec::new();
    assert(bindings_model(bindings@) =~= Seq::<BindingModel>::empty());
    push_binding(&mut bindings, Binding::render("title.as_str()", Renderable::Text(title)));
    push_binding(&mut bindings, Binding::render("links", links));
    push_binding(&mut bindings, Binding::render("time", time));
    push_binding(&mut bindings, Binding::render("children", Renderable::Deferred(children)));
    assert(bindings_model(bindings@) =~= expected);
    match trowel_html(PAGE_TEMPLATE, &bindings, &UtilComponents) {
        Ok(procedure) => Ok(Renderable::Deferred(procedure)),
        Err(_) => Err(InvocationError::InvalidTemplate),
    }
}

/// The components of a blog, by name.
pub open spec fn blog_component(
    name: Seq<char>,
    attributes: Seq<AttributeModel>,
    children: Seq<Op>,
) -> Option<Result<Seq<Op>, InvocationError>> {
    if name == "BlogPageBase"@ {
        Some(blog_page(attributes, children))
    } else {
        util_component(name, attributes)
    }
}

/// The set of components that knows `BlogPageBase`, `Doctype` and
/// `HeadDefault`.
pub struct BlogComponents;

impl Components for BlogComponents {
    open spec fn outcome(
        &self,
        name: Seq<char>,
        attributes: Seq<AttributeModel>,
        children: Seq<Op>,
    ) -> Option<Result<Seq<Op>, InvocationError>> {
        blog_component(name, attributes, children)
    }

    fn invoke(&self, name: &String, attributes: Vec<Attribute>, children: Procedure) -> (r: Option<
        Result<Renderable, InvocationError>,
    >) {
        if *name == String::from_str("BlogPageBase") {
            Some(BlogPageBase(attributes, children))
        } else {
            UtilComponents.invoke(name, attributes, children)
        }
    }
}

/// Why a page of the blog could not be rendered.
#[derive(Clone, Copy, Debug, PartialEq, Eq, Structural)]
pub enum BlogError {
    /// A template could not be expanded.
    Template(TemplateError),
    /// The timestamp of a page cannot be written in the format of RFC 2822.
    Timestamp,
}

/// An entry of the index: a link to the page with its title and its time of
/// publication.
pub const ITEM_TEMPLATE: &'static str =
    r##"li {
    a(href: {Some(format!("/{}", page.slug))}) {
        {page.title.as_str()},
        sub {
            !{let timestamp = page.timestamp.to_rfc2822();},
            time(datetime: {Some(&timestamp)}) {
                {timestamp}
            }
        }
    }
}"##;

/// The index: the list of all pages, laid out as a page called `Blog`.
pub const INDEX_TEMPLATE: &'static str =
    r##"!{let pages = pages2;},
!BlogPageBase(title: {Some("Blog")}) {
    ul(style: "list-style-type:none;") {
        {pages.iter().map(item).collect()}
    }
}"##;

/// A page: its body, laid out under its title and its time of publication.
pub const ARTICLE_TEMPLATE: &'static str =
    r##"!BlogPageBase(title: {Some(&page.title)}, timestamp: {Some(page.timestamp.to_rfc2822())}) {
    {page.body.as_str()}
}"##;

/// The plan of a template, with a failure put as a [`BlogError`].
pub open spec fn blog_expansion<C: Components>(
    source: Seq<char>,
    bindings: Seq<BindingModel>,
    components: C,
) -> Result<Seq<Op>, BlogError> {
    match expansion(source, RustSyntax, bindings, components) {
        Ok(ops) => Ok(ops),
        Err(e) => Err(BlogError::Template(e)),
    }
}

/// The plan of the entry of the index for one page.
pub open spec fn item_plan(page: PageModel) -> Result<Seq<Op>, BlogError> {
    match page.timestamp.rfc2822() {
        None => Err(BlogError::Timestamp),
        Some(timestamp) => blog_expansion(
            ITEM_TEMPLATE@,
            seq![
                text_binding("Some(format!(\"/{}\", page.slug))"@, Some(seq!['/'] + page.slug)),
                render_binding("page.title.as_str()"@, seq![Op::Text { lit: page.title }]),
                names_binding(
                    "let timestamp = page.timestamp.to_rfc2822();"@,
                    seq![
                        text_binding("Some(&timestamp)"@, Some(timestamp)),
                        render_binding("timestamp"@, seq![Op::Text { lit: timestamp }]),
                    ],
                ),
            ],
            NoComponents,
        ),
    }
}

/// The plan of the entries for the first `n` pages, in the order of the
/// list; the first failure in that order, if there is one.
pub open spec fn items_plan(pages: Seq<PageModel>, n: nat) -> Result<Seq<Op>, BlogError>
    decreases n,
{
    if n == 0 || n > pages.len() {
        Ok(Seq::empty())
    } else {
        match items_plan(pages, (n - 1) as nat) {
            Err(e) => Err(e),
            Ok(before) => match item_plan(pages[n - 1]) {
                Err(e) => Err(e),
                Ok(one) => Ok(before + one),
            },
        }
    }
}

/// The plan of the index of the given pages.
pub open spec fn index_plan(pages: Seq<PageModel>) -> Result<Seq<Op>, BlogError> {
    match items_plan(pages, pages.len()) {
        Err(e) => Err(e),
        Ok(items) => blog_expansion(
            INDEX_TEMPLATE@,
            seq![
                names_binding(
                    "let pages = pages2;"@,
                    seq![render_binding("pages.iter().map(item).collect()"@, items)],
                ),
                text_binding("Some(\"Blog\")"@, Some("Blog"@)),
            ],
            BlogComponents,
        ),
    }
}

/// The plan of a page.
pub open spec fn article_plan(page: PageModel) -> Result<Seq<Op>, BlogError> {
    match page.timestamp.rfc2822() {
        None => Err(BlogError::Timestamp),
        Some(timestamp) => blog_expansion(
            ARTICLE_TEMPLATE@,
            seq![
                text_binding("Some(&page.title)"@, Some(page.title)),
                text_binding("Some(page.timestamp.to_rfc2822())"@, Some(timestamp)),
                render_binding("page.body.as_str()"@, seq![Op::Text { lit: page.body }]),
            ],
            BlogComponents,
        ),
    }
}

/// Whether `r` is the text of the plan, or the error, that `expected` names.
pub open spec fn written(r: Result<String, BlogError>, expected: Result<Seq<Op>, BlogError>) -> bool {
    match expected {
        Ok(ops) => r matches Ok(html) && html@ == ops_text(ops),
        Err(e) => r matches Err(f) && f == e,
    }
}

/// Once the entry of a page has failed, the failure stays the result however
/// many more pages are taken in.
pub proof fn items_failure_persists(pages: Seq<PageModel>, n: nat, m: nat)
    requires
        n <= m <= pages.len(),
        items_plan(pages, n) is Err,
    ensures
        items_plan(pages, m) == items_plan(pages, n),
    decreases m,
{
    if n < m {
        items_failure_persists(pages, n, (m - 1) as nat);
    }
}

/// Appends the entry of the index for one page to `plan`.
pub fn record_item(page: &Page, plan: &mut Vec<WriterOp>) -> (r: Result<(), BlogError>)
    ensures
        match item_plan(page@) {
            Ok(ops) => r is Ok && ops_view(final(plan)@) == ops_view(old(plan)@) + ops,
            Err(e) => r matches Err(f) && f == e,
        },
{
    let timestamp = match page.timestamp.to_rfc2822() {
        Some(timestamp) => timestamp,
        None => {
            return Err(BlogError::Timestamp);
        },
    };
    let mut href = String::from_str("/");
    href.append(page.slug.as_str());
    proof {
        reveal_strlit("/");
        assert(href@ =~= seq!['/'] + page.slug@);
    }
    let mut names: Vec<Binding> = Vec::new();
    assert(bindings_model(names@) =~= Seq::<BindingModel>::empty());
    push_binding(&mut names, Binding::text("Some(&timestamp)", Some(timestamp.clone())));
    push_binding(&mut names, Binding::render("timestamp", Renderable::Text(timestamp)));
    assert(bindings_model(names@) =~= seq![
        text_binding("Some(&timestamp)"@, Some(timestamp@)),
        render_binding("timestamp"@, seq![Op::Text { lit: timestamp@ }]),
    ]);
    let mut bindings: Vec<Binding> = Vec::new();
    assert(bindings_model(bindings@) =~= Seq::<BindingModel>::empty());
    push_binding(&mut bindings, Binding::text("Some(format!(\"/{}\", page.slug))", Some(href)));
    push_binding(
        &mut bindings,
        Binding::render("page.title.as_str()", Renderable::Text(page.title.clone())),
    );
    push_binding(
        &mut bindings,
        Binding::names("let timestamp = page.timestamp.to_rfc2822();", names),
    );
    assert(bindings_model(bindings@) =~= seq![
        text_binding("Some(format!(\"/{}\", page.slug))"@, Some(seq!['/'] + page.slug@)),
        render_binding("page.title.as_str()"@, seq![Op::Text { lit: page.title@ }]),
        names_binding(
            "let timestamp = page.timestamp.to_rfc2822();"@,
            seq![
                text_binding("Some(&timestamp)"@, Some(timestamp@)),
                render_binding("timestamp"@, seq![Op::Text { lit: timestamp@ }]),
            ],
        ),
    ]);
    match trowel_html(ITEM_TEMPLATE, &bindings, &NoComponents) {
        Ok(procedure) => {
            procedure.record(plan);
            Ok(())
        },
        Err(e) => Err(BlogError::Template(e)),
    }
}

/// The HTML of the index of the given pages.
pub fn index_html(pages: &Vec<Page>) -> (r: Result<String, BlogError>)
    ensures
        written(r, index_plan(pages_model(pages@))),
{
    let ghost models = pages_model(pages@);
    let mut plan: Vec<WriterOp> = Vec::new();
    assert(ops_view(plan@) =~= Seq::<Op>::empty());
    let mut i: usize = 0;
    while i < pages.len()
        invariant
            i <= pages.len(),
            models == pages_model(pages@),
            items_plan(models, i as nat) == Ok::<Seq<Op>, BlogError>(ops_view(plan@)),
        decreases pages.len() - i,
    {
        assert(models[i as int] == pages@[i as int]@);
        proof {
            if item_plan(models[i as int]) is Err {
                items_failure_persists(models, (i + 1) as nat, models.len());
            }
        }
        match record_item(&pages[i], &mut plan) {
            Ok(()) => {},
            Err(e) => {
                return Err(e);
            },
        }
        i += 1;
    }
    let items = Renderable::Deferred(Procedure { ops: plan });
    let mut names: Vec<Binding> = Vec::new();
    assert(bindings_model(names@) =~= Seq::<BindingModel>::empty());
    push_binding(&mut names, Binding::render("pages.iter().map(item).collect()", items));
    assert(bindings_model(names@) =~= seq![
        render_binding("pages.iter().map(item).collect()"@, renderable_ops(items)),
    ]);
    let mut bindings: Vec<Binding> = Vec::new();
    assert(bindings_model(bindings@) =~= Seq::<BindingModel>::empty());
    push_binding(&mut bindings, Binding::names("let pages = pages2;", names));
    push_binding(&mut bindings, Binding::text("Some(\"Blog\")", Some(String::from_str("Blog"))));
    assert(bindings_model(bindings@) =~= seq![
        names_binding(
            "let pages = pages2;"@,
            seq![render_binding("pages.iter().map(item).collect()"@, renderable_ops(items))],
        ),
        text_binding("Some(\"Blog\")"@, Some("Blog"@)),
    ]);
    match trowel_html(INDEX_TEMPLATE, &bindings, &BlogComponents) {
        Ok(procedure) => Ok(html_to_string(procedure)),
        Err(e) => Err(BlogError::Template(e)),
    }
}

/// The HTML of a page.
pub fn article_html(page: &Page) -> (r: Result<String, BlogError>)
    ensures
        written(r, article_plan(page@)),
{
    let timestamp = match page.timestamp.to_rfc2822() {
        Some(timestamp) => timestamp,
        None => {
            return Err(BlogError::Timestamp);
        },
    };
    let mut bindings: Vec<Binding> = Vec::new();
    assert(bindings_model(bindings@) =~= Seq::<BindingModel>::empty());
    push_binding(&mut bindings, Binding::text("Some(&page.title)", Some(page.title.clone())));
    push_binding(
        &mut bindings,
        Binding::text("Some(page.timestamp.to_rfc2822())", Some(timestamp)),
    );
    push_binding(
        &mut bindings,
        Binding::render("page.body.as_str()", Renderable::Text(page.body.clone())),
    );
    assert(bindings_model(bindings@) =~= seq![
        text_binding("Some(&page.title)"@, Some(page.title@)),
        text_binding("Some(page.timestamp.to_rfc2822())"@, Some(timestamp@)),
        render_binding("page.body.as_str()"@, seq![Op::Text { lit: page.body@ }]),
    ]);
    match trowel_html(ARTICLE_TEMPLATE, &bindings, &BlogComponents) {
        Ok(procedure) => Ok(html_to_string(procedure)),
        Err(e) => Err(BlogError::Template(e)),
    }
}

/// The source of a new page: a front matter with the slug as the title and
/// the given timestamp, and no body.
pub open spec fn new_page_text(slug: Seq<char>, timestamp: Seq<char>) -> Seq<char> {
    "---\ntitle: "@ + slug + "\ntimestamp: "@ + timestamp + "\n---\n"@
}

/// Writes the source of a new page.
pub fn new_page(slug: &str, timestamp: &str) -> (text: String)
    ensures
        text@ == new_page_text(slug@, timestamp@),
{
    let mut text = String::from_str("---\ntitle: ");
    text.append(slug);
    text.append("\ntimestamp: ");
    text.append(timestamp);
    text.append("\n---\n");
    text
}

} // verus!
