//! Helpers for components, and two components that most pages need.

use crate::generator::{Components, InvocationError};
use crate::html::{ops_text, Attribute, AttributeModel, Op, ToHtml, WriteHtml};
use crate::procedure::{renderable_ops, Procedure, Renderable};
use vstd::prelude::*;
use vstd::string::*;

verus! {

/// Renders `x` into a fresh buffer and returns what was written.
pub fn html_to_string<T: ToHtml>(x: T) -> (s: String)
    ensures
        s@ == ops_text(x.operations()),
{
    let mut writer = WriteHtml::new(String::new());
    x.to_html(&mut writer);
    let s = writer.into_string();
    assert(s@ =~= ops_text(x.operations()));
    s
}

/// What the last attribute called `name` holds: `None` where there is no
/// such attribute, `Some(None)` where it has no value.
pub open spec fn attribute_value(attributes: Seq<AttributeModel>, name: Seq<char>) -> Option<
    Option<Seq<char>>,
>
    decreases attributes.len(),
{
    if attributes.len() == 0 {
        None
    } else if attributes.last().0 == name {
        Some(attributes.last().1)
    } else {
        attribute_value(attributes.drop_last(), name)
    }
}

/// The value of the last attribute called `name`, if there is such an
/// attribute and it has a value.
pub fn optional_attribute(attributes: &Vec<Attribute>, name: &str) -> (value: Option<String>)
    ensures
        match attribute_value(attributes.deep_view(), name@) {
            Some(Some(text)) => value matches Some(s) && s@ == text,
            _ => value is None,
        },
{
    let wanted = String::from_str(name);
    let ghost all = attributes.deep_view();
    let mut i: usize = attributes.len();
    assert(all.take(i as int) =~= all);
    while i > 0
        invariant
            i <= attributes.len(),
            all == attributes.deep_view(),
            wanted@ == name@,
            attribute_value(all, name@) == attribute_value(all.take(i as int), name@),
        decreases i,
    {
        let ghost upto = all.take(i as int);
        assert(upto.last() == all[i - 1]);
        assert(upto.drop_last() =~= all.take(i - 1));
        if attributes[i - 1].0 == wanted {
            return match &attributes[i - 1].1 {
                Some(text) => Some(text.clone()),
                None => None,
            };
        }
        i -= 1;
    }
    None
}

/// The value of the last attribute called `name`; a missing attribute, or
/// one without a value, is an invocation error.
pub fn required_attribute(attributes: &Vec<Attribute>, name: &str) -> (value: Result<
    String,
    InvocationError,
>)
    ensures
        match attribute_value(attributes.deep_view(), name@) {
            Some(Some(text)) => value matches Ok(s) && s@ == text,
            _ => value matches Err(e) && e == InvocationError::MissingAttribute,
        },
{
    match optional_attribute(attributes, name) {
        Some(text) => Ok(text),
        None => Err(InvocationError::MissingAttribute),
    }
}

/// The document type declaration.
pub open spec fn doctype_text() -> Seq<char> {
    "<!DOCTYPE html>"@
}

/// What the component `Doctype` makes of its attributes: one line of text,
/// or an error where it is given any attribute.
pub open spec fn doctype(attributes: Seq<AttributeModel>) -> Result<Seq<Op>, InvocationError> {
    if attributes.len() == 0 {
        Ok(seq![Op::Text { lit: doctype_text() }])
    } else {
        Err(InvocationError::UnexpectedAttribute)
    }
}

/// Whether `r` is the value, or the error, that `expected` names.
pub open spec fn answered(
    r: Result<Renderable, InvocationError>,
    expected: Result<Seq<Op>, InvocationError>,
) -> bool {
    match expected {
        Ok(ops) => r matches Ok(value) && renderable_ops(value) == ops,
        Err(e) => r matches Err(f) && f == e,
    }
}

/// The component that writes the document type declaration. It takes no
/// attributes and does not render its children.
#[allow(non_snake_case)]
pub fn Doctype(attrs: Vec<Attribute>, _children: Procedure) -> (r: Result<
    Renderable,
    InvocationError,
>)
    ensures
        answered(r, doctype(attrs.deep_view())),
{
    if attrs.len() != 0 {
        return Err(InvocationError::UnexpectedAttribute);
    }
    Ok(Renderable::Text(String::from_str("<!DOCTYPE html>")))
}

/// The lines that the component `HeadDefault` writes.
pub open spec fn head_default_lines() -> Seq<Seq<char>> {
    seq![
        "<meta charset=\"utf-8\" />"@,
        "<link rel=\"stylesheet\" href=\"https://unpkg.com/normalize.css@7.0.0/normalize.css\" type=\"text/css\" />"@,
        "<link rel=\"stylesheet\" href=\"https://unpkg.com/sakura.css@1.5.0/css/sakura-pink.css\" type=\"text/css\" />"@,
        "<meta name=\"viewport\" content=\"width=device-width, initial-scale=1\" />"@,
    ]
}

/// What the component `HeadDefault` makes of its attributes: its lines, each
/// as a text, or an error where it is given any attribute.
pub open spec fn head_default(attributes: Seq<AttributeModel>) -> Result<Seq<Op>, InvocationError> {
    if attributes.len() == 0 {
        Ok(head_default_lines().map_values(|lit: Seq<char>| Op::Text { lit }))
    } else {
        Err(InvocationError::UnexpectedAttribute)
    }
}

/// The component that writes the usual content of a page's head: character
/// set, style sheets and viewport. It takes no attributes and does not render
/// its children.
#[allow(non_snake_case)]
pub fn HeadDefault(attrs: Vec<Attribute>, _children: Procedure) -> (r: Result<
    Renderable,
    InvocationError,
>)
    ensures
        answered(r, head_default(attrs.deep_view())),
{
    if attrs.len() != 0 {
        return Err(InvocationError::UnexpectedAttribute);
    }
    let first = Renderable::Text(String::from_str("<meta charset=\"utf-8\" />"));
    let second = Renderable::Text(
        String::from_str(
            "<link rel=\"stylesheet\" href=\"https://unpkg.com/normalize.css@7.0.0/normalize.css\" type=\"text/css\" />",
        ),
    );
    let third = Renderable::Text(
        String::from_str(
            "<link rel=\"stylesheet\" href=\"https://unpkg.com/sakura.css@1.5.0/css/sakura-pink.css\" type=\"text/css\" />",
        ),
    );
    let fourth = Renderable::Text(
        String::from_str(
            "<meta name=\"viewport\" content=\"width=device-width, initial-scale=1\" />",
        ),
    );
    let ghost expected = head_default(attrs.deep_view())->Ok_0;
    proof {
        assert(head_default_lines().len() == 4);
        assert(renderable_ops(first) =~= seq![expected[0]]);
        assert(renderable_ops(second) =~= seq![expected[1]]);
        assert(renderable_ops(third) =~= seq![expected[2]]);
        assert(renderable_ops(fourth) =~= seq![expected[3]]);
    }
    let mut lines: Vec<Renderable> = Vec::new();
    lines.push(first);
    lines.push(second);
    lines.push(third);
    lines.push(fourth);
    let value = Renderable::Sequence(lines);
    proof {
        let items = lines@;
        assert(items[0] == first && items[1] == second && items[2] == third && items[3]
            == fourth);
        assert(crate::procedure::renderables_ops(items, 0) =~= expected.take(0));
        assert(crate::procedure::renderables_ops(items, 1) =~= expected.take(1));
        assert(crate::procedure::renderables_ops(items, 2) =~= expected.take(2));
        assert(crate::procedure::renderables_ops(items, 3) =~= expected.take(3));
        assert(crate::procedure::renderables_ops(items, 4) =~= expected.take(4));
        assert(expected.take(4) =~= expected);
    }
    Ok(value)
}

/// The set of components that knows no component.
pub struct NoComponents;

impl Components for NoComponents {
    open spec fn outcome(
        &self,
        name: Seq<char>,
        attributes: Seq<AttributeModel>,
        children: Seq<Op>,
    ) -> Option<Result<Seq<Op>, InvocationError>> {
        None
    }

    fn invoke(&self, name: &String, attributes: Vec<Attribute>, children: Procedure) -> (r: Option<
        Result<Renderable, InvocationError>,
    >) {
        None
    }
}

/// The components of this module, by name.
pub open spec fn util_component(name: Seq<char>, attributes: Seq<AttributeModel>) -> Option<
    Result<Seq<Op>, InvocationError>,
> {
    if name == "Doctype"@ {
        Some(doctype(attributes))
    } else if name == "HeadDefault"@ {
        Some(head_default(attributes))
    } else {
        None
    }
}

/// The set of components that knows `Doctype` and `HeadDefault`.
pub struct UtilComponents;

impl Components for UtilComponents {
    open spec fn outcome(
        &self,
        name: Seq<char>,
        attributes: Seq<AttributeModel>,
        children: Seq<Op>,
    ) -> Option<Result<Seq<Op>, InvocationError>> {
        util_component(name, attributes)
    }

    fn invoke(&self, name: &String, attributes: Vec<Attribute>, children: Procedure) -> (r: Option<
        Result<Renderable, InvocationError>,
    >) {
        if *name == String::from_str("Doctype") {
            Some(Doctype(attributes, children))
        } else if *name == String::from_str("HeadDefault") {
            Some(HeadDefault(attributes, children))
        } else {
            None
        }
    }
}

} // verus!
