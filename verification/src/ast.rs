//! The abstract syntax of templates.

use vstd::prelude::*;

verus! {

/// Where the value of a valued attribute comes from.
#[derive(Debug)]
pub enum ValueSource {
    /// A string literal: the value is always present.
    Literal(String),
    /// The source text of a host expression that yields an optional string.
    Expression(String),
}

/// The three kinds of attribute.
#[derive(Debug)]
pub enum AttributeKind {
    /// Always rendered, as the bare name.
    Boolean,
    /// Rendered as the bare name if the host expression, given by its source
    /// text, yields true; left out otherwise.
    Conditional(String),
    /// Rendered as `name="value"` if a value is present; left out otherwise.
    Valued(ValueSource),
}

/// One declared attribute. Attributes keep the order of their declaration.
#[derive(Debug)]
pub struct AttributeSpec {
    pub name: String,
    pub kind: AttributeKind,
}

/// A node of a template. Child lists are ordered: their order is the order of
/// the document.
#[derive(Debug)]
pub enum Node {
    /// A literal markup tag.
    Element { name: String, attributes: Vec<AttributeSpec>, children: Vec<Node>, self_closing: bool },
    /// A call of a component, named by its path.
    Fragment { name: String, attributes: Vec<AttributeSpec>, children: Vec<Node> },
    /// A constant chunk of text.
    Text(String),
    /// The source text of a host expression that yields a renderable value.
    Expression(String),
    /// The source text of host statements. They introduce names for the
    /// siblings that follow; they write nothing.
    CodeBlock(String),
}

/// The mathematical model of a [`ValueSource`].
pub enum ValueSourceModel {
    Literal(Seq<char>),
    Expression(Seq<char>),
}

/// The mathematical model of an [`AttributeKind`].
pub enum AttributeKindModel {
    Boolean,
    Conditional(Seq<char>),
    Valued(ValueSourceModel),
}

/// The mathematical model of an [`AttributeSpec`].
pub struct AttributeSpecModel {
    pub name: Seq<char>,
    pub kind: AttributeKindModel,
}

/// The mathematical model of a [`Node`].
pub enum NodeModel {
    Element {
        name: Seq<char>,
        attributes: Seq<AttributeSpecModel>,
        children: Seq<NodeModel>,
        self_closing: bool,
    },
    Fragment { name: Seq<char>, attributes: Seq<AttributeSpecModel>, children: Seq<NodeModel> },
    Text(Seq<char>),
    Expression(Seq<char>),
    CodeBlock(Seq<char>),
}

impl View for ValueSource {
    type V = ValueSourceModel;

    open spec fn view(&self) -> ValueSourceModel {
        match self {
            ValueSource::Literal(value) => ValueSourceModel::Literal(value@),
            ValueSource::Expression(source) => ValueSourceModel::Expression(source@),
        }
    }
}

impl View for AttributeKind {
    type V = AttributeKindModel;

    open spec fn view(&self) -> AttributeKindModel {
        match self {
            AttributeKind::Boolean => AttributeKindModel::Boolean,
            AttributeKind::Conditional(source) => AttributeKindModel::Conditional(source@),
            AttributeKind::Valued(value) => AttributeKindModel::Valued(value@),
        }
    }
}

impl View for AttributeSpec {
    type V = AttributeSpecModel;

    open spec fn view(&self) -> AttributeSpecModel {
        AttributeSpecModel { name: self.name@, kind: self.kind@ }
    }
}

/// The models of a list of declared attributes.
pub open spec fn specs_model(specs: Seq<AttributeSpec>) -> Seq<AttributeSpecModel> {
    specs.map_values(|spec: AttributeSpec| spec@)
}

/// The model of a node.
pub open spec fn node_model(node: Node) -> NodeModel
    decreases node,
{
    match node {
        Node::Element { name, attributes, children, self_closing } => NodeModel::Element {
            name: name@,
            attributes: specs_model(attributes@),
            children: nodes_model(children@),
            self_closing,
        },
        Node::Fragment { name, attributes, children } => NodeModel::Fragment {
            name: name@,
            attributes: specs_model(attributes@),
            children: nodes_model(children@),
        },
        Node::Text(lit) => NodeModel::Text(lit@),
        Node::Expression(source) => NodeModel::Expression(source@),
        Node::CodeBlock(source) => NodeModel::CodeBlock(source@),
    }
}

/// The models of a list of nodes.
pub open spec fn nodes_model(nodes: Seq<Node>) -> Seq<NodeModel>
    decreases nodes,
{
    Seq::new(
        nodes.len(),
        |i: int|
            if 0 <= i < nodes.len() {
                node_model(nodes[i])
            } else {
                NodeModel::Text(Seq::empty())
            },
    )
}

impl View for Node {
    type V = NodeModel;

    open spec fn view(&self) -> NodeModel {
        node_model(*self)
    }
}

} // verus!
