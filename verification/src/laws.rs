//! What holds of every template, every binding and every writer.

use crate::ast::{AttributeKindModel, AttributeSpecModel, NodeModel, ValueSourceModel};
use crate::bindings::{find_binding, BindingModel, ValueModel};
use crate::generator::{
    attribute_of, attributes_of, element_ops, plan_of_list, plan_of_node, Components, RenderError,
};
use crate::html::{
    attributes_text, close_tag_text, open_tag_text, ops_text, ops_text_concat, seq_operations,
    single_op_text, AttributeModel, HtmlWriter, Op, ToHtml,
};
use crate::nesting::{
    bindings_well_nested, components_keep_nesting, list_plan_is_well_nested, well_nested,
};
use crate::procedure::{renderable_ops, renderables_ops, Procedure, Renderable};
use vstd::prelude::*;

verus! {

/// A self-closing element renders as its open tag alone: its plan holds one
/// call, no close call among them, and its children are not rendered.
pub proof fn self_closing_element_is_never_closed<C: Components>(
    node: NodeModel,
    env: Seq<BindingModel>,
    components: C,
)
    requires
        node matches NodeModel::Element { self_closing, .. } && self_closing,
        plan_of_node(node, env, components) is Ok,
    ensures
        attributes_of(node->Element_attributes, node->Element_attributes.len(), env) is Ok,
        plan_of_node(node, env, components) == Ok::<Seq<Op>, RenderError>(
            seq![
                Op::Open {
                    tag: node->Element_name,
                    attributes: attributes_of(
                        node->Element_attributes,
                        node->Element_attributes.len(),
                        env,
                    )->Ok_0,
                    single: true,
                },
            ],
        ),
        forall|i: int|
            0 <= i < plan_of_node(node, env, components)->Ok_0.len() ==> !(plan_of_node(
                node,
                env,
                components,
            )->Ok_0[i] is Close),
{
}

/// An element that is not self-closing renders as one open tag, then its
/// children in the order of the document, then one close tag of the same
/// name; and that close tag is the one that matches the open tag, the
/// children between them being well nested.
pub proof fn element_encloses_its_children<C: Components>(
    node: NodeModel,
    env: Seq<BindingModel>,
    components: C,
)
    requires
        node matches NodeModel::Element { self_closing, .. } && !self_closing,
        plan_of_node(node, env, components) is Ok,
        bindings_well_nested(env),
        components_keep_nesting(components),
    ensures
        ({
            let plan = plan_of_node(node, env, components)->Ok_0;
            let attributes = attributes_of(
                node->Element_attributes,
                node->Element_attributes.len(),
                env,
            );
            let children = plan_of_list(node->Element_children, 0, env, components);
            &&& attributes is Ok
            &&& children is Ok
            &&& well_nested(children->Ok_0)
            &&& plan == seq![
                Op::Open { tag: node->Element_name, attributes: attributes->Ok_0, single: false },
            ] + children->Ok_0 + seq![Op::Close { tag: node->Element_name }]
            &&& ops_text(plan) == open_tag_text(node->Element_name, attributes->Ok_0, false)
                + ops_text(children->Ok_0) + close_tag_text(node->Element_name)
        }),
{
    let name = node->Element_name;
    let attributes = attributes_of(
        node->Element_attributes,
        node->Element_attributes.len(),
        env,
    )->Ok_0;
    let children = plan_of_list(node->Element_children, 0, env, components)->Ok_0;
    list_plan_is_well_nested(node->Element_children, 0, env, components);
    element_text(name, attributes, children, false);
}

/// The text of an element: the open tag and, unless it is self-closing, the
/// children's text and the close tag.
pub proof fn element_text(
    name: Seq<char>,
    attributes: Seq<AttributeModel>,
    children: Seq<Op>,
    self_closing: bool,
)
    ensures
        ops_text(element_ops(name, attributes, children, self_closing)) == if self_closing {
            open_tag_text(name, attributes, true)
        } else {
            open_tag_text(name, attributes, false) + ops_text(children) + close_tag_text(name)
        },
{
    let open_call = Op::Open { tag: name, attributes, single: self_closing };
    single_op_text(open_call);
    if !self_closing {
        let close_call = Op::Close { tag: name };
        single_op_text(close_call);
        ops_text_concat(seq![open_call], children);
        ops_text_concat(seq![open_call] + children, seq![close_call]);
    }
}

/// The text of two attribute lists, one after the other, is the two texts
/// joined.
pub proof fn attributes_text_concat(a: Seq<AttributeModel>, b: Seq<AttributeModel>)
    ensures
        attributes_text(a + b) == attributes_text(a) + attributes_text(b),
    decreases b.len(),
{
    if b.len() == 0 {
        assert(a + b =~= a);
        assert(attributes_text(a) + attributes_text(b) =~= attributes_text(a));
    } else {
        assert((a + b).drop_last() =~= a + b.drop_last());
        assert((a + b).last() == b.last());
        attributes_text_concat(a, b.drop_last());
        assert(attributes_text(a + b) =~= attributes_text(a) + attributes_text(b));
    }
}

/// Attributes are rendered in the order of their declaration: of two declared
/// attributes the first comes first in the open tag, whatever their names.
pub proof fn attributes_keep_declaration_order(
    first: AttributeSpecModel,
    second: AttributeSpecModel,
    env: Seq<BindingModel>,
)
    requires
        attribute_of(first, env) is Ok,
        attribute_of(second, env) is Ok,
    ensures
        ({
            let a = attribute_of(first, env)->Ok_0;
            let b = attribute_of(second, env)->Ok_0;
            &&& attributes_of(seq![first, second], 2, env) == Ok::<
                Seq<AttributeModel>,
                RenderError,
            >(a + b)
            &&& attributes_text(a + b) == attributes_text(a) + attributes_text(b)
        }),
{
    reveal_with_fuel(attributes_of, 3);
    let a = attribute_of(first, env)->Ok_0;
    let b = attribute_of(second, env)->Ok_0;
    assert(Seq::<AttributeModel>::empty() + a =~= a);
    attributes_text_concat(a, b);
}

/// A valued attribute whose value is absent leaves no trace in the open tag.
pub proof fn absent_value_omits_attribute(
    spec: AttributeSpecModel,
    source: Seq<char>,
    env: Seq<BindingModel>,
)
    requires
        spec.kind == AttributeKindModel::Valued(ValueSourceModel::Expression(source)),
        find_binding(env, source) == Some(ValueModel::Text(None)),
    ensures
        attribute_of(spec, env) == Ok::<Seq<AttributeModel>, RenderError>(
            Seq::empty(),
        ),
        attributes_text(attribute_of(spec, env)->Ok_0) == Seq::<char>::empty(),
{
}

/// An absent optional value renders as nothing.
pub proof fn absent_value_renders_nothing<T: ToHtml>()
    ensures
        None::<T>.operations() == Seq::<Op>::empty(),
        renderable_ops(Renderable::Optional(None)) == Seq::<Op>::empty(),
        ops_text(Seq::<Op>::empty()) == Seq::<char>::empty(),
{
}

/// A sequence of renderable values renders as its elements' renderings in
/// list order, with nothing between them.
pub proof fn sequence_renders_in_order<T: ToHtml>(a: Seq<T>, b: Seq<T>)
    ensures
        seq_operations(a + b) == seq_operations(a) + seq_operations(b),
        ops_text(seq_operations(a + b)) == ops_text(seq_operations(a)) + ops_text(
            seq_operations(b),
        ),
    decreases b.len(),
{
    if b.len() == 0 {
        assert(a + b =~= a);
        assert(seq_operations(a) + seq_operations(b) =~= seq_operations(a));
    } else {
        assert((a + b).drop_last() =~= a + b.drop_last());
        assert((a + b).last() == b.last());
        sequence_renders_in_order(a, b.drop_last());
        assert(seq_operations(a + b) =~= seq_operations(a) + seq_operations(b));
    }
    ops_text_concat(seq_operations(a), seq_operations(b));
}

/// Taking one more element of a sequence of renderable values appends that
/// element's rendering to the text.
pub proof fn sequence_value_renders_in_order(items: Seq<Renderable>, n: nat)
    requires
        n < items.len(),
    ensures
        renderables_ops(items, n + 1) == renderables_ops(items, n) + renderable_ops(
            items[n as int],
        ),
        ops_text(renderables_ops(items, n + 1)) == ops_text(renderables_ops(items, n)) + ops_text(
            renderable_ops(items[n as int]),
        ),
{
    ops_text_concat(renderables_ops(items, n), renderable_ops(items[n as int]));
}

/// Running one procedure against two writers that hold the same text leaves
/// the same text in both.
pub proof fn repeated_runs_agree<V: HtmlWriter, W: HtmlWriter>(
    procedure: Procedure,
    first_before: V,
    first_after: V,
    second_before: W,
    second_after: W,
)
    requires
        first_before.written() == second_before.written(),
        first_after.written() == first_before.written() + ops_text(procedure@),
        second_after.written() == second_before.written() + ops_text(procedure@),
    ensures
        first_after.written() == second_after.written(),
{
}

} // verus!
