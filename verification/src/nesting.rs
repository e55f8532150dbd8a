//! Tag nesting: every plan that the generator makes closes exactly the tags
//! that it opened, innermost first.

use crate::ast::NodeModel;
use crate::bindings::{find_binding, BindingModel, ValueModel};
use crate::generator::{element_ops, plan_of_list, plan_of_node, Components};
use crate::html::{AttributeModel, Op};
use vstd::prelude::*;

verus! {

/// The tags that are open after one call, outermost first, when `open` were
/// open before it; `None` where a close call does not name the innermost of
/// them.
pub open spec fn open_tags_after_call(op: Op, open: Seq<Seq<char>>) -> Option<Seq<Seq<char>>> {
    match op {
        Op::Open { tag, attributes, single } => if single {
            Some(open)
        } else {
            Some(open.push(tag))
        },
        Op::Close { tag } => if open.len() > 0 && open.last() == tag {
            Some(open.drop_last())
        } else {
            None
        },
        Op::Text { lit } => Some(open),
    }
}

/// The tags that are open after `ops`, outermost first, when `open` were open
/// before; `None` where a close call does not name the innermost open tag.
pub open spec fn open_tags_after(ops: Seq<Op>, open: Seq<Seq<char>>) -> Option<Seq<Seq<char>>>
    decreases ops.len(),
{
    if ops.len() == 0 {
        Some(open)
    } else {
        match open_tags_after(ops.drop_last(), open) {
            None => None,
            Some(now) => open_tags_after_call(ops.last(), now),
        }
    }
}

/// A run of one call does what the call does.
pub proof fn open_tags_after_one(op: Op, open: Seq<Seq<char>>)
    ensures
        open_tags_after(seq![op], open) == open_tags_after_call(op, open),
{
    reveal_with_fuel(open_tags_after, 2);
    assert(seq![op].drop_last() =~= Seq::<Op>::empty());
}

/// Every close call names the innermost tag still open, and no tag is left
/// open at the end.
pub open spec fn well_nested(ops: Seq<Op>) -> bool {
    open_tags_after(ops, Seq::empty()) == Some(Seq::<Seq<char>>::empty())
}

/// The tags open after two runs of calls are those open after the second run,
/// started from where the first run ended.
pub proof fn open_tags_after_concat(a: Seq<Op>, b: Seq<Op>, open: Seq<Seq<char>>)
    ensures
        open_tags_after(a + b, open) == match open_tags_after(a, open) {
            None => None,
            Some(now) => open_tags_after(b, now),
        },
    decreases b.len(),
{
    if b.len() == 0 {
        assert(a + b =~= a);
    } else {
        assert((a + b).drop_last() =~= a + b.drop_last());
        assert((a + b).last() == b.last());
        open_tags_after_concat(a, b.drop_last(), open);
    }
}

/// A run of calls that is in order with some tags open is in order with more
/// tags open beneath them, and leaves those as they were.
pub proof fn open_tags_after_beneath(
    ops: Seq<Op>,
    beneath: Seq<Seq<char>>,
    open: Seq<Seq<char>>,
    now: Seq<Seq<char>>,
)
    requires
        open_tags_after(ops, open) == Some(now),
    ensures
        open_tags_after(ops, beneath + open) == Some(beneath + now),
    decreases ops.len(),
{
    if ops.len() > 0 {
        let before = open_tags_after(ops.drop_last(), open)->Some_0;
        open_tags_after_beneath(ops.drop_last(), beneath, open, before);
        match ops.last() {
            Op::Open { tag, attributes, single } => {
                if !single {
                    assert((beneath + before).push(tag) =~= beneath + before.push(tag));
                }
            },
            Op::Close { tag } => {
                assert((beneath + before).drop_last() =~= beneath + before.drop_last());
                assert((beneath + before).last() == before.last());
            },
            Op::Text { lit } => {},
        }
    }
}

/// A well-nested run of calls leaves the open tags as it found them.
pub proof fn well_nested_keeps_open_tags(ops: Seq<Op>, open: Seq<Seq<char>>)
    requires
        well_nested(ops),
    ensures
        open_tags_after(ops, open) == Some(open),
{
    open_tags_after_beneath(ops, open, Seq::empty(), Seq::empty());
    assert(open + Seq::<Seq<char>>::empty() =~= open);
}

/// Two well-nested runs of calls, one after the other, are well nested.
pub proof fn well_nested_concat(a: Seq<Op>, b: Seq<Op>)
    requires
        well_nested(a),
        well_nested(b),
    ensures
        well_nested(a + b),
{
    open_tags_after_concat(a, b, Seq::empty());
}

/// An element around well-nested children is well nested: its close call
/// meets its own open call.
pub proof fn element_is_well_nested(
    name: Seq<char>,
    attributes: Seq<AttributeModel>,
    children: Seq<Op>,
    self_closing: bool,
)
    requires
        well_nested(children),
    ensures
        well_nested(element_ops(name, attributes, children, self_closing)),
{
    let open_call = seq![Op::Open { tag: name, attributes, single: self_closing }];
    let empty = Seq::<Seq<char>>::empty();
    open_tags_after_one(open_call[0], empty);
    if !self_closing {
        let inside = empty.push(name);
        well_nested_keeps_open_tags(children, inside);
        open_tags_after_concat(open_call, children, empty);
        let close_call = seq![Op::Close { tag: name }];
        open_tags_after_one(close_call[0], inside);
        assert(inside.drop_last() =~= empty);
        open_tags_after_concat(open_call + children, close_call, empty);
    }
}

/// Whether a bound value renders as a well-nested run of calls; for the names
/// of a code block, whether each of them does.
pub open spec fn value_well_nested(value: ValueModel) -> bool
    decreases value,
{
    match value {
        ValueModel::Render(ops) => well_nested(ops),
        ValueModel::Names(names) => bindings_well_nested(names),
        ValueModel::Flag(_) => true,
        ValueModel::Text(_) => true,
    }
}

/// Whether every value in a list of bindings is well nested.
pub open spec fn bindings_well_nested(bindings: Seq<BindingModel>) -> bool
    decreases bindings,
{
    forall|i: int| 0 <= i < bindings.len() ==> value_well_nested(#[trigger] bindings[i].value)
}

/// Whether every component answers well-nested children with a well-nested
/// run of calls.
pub open spec fn components_keep_nesting<C: Components>(components: C) -> bool {
    forall|name: Seq<char>, attributes: Seq<AttributeModel>, children: Seq<Op>|
        well_nested(children) ==> match #[trigger] components.outcome(name, attributes, children) {
            Some(Ok(ops)) => well_nested(ops),
            _ => true,
        }
}

/// A value found among well-nested bindings is well nested.
pub proof fn found_value_is_well_nested(bindings: Seq<BindingModel>, source: Seq<char>)
    requires
        bindings_well_nested(bindings),
    ensures
        match find_binding(bindings, source) {
            Some(value) => value_well_nested(value),
            None => true,
        },
    decreases bindings.len(),
{
    if bindings.len() > 0 {
        assert(value_well_nested(bindings[0].value));
        if bindings[0].source != source {
            let rest = bindings.drop_first();
            assert forall|i: int| 0 <= i < rest.len() implies value_well_nested(
                #[trigger] rest[i].value,
            ) by {
                assert(rest[i] == bindings[i + 1]);
            }
            found_value_is_well_nested(rest, source);
        }
    }
}

/// The plan of a node is well nested, where the bound values and the
/// components' answers are.
pub proof fn node_plan_is_well_nested<C: Components>(
    node: NodeModel,
    env: Seq<BindingModel>,
    components: C,
)
    requires
        bindings_well_nested(env),
        components_keep_nesting(components),
        plan_of_node(node, env, components) is Ok,
    ensures
        well_nested(plan_of_node(node, env, components)->Ok_0),
    decreases node, 0nat,
{
    match node {
        NodeModel::Element { name, attributes, children, self_closing } => {
            let attrs = crate::generator::attributes_of(attributes, attributes.len(), env)->Ok_0;
            if self_closing {
                element_is_well_nested(name, attrs, Seq::empty(), true);
            } else {
                list_plan_is_well_nested(children, 0, env, components);
                let inner = plan_of_list(children, 0, env, components)->Ok_0;
                element_is_well_nested(name, attrs, inner, false);
            }
        },
        NodeModel::Fragment { name, attributes, children } => {
            list_plan_is_well_nested(children, 0, env, components);
        },
        NodeModel::Text(lit) => {
            open_tags_after_one(Op::Text { lit }, Seq::empty());
        },
        NodeModel::Expression(source) => {
            found_value_is_well_nested(env, source);
        },
        NodeModel::CodeBlock(_) => {},
    }
}

/// The plan of a child list is well nested, where the bound values and the
/// components' answers are.
pub proof fn list_plan_is_well_nested<C: Components>(
    nodes: Seq<NodeModel>,
    from: nat,
    env: Seq<BindingModel>,
    components: C,
)
    requires
        bindings_well_nested(env),
        components_keep_nesting(components),
        plan_of_list(nodes, from, env, components) is Ok,
    ensures
        well_nested(plan_of_list(nodes, from, env, components)->Ok_0),
    decreases nodes, nodes.len() - from,
{
    if from < nodes.len() {
        match nodes[from as int] {
            NodeModel::CodeBlock(source) => {
                found_value_is_well_nested(env, source);
                let names = find_binding(env, source)->Some_0->Names_0;
                let inner = names + env;
                assert forall|i: int| 0 <= i < inner.len() implies value_well_nested(
                    #[trigger] inner[i].value,
                ) by {
                    if i < names.len() {
                        assert(inner[i] == names[i]);
                    } else {
                        assert(inner[i] == env[i - names.len()]);
                    }
                }
                list_plan_is_well_nested(nodes, from + 1, inner, components);
            },
            node => {
                node_plan_is_well_nested(node, env, components);
                list_plan_is_well_nested(nodes, from + 1, env, components);
                well_nested_concat(
                    plan_of_node(node, env, components)->Ok_0,
                    plan_of_list(nodes, from + 1, env, components)->Ok_0,
                );
            },
        }
    }
}

} // verus!
