//! The generator: from a template and the values bound for one invocation to
//! a plan of writer calls, in the order of the document.

use crate::ast::{
    nodes_model, specs_model, AttributeKind, AttributeKindModel, AttributeSpec, AttributeSpecModel, Node, NodeModel, ValueSource, ValueSourceModel,
};
use crate::bindings::{bindings_model, find_binding, Binding, BindingModel, Env, Value, ValueModel};
use crate::html::{ops_text, Attribute, AttributeModel, HtmlWriter, Op};
use crate::procedure::{ops_view, renderable_ops, Procedure, Renderable, WriterOp};
use vstd::prelude::*;

verus! {

/// Why a component refused a call.
#[derive(Clone, Copy, Debug, PartialEq, Eq, Structural)]
pub enum InvocationError {
    /// An attribute that the component requires is missing or has no value.
    MissingAttribute,
    /// The component was given an attribute that it does not take.
    UnexpectedAttribute,
    /// The template that makes up the component's body cannot be expanded.
    InvalidTemplate,
}

/// Why no plan could be made.
#[derive(Clone, Copy, Debug, PartialEq, Eq, Structural)]
pub enum RenderError {
    /// A piece of host code has no binding.
    Unbound,
    /// A piece of host code is bound to a value of another kind than its
    /// place asks for.
    Mismatch,
    /// A fragment names a component that is not known.
    UnknownComponent,
    /// A component refused the call.
    Invocation(InvocationError),
}

/// A set of components. A component takes the evaluated attributes of a
/// fragment and the procedure that renders the fragment's children, and
/// returns a renderable value.
pub trait Components {
    /// What the component called `name` makes of its arguments: `None` where
    /// no component has that name.
    spec fn outcome(
        &self,
        name: Seq<char>,
        attributes: Seq<AttributeModel>,
        children: Seq<Op>,
    ) -> Option<Result<Seq<Op>, InvocationError>>;

    /// Calls the component called `name`.
    fn invoke(&self, name: &String, attributes: Vec<Attribute>, children: Procedure) -> (r: Option<
        Result<Renderable, InvocationError>,
    >)
        ensures
            match self.outcome(name@, attributes.deep_view(), children@) {
                None => r is None,
                Some(Err(e)) => r == Some(Err::<Renderable, InvocationError>(e)),
                Some(Ok(ops)) => match r {
                    Some(Ok(value)) => renderable_ops(value) == ops,
                    _ => false,
                },
            },
    ;
}

/// What one declared attribute contributes to an open tag: one pair, or
/// nothing where a condition is false or a value is absent.
pub open spec fn attribute_of(spec: AttributeSpecModel, env: Seq<BindingModel>) -> Result<
    Seq<AttributeModel>,
    RenderError,
> {
    match spec.kind {
        AttributeKindModel::Boolean => Ok(seq![(spec.name, None)]),
        AttributeKindModel::Conditional(source) => match find_binding(env, source) {
            Some(ValueModel::Flag(true)) => Ok(seq![(spec.name, None)]),
            Some(ValueModel::Flag(false)) => Ok(Seq::empty()),
            Some(_) => Err(RenderError::Mismatch),
            None => Err(RenderError::Unbound),
        },
        AttributeKindModel::Valued(ValueSourceModel::Literal(value)) => Ok(
            seq![(spec.name, Some(value))],
        ),
        AttributeKindModel::Valued(ValueSourceModel::Expression(source)) => match find_binding(
            env,
            source,
        ) {
            Some(ValueModel::Text(Some(value))) => Ok(seq![(spec.name, Some(value))]),
            Some(ValueModel::Text(None)) => Ok(Seq::empty()),
            Some(_) => Err(RenderError::Mismatch),
            None => Err(RenderError::Unbound),
        },
    }
}

/// What the first `n` declared attributes contribute, in the order of their
/// declaration; the first failure in that order, if there is one.
pub open spec fn attributes_of(
    specs: Seq<AttributeSpecModel>,
    n: nat,
    env: Seq<BindingModel>,
) -> Result<Seq<AttributeModel>, RenderError>
    decreases n,
{
    if n == 0 || n > specs.len() {
        Ok(Seq::empty())
    } else {
        match attributes_of(specs, (n - 1) as nat, env) {
            Err(e) => Err(e),
            Ok(before) => match attribute_of(specs[n - 1], env) {
                Err(e) => Err(e),
                Ok(one) => Ok(before + one),
            },
        }
    }
}

/// `first` followed by what `rest` yields.
pub open spec fn then_ops(first: Seq<Op>, rest: Result<Seq<Op>, RenderError>) -> Result<
    Seq<Op>,
    RenderError,
> {
    match rest {
        Ok(ops) => Ok(first + ops),
        Err(e) => Err(e),
    }
}

/// The writer calls of an element: the open tag and, unless the element is
/// self-closing, the children's calls and the close tag.
pub open spec fn element_ops(
    name: Seq<char>,
    attributes: Seq<AttributeModel>,
    children: Seq<Op>,
    self_closing: bool,
) -> Seq<Op> {
    if self_closing {
        seq![Op::Open { tag: name, attributes, single: true }]
    } else {
        seq![Op::Open { tag: name, attributes, single: false }] + children + seq![
            Op::Close { tag: name },
        ]
    }
}

/// The plan of one node under the bindings in sight.
pub open spec fn plan_of_node<C: Components>(
    node: NodeModel,
    env: Seq<BindingModel>,
    components: C,
) -> Result<Seq<Op>, RenderError>
    decreases node, 0nat,
{
    match node {
        NodeModel::Element { name, attributes, children, self_closing } => match attributes_of(
            attributes,
            attributes.len(),
            env,
        ) {
            Err(e) => Err(e),
            Ok(attrs) => if self_closing {
                Ok(element_ops(name, attrs, Seq::empty(), true))
            } else {
                match plan_of_list(children, 0, env, components) {
                    Err(e) => Err(e),
                    Ok(inner) => Ok(element_ops(name, attrs, inner, false)),
                }
            },
        },
        NodeModel::Fragment { name, attributes, children } => match attributes_of(
            attributes,
            attributes.len(),
            env,
        ) {
            Err(e) => Err(e),
            Ok(attrs) => match plan_of_list(children, 0, env, components) {
                Err(e) => Err(e),
                Ok(inner) => match components.outcome(name, attrs, inner) {
                    None => Err(RenderError::UnknownComponent),
                    Some(Err(e)) => Err(RenderError::Invocation(e)),
                    Some(Ok(ops)) => Ok(ops),
                },
            },
        },
        NodeModel::Text(lit) => Ok(seq![Op::Text { lit }]),
        NodeModel::Expression(source) => match find_binding(env, source) {
            Some(ValueModel::Render(ops)) => Ok(ops),
            Some(_) => Err(RenderError::Mismatch),
            None => Err(RenderError::Unbound),
        },
        NodeModel::CodeBlock(_) => Ok(Seq::empty()),
    }
}

/// The plan of the nodes of a child list from position `from` on. A code
/// block puts its names in sight of the siblings after it, and of nothing
/// outside the list.
pub open spec fn plan_of_list<C: Components>(
    nodes: Seq<NodeModel>,
    from: nat,
    env: Seq<BindingModel>,
    components: C,
) -> Result<Seq<Op>, RenderError>
    decreases nodes, nodes.len() - from,
{
    if from >= nodes.len() {
        Ok(Seq::empty())
    } else {
        match nodes[from as int] {
            NodeModel::CodeBlock(source) => match find_binding(env, source) {
                Some(ValueModel::Names(names)) => plan_of_list(
                    nodes,
                    from + 1,
                    names + env,
                    components,
                ),
                Some(_) => Err(RenderError::Mismatch),
                None => Err(RenderError::Unbound),
            },
            node => match plan_of_node(node, env, components) {
                Err(e) => Err(e),
                Ok(first) => then_ops(first, plan_of_list(nodes, from + 1, env, components)),
            },
        }
    }
}

/// Once a declared attribute has failed, the failure stays the result however
/// many more attributes are taken in.
pub proof fn attributes_failure_persists(
    specs: Seq<AttributeSpecModel>,
    n: nat,
    m: nat,
    env: Seq<BindingModel>,
)
    requires
        n <= m <= specs.len(),
        attributes_of(specs, n, env) is Err,
    ensures
        attributes_of(specs, m, env) == attributes_of(specs, n, env),
    decreases m,
{
    if n < m {
        attributes_failure_persists(specs, n, (m - 1) as nat, env);
    }
}

/// Evaluates the declared attributes in the order of their declaration, each
/// bound expression once.
pub fn evaluate_attributes(specs: &Vec<AttributeSpec>, env: &Env) -> (r: Result<
    Vec<Attribute>,
    RenderError,
>)
    ensures
        match attributes_of(specs_model(specs@), specs@.len(), env@) {
            Ok(attributes) => match r {
                Ok(list) => list.deep_view() == attributes,
                Err(_) => false,
            },
            Err(e) => r == Err::<Vec<Attribute>, RenderError>(e),
        },
{
    let ghost models = specs_model(specs@);
    let mut list: Vec<Attribute> = Vec::new();
    let mut i: usize = 0;
    assert(list.deep_view() =~= Seq::<AttributeModel>::empty());
    while i < specs.len()
        invariant
            i <= specs.len(),
            models == specs_model(specs@),
            attributes_of(models, i as nat, env@) == Ok::<Seq<AttributeModel>, RenderError>(
                list.deep_view(),
            ),
        decreases specs.len() - i,
    {
        let spec = &specs[i];
        let ghost before = list.deep_view();
        let ghost one = attribute_of(spec@, env@);
        assert(models[i as int] == spec@);
        assert(attributes_of(models, (i + 1) as nat, env@) == match one {
            Err(e) => Err::<Seq<AttributeModel>, RenderError>(e),
            Ok(pairs) => Ok(before + pairs),
        });
        proof {
            if one is Err {
                attributes_failure_persists(models, (i + 1) as nat, models.len(), env@);
            }
        }
        match &spec.kind {
            AttributeKind::Boolean => {
                list.push((spec.name.clone(), None));
                assert(list.deep_view() =~= before + seq![(spec.name@, None::<Seq<char>>)]);
            },
            AttributeKind::Conditional(source) => {
                match env.find(source) {
                    Some(Value::Flag(flag)) => {
                        if *flag {
                            list.push((spec.name.clone(), None));
                            assert(list.deep_view() =~= before + seq![
                                (spec.name@, None::<Seq<char>>),
                            ]);
                        } else {
                            assert(list.deep_view() =~= before + Seq::<AttributeModel>::empty());
                        }
                    },
                    Some(_) => {
                        return Err(RenderError::Mismatch);
                    },
                    None => {
                        return Err(RenderError::Unbound);
                    },
                }
            },
            AttributeKind::Valued(ValueSource::Literal(value)) => {
                list.push((spec.name.clone(), Some(value.clone())));
                assert(list.deep_view() =~= before + seq![(spec.name@, Some(value@))]);
            },
            AttributeKind::Valued(ValueSource::Expression(source)) => {
                match env.find(source) {
                    Some(Value::Text(Some(value))) => {
                        list.push((spec.name.clone(), Some(value.clone())));
                        assert(list.deep_view() =~= before + seq![(spec.name@, Some(value@))]);
                    },
                    Some(Value::Text(None)) => {
                        assert(list.deep_view() =~= before + Seq::<AttributeModel>::empty());
                    },
                    Some(_) => {
                        return Err(RenderError::Mismatch);
                    },
                    None => {
                        return Err(RenderError::Unbound);
                    },
                }
            },
        }
        i += 1;
    }
    Ok(list)
}

/// Whether `r` reports what `expected` says: on success the plan has grown
/// from `before` to `after` by the expected calls; a failure is the expected
/// one.
pub open spec fn extends_plan(
    r: Result<(), RenderError>,
    before: Seq<WriterOp>,
    after: Seq<WriterOp>,
    expected: Result<Seq<Op>, RenderError>,
) -> bool {
    match expected {
        Ok(ops) => r is Ok && ops_view(after) == ops_view(before) + ops,
        Err(e) => r == Err::<(), RenderError>(e),
    }
}

/// Appends the plan of one node to `plan`.
pub fn compile_node<C: Components>(
    node: &Node,
    env: &Env,
    components: &C,
    plan: &mut Vec<WriterOp>,
) -> (r: Result<(), RenderError>)
    ensures
        extends_plan(r, old(plan)@, final(plan)@, plan_of_node(node@, env@, *components)),
    decreases node, 0nat,
{
    match node {
        Node::Element { name, attributes, children, self_closing } => {
            let attrs = match evaluate_attributes(attributes, env) {
                Ok(attrs) => attrs,
                Err(e) => {
                    return Err(e);
                },
            };
            let ghost model = attrs.deep_view();
            plan.push(WriterOp::Open { tag: name.clone(), attributes: attrs, single: *self_closing });
            let ghost opened = ops_view(plan@);
            assert(opened =~= ops_view(old(plan)@) + seq![
                Op::Open { tag: name@, attributes: model, single: *self_closing },
            ]);
            if !*self_closing {
                match compile_list(children, 0, env, components, plan) {
                    Ok(()) => {},
                    Err(e) => {
                        return Err(e);
                    },
                }
                let ghost inner = plan_of_list(
                    nodes_model(children@),
                    0,
                    env@,
                    *components,
                )->Ok_0;
                let ghost filled = ops_view(plan@);
                assert(filled == opened + inner);
                plan.push(WriterOp::Close { tag: name.clone() });
                assert(ops_view(plan@) =~= filled.push(Op::Close { tag: name@ }));
                assert(ops_view(plan@) =~= ops_view(old(plan)@) + element_ops(
                    name@,
                    model,
                    inner,
                    false,
                ));
            }
            Ok(())
        },
        Node::Fragment { name, attributes, children } => {
            let attrs = match evaluate_attributes(attributes, env) {
                Ok(attrs) => attrs,
                Err(e) => {
                    return Err(e);
                },
            };
            let mut inner: Vec<WriterOp> = Vec::new();
            assert(ops_view(inner@) =~= Seq::<Op>::empty());
            match compile_list(children, 0, env, components, &mut inner) {
                Ok(()) => {},
                Err(e) => {
                    return Err(e);
                },
            }
            let procedure = Procedure { ops: inner };
            assert(Ok::<Seq<Op>, RenderError>(procedure@) =~= plan_of_list(
                nodes_model(children@),
                0,
                env@,
                *components,
            ));
            match components.invoke(name, attrs, procedure) {
                None => Err(RenderError::UnknownComponent),
                Some(Err(e)) => Err(RenderError::Invocation(e)),
                Some(Ok(value)) => {
                    value.record(plan);
                    Ok(())
                },
            }
        },
        Node::Text(lit) => {
            plan.push(WriterOp::Text { lit: lit.clone() });
            assert(ops_view(plan@) =~= ops_view(old(plan)@) + seq![Op::Text { lit: lit@ }]);
            Ok(())
        },
        Node::Expression(source) => match env.find(source) {
            Some(Value::Render(value)) => {
                value.record(plan);
                Ok(())
            },
            Some(_) => Err(RenderError::Mismatch),
            None => Err(RenderError::Unbound),
        },
        Node::CodeBlock(_) => {
            assert(ops_view(plan@) =~= ops_view(old(plan)@) + Seq::<Op>::empty());
            Ok(())
        },
    }
}

/// Appends to `plan` the plan of the nodes of a child list from position
/// `from` on.
pub fn compile_list<C: Components>(
    nodes: &Vec<Node>,
    from: usize,
    env: &Env,
    components: &C,
    plan: &mut Vec<WriterOp>,
) -> (r: Result<(), RenderError>)
    ensures
        extends_plan(
            r,
            old(plan)@,
            final(plan)@,
            plan_of_list(nodes_model(nodes@), from as nat, env@, *components),
        ),
    decreases nodes, nodes.len() - from,
{
    let ghost models = nodes_model(nodes@);
    let mut i: usize = from;
    let ghost done: Seq<Op> = Seq::empty();
    assert(ops_view(plan@) =~= ops_view(old(plan)@) + done);
    assert(forall|ops: Seq<Op>| done + ops =~= ops);
    while i < nodes.len()
        invariant
            from <= i,
            models == nodes_model(nodes@),
            ops_view(plan@) == ops_view(old(plan)@) + done,
            plan_of_list(models, from as nat, env@, *components) == then_ops(
                done,
                plan_of_list(models, i as nat, env@, *components),
            ),
        decreases nodes.len() - i,
    {
        proof {
            broadcast use vstd::std_specs::vec::axiom_vec_index_decreases;

            assert(decreases_to!(*nodes => nodes[i as int]));
            assert(models[i as int] == nodes@[i as int]@);
        }
        match &nodes[i] {
            Node::CodeBlock(source) => {
                return match env.find(source) {
                    Some(Value::Names(names)) => {
                        let inner = env.extend(names);
                        let ghost start = ops_view(plan@);
                        let r = compile_list(nodes, i + 1, &inner, components, plan);
                        proof {
                            let rest = plan_of_list(
                                models,
                                (i + 1) as nat,
                                bindings_model(names@) + env@,
                                *components,
                            );
                            if let Ok(ops) = rest {
                                assert(ops_view(plan@) =~= ops_view(old(plan)@) + (done + ops));
                            }
                        }
                        r
                    },
                    Some(_) => Err(RenderError::Mismatch),
                    None => Err(RenderError::Unbound),
                };
            },
            node => {
                match compile_node(node, env, components, plan) {
                    Ok(()) => {},
                    Err(e) => {
                        return Err(e);
                    },
                }
                proof {
                    let first = plan_of_node(node@, env@, *components)->Ok_0;
                    let rest = plan_of_list(models, (i + 1) as nat, env@, *components);
                    if let Ok(ops) = rest {
                        assert(done + (first + ops) =~= (done + first) + ops);
                    }
                    assert(ops_view(plan@) =~= ops_view(old(plan)@) + (done + first));
                    done = done + first;
                }
            },
        }
        i += 1;
    }
    proof {
        assert(done + Seq::<Op>::empty() =~= done);
    }
    Ok(())
}

/// Compiles a template into a render procedure: the plan of its top-level
/// nodes under `bindings`.
pub fn compile<C: Components>(nodes: &Vec<Node>, bindings: &Vec<Binding>, components: &C) -> (r:
    Result<Procedure, RenderError>)
    ensures
        match plan_of_list(nodes_model(nodes@), 0, bindings_model(bindings@), *components) {
            Ok(ops) => match r {
                Ok(procedure) => procedure@ == ops,
                Err(_) => false,
            },
            Err(e) => r == Err::<Procedure, RenderError>(e),
        },
{
    let env = Env::root(bindings);
    let mut ops: Vec<WriterOp> = Vec::new();
    assert(ops_view(ops@) =~= Seq::<Op>::empty());
    match compile_list(nodes, 0, &env, components, &mut ops) {
        Ok(()) => {
            let procedure = Procedure { ops };
            assert(Ok::<Seq<Op>, RenderError>(procedure@) =~= plan_of_list(
                nodes_model(nodes@),
                0,
                bindings_model(bindings@),
                *components,
            ));
            Ok(procedure)
        },
        Err(e) => Err(e),
    }
}

/// Renders a template into `writer`. Where no plan can be made, nothing is
/// written.
pub fn render<C: Components, W: HtmlWriter>(
    nodes: &Vec<Node>,
    bindings: &Vec<Binding>,
    components: &C,
    writer: &mut W,
) -> (r: Result<(), RenderError>)
    ensures
        match plan_of_list(nodes_model(nodes@), 0, bindings_model(bindings@), *components) {
            Ok(ops) => r is Ok && final(writer).written() == old(writer).written() + ops_text(ops),
            Err(e) => r == Err::<(), RenderError>(e) && final(writer).written() == old(
                writer,
            ).written(),
        },
{
    match compile(nodes, bindings, components) {
        Ok(procedure) => {
            procedure.run(writer);
            Ok(())
        },
        Err(e) => Err(e),
    }
}

} // verus!
