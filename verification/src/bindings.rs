//! The values that one invocation binds to the host code of a template.

use crate::html::Op;
use crate::procedure::{renderable_ops, Renderable};
use vstd::prelude::*;
use vstd::string::*;

verus! {

/// What a piece of host code evaluates to.
#[derive(Debug)]
pub enum Value {
    /// The value of an expression node.
    Render(Renderable),
    /// The value of the condition of a conditional attribute.
    Flag(bool),
    /// The value of the expression of a valued attribute.
    Text(Option<String>),
    /// The names that a code block introduces.
    Names(Vec<Binding>),
}

/// The value of one piece of host code, which is identified by its source text.
#[derive(Debug)]
pub struct Binding {
    pub source: String,
    pub value: Value,
}

/// The mathematical model of a [`Value`]. A renderable value stands in it as
/// the writer calls that rendering it makes.
pub enum ValueModel {
    Render(Seq<Op>),
    Flag(bool),
    Text(Option<Seq<char>>),
    Names(Seq<BindingModel>),
}

/// The mathematical model of a [`Binding`].
pub struct BindingModel {
    pub source: Seq<char>,
    pub value: ValueModel,
}

/// The model of a value.
pub open spec fn value_model(value: Value) -> ValueModel
    decreases value,
{
    match value {
        Value::Render(renderable) => ValueModel::Render(renderable_ops(renderable)),
        Value::Flag(flag) => ValueModel::Flag(flag),
        Value::Text(Some(text)) => ValueModel::Text(Some(text@)),
        Value::Text(None) => ValueModel::Text(None),
        Value::Names(names) => ValueModel::Names(bindings_model(names@)),
    }
}

/// The models of a list of bindings.
pub open spec fn bindings_model(bindings: Seq<Binding>) -> Seq<BindingModel>
    decreases bindings,
{
    Seq::new(
        bindings.len(),
        |i: int|
            if 0 <= i < bindings.len() {
                BindingModel { source: bindings[i].source@, value: value_model(bindings[i].value) }
            } else {
                BindingModel { source: Seq::empty(), value: ValueModel::Flag(false) }
            },
    )
}

impl View for Value {
    type V = ValueModel;

    open spec fn view(&self) -> ValueModel {
        value_model(*self)
    }
}

impl View for Binding {
    type V = BindingModel;

    open spec fn view(&self) -> BindingModel {
        BindingModel { source: self.source@, value: self.value@ }
    }
}

/// The binding of `source` to a renderable value that makes the calls `ops`.
pub open spec fn render_binding(source: Seq<char>, ops: Seq<Op>) -> BindingModel {
    BindingModel { source, value: ValueModel::Render(ops) }
}

/// The binding of `source` to an optional text.
pub open spec fn text_binding(source: Seq<char>, text: Option<Seq<char>>) -> BindingModel {
    BindingModel { source, value: ValueModel::Text(text) }
}

/// The binding of `source` to a truth value.
pub open spec fn flag_binding(source: Seq<char>, flag: bool) -> BindingModel {
    BindingModel { source, value: ValueModel::Flag(flag) }
}

/// The binding of the code block `source` to the names that it introduces.
pub open spec fn names_binding(source: Seq<char>, names: Seq<BindingModel>) -> BindingModel {
    BindingModel { source, value: ValueModel::Names(names) }
}

impl Binding {
    /// Binds `source` to a renderable value.
    pub fn render(source: &str, value: Renderable) -> (binding: Binding)
        ensures
            binding@ == render_binding(source@, renderable_ops(value)),
    {
        Binding { source: String::from_str(source), value: Value::Render(value) }
    }

    /// Binds `source` to an optional text.
    pub fn text(source: &str, text: Option<String>) -> (binding: Binding)
        ensures
            binding@ == text_binding(source@, text.deep_view()),
    {
        Binding { source: String::from_str(source), value: Value::Text(text) }
    }

    /// Binds `source` to a truth value.
    pub fn flag(source: &str, flag: bool) -> (binding: Binding)
        ensures
            binding@ == flag_binding(source@, flag),
    {
        Binding { source: String::from_str(source), value: Value::Flag(flag) }
    }

    /// Binds the code block `source` to the names that it introduces.
    pub fn names(source: &str, names: Vec<Binding>) -> (binding: Binding)
        ensures
            binding@ == names_binding(source@, bindings_model(names@)),
    {
        Binding { source: String::from_str(source), value: Value::Names(names) }
    }
}

/// Adds a binding at the end of a list.
pub fn push_binding(bindings: &mut Vec<Binding>, binding: Binding)
    ensures
        bindings_model(final(bindings)@) == bindings_model(old(bindings)@).push(binding@),
{
    bindings.push(binding);
    assert(bindings_model(bindings@) =~= bindings_model(old(bindings)@).push(binding@));
}

/// The first binding of `source` in `bindings`, if there is one.
pub open spec fn find_binding(bindings: Seq<BindingModel>, source: Seq<char>) -> Option<ValueModel>
    decreases bindings.len(),
{
    if bindings.len() == 0 {
        None
    } else if bindings[0].source == source {
        Some(bindings[0].value)
    } else {
        find_binding(bindings.drop_first(), source)
    }
}

/// A chain of scopes. The bindings of an inner scope hide those of the scopes
/// around it.
pub struct Env<'a> {
    pub local: &'a Vec<Binding>,
    pub outer: Option<&'a Env<'a>>,
}

impl<'a> View for Env<'a> {
    type V = Seq<BindingModel>;

    /// All bindings in sight, innermost scope first.
    open spec fn view(&self) -> Seq<BindingModel>
        decreases self,
    {
        match self.outer {
            Some(outer) => bindings_model(self.local@) + outer@,
            None => bindings_model(self.local@),
        }
    }
}

/// Whether `found` is the value that the model finds.
pub open spec fn found_is(found: Option<&Value>, expected: Option<ValueModel>) -> bool {
    match expected {
        Some(model) => match found {
            Some(value) => value@ == model,
            None => false,
        },
        None => found is None,
    }
}

/// The first binding of `source` in a list.
fn find_local<'a>(bindings: &'a Vec<Binding>, source: &String) -> (found: Option<&'a Value>)
    ensures
        found_is(found, find_binding(bindings_model(bindings@), source@)),
{
    let ghost all = bindings_model(bindings@);
    let mut i: usize = 0;
    assert(all.skip(0) =~= all);
    while i < bindings.len()
        invariant
            i <= bindings.len(),
            all == bindings_model(bindings@),
            find_binding(all, source@) == find_binding(all.skip(i as int), source@),
        decreases bindings.len() - i,
    {
        assert(all.skip(i as int)[0] == all[i as int]);
        assert(all.skip(i as int).drop_first() =~= all.skip(i + 1));
        if bindings[i].source == *source {
            return Some(&bindings[i].value);
        }
        i += 1;
    }
    assert(all.skip(i as int).len() == 0);
    None
}

impl<'a> Env<'a> {
    /// The scope that holds `bindings` and nothing around it.
    pub fn root(bindings: &'a Vec<Binding>) -> (env: Self)
        ensures
            env@ == bindings_model(bindings@),
    {
        Env { local: bindings, outer: None }
    }

    /// The scope that holds `bindings` inside `self`.
    pub fn extend(&'a self, bindings: &'a Vec<Binding>) -> (env: Self)
        ensures
            env@ == bindings_model(bindings@) + self@,
    {
        Env { local: bindings, outer: Some(self) }
    }

    /// Looks `source` up, innermost scope first.
    pub fn find(&self, source: &String) -> (found: Option<&'a Value>)
        ensures
            found_is(found, find_binding(self@, source@)),
        decreases self,
    {
        proof {
            let local = bindings_model(self.local@);
            find_binding_concat(
                local,
                match self.outer {
                    Some(outer) => outer@,
                    None => Seq::empty(),
                },
                source@,
            );
            if self.outer is None {
                assert(local + Seq::<BindingModel>::empty() =~= local);
            }
        }
        match find_local(self.local, source) {
            Some(value) => Some(value),
            None => match self.outer {
                Some(outer) => outer.find(source),
                None => None,
            },
        }
    }
}

/// Looking a name up in two lists, one after the other: the first list
/// decides where it binds the name, the second where it does not.
pub proof fn find_binding_concat(
    inner: Seq<BindingModel>,
    outer: Seq<BindingModel>,
    source: Seq<char>,
)
    ensures
        find_binding(inner + outer, source) == match find_binding(inner, source) {
            Some(value) => Some(value),
            None => find_binding(outer, source),
        },
    decreases inner.len(),
{
    if inner.len() == 0 {
        assert(inner + outer =~= outer);
    } else {
        assert((inner + outer)[0] == inner[0]);
        assert((inner + outer).drop_first() =~= inner.drop_first() + outer);
        find_binding_concat(inner.drop_first(), outer, source);
    }
}

} // verus!
