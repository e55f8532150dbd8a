//! Render procedures: recorded runs of writer calls, and the closed family of
//! renderable values built from them.

use crate::html::{ops_text, Attribute, HtmlWriter, Op, ToHtml};
use vstd::prelude::*;
use vstd::string::*;

verus! {

/// One recorded writer call.
#[derive(Debug)]
pub enum WriterOp {
    Open { tag: String, attributes: Vec<Attribute>, single: bool },
    Close { tag: String },
    Text { lit: String },
}

impl View for WriterOp {
    type V = Op;

    open spec fn view(&self) -> Op {
        match self {
            WriterOp::Open { tag, attributes, single } => Op::Open {
                tag: tag@,
                attributes: attributes.deep_view(),
                single: *single,
            },
            WriterOp::Close { tag } => Op::Close { tag: tag@ },
            WriterOp::Text { lit } => Op::Text { lit: lit@ },
        }
    }
}

/// The calls that a list of recorded calls stands for.
pub open spec fn ops_view(ops: Seq<WriterOp>) -> Seq<Op> {
    ops.map_values(|op: WriterOp| op@)
}

/// A copy of an attribute list.
pub fn clone_attributes(attributes: &Vec<Attribute>) -> (copy: Vec<Attribute>)
    ensures
        copy.deep_view() == attributes.deep_view(),
{
    let mut copy: Vec<Attribute> = Vec::new();
    let mut i: usize = 0;
    while i < attributes.len()
        invariant
            i <= attributes.len(),
            copy.len() == i,
            copy.deep_view() == attributes.deep_view().take(i as int),
        decreases attributes.len() - i,
    {
        let name = attributes[i].0.clone();
        let value = match &attributes[i].1 {
            Some(v) => Some(v.clone()),
            None => None,
        };
        let ghost before = copy.deep_view();
        copy.push((name, value));
        assert(copy@[i as int].deep_view() == attributes@[i as int].deep_view());
        assert(copy.deep_view() =~= before.push(attributes@[i as int].deep_view()));
        assert(copy.deep_view() =~= attributes.deep_view().take(i + 1));
        i += 1;
    }
    assert(attributes.deep_view().take(i as int) =~= attributes.deep_view());
    copy
}

impl WriterOp {
    /// A copy of the call.
    pub fn duplicate(&self) -> (copy: WriterOp)
        ensures
            copy@ == self@,
    {
        match self {
            WriterOp::Open { tag, attributes, single } => WriterOp::Open {
                tag: tag.clone(),
                attributes: clone_attributes(attributes),
                single: *single,
            },
            WriterOp::Close { tag } => WriterOp::Close { tag: tag.clone() },
            WriterOp::Text { lit } => WriterOp::Text { lit: lit.clone() },
        }
    }
}

/// A deferred render procedure: a plan of writer calls that can be run
/// against any writer, any number of times.
#[derive(Debug)]
pub struct Procedure {
    pub ops: Vec<WriterOp>,
}

impl View for Procedure {
    type V = Seq<Op>;

    open spec fn view(&self) -> Seq<Op> {
        ops_view(self.ops@)
    }
}

impl Procedure {
    /// The procedure that writes nothing.
    pub fn new() -> (p: Self)
        ensures
            p@ == Seq::<Op>::empty(),
    {
        let p = Procedure { ops: Vec::new() };
        assert(p@ =~= Seq::<Op>::empty());
        p
    }

    /// Appends the recorded calls to `plan`.
    pub fn record(&self, plan: &mut Vec<WriterOp>)
        ensures
            ops_view(final(plan)@) == ops_view(old(plan)@) + self@,
    {
        let mut i: usize = 0;
        assert(ops_view(plan@) =~= ops_view(old(plan)@) + self@.take(0));
        while i < self.ops.len()
            invariant
                i <= self.ops.len(),
                ops_view(plan@) == ops_view(old(plan)@) + self@.take(i as int),
            decreases self.ops.len() - i,
        {
            let ghost before = ops_view(plan@);
            plan.push(self.ops[i].duplicate());
            assert(ops_view(plan@) =~= before.push(self.ops@[i as int]@));
            assert(ops_view(plan@) =~= ops_view(old(plan)@) + self@.take(i + 1));
            i += 1;
        }
        assert(self@.take(i as int) =~= self@);
    }

    /// Makes the recorded calls on `writer`, in order.
    pub fn run<W: HtmlWriter>(&self, writer: &mut W)
        ensures
            final(writer).written() == old(writer).written() + ops_text(self@),
    {
        let mut i: usize = 0;
        assert(old(writer).written() + ops_text(self@.take(0)) =~= old(writer).written());
        while i < self.ops.len()
            invariant
                i <= self.ops.len(),
                writer.written() == old(writer).written() + ops_text(self@.take(i as int)),
            decreases self.ops.len() - i,
        {
            let ghost before = self@.take(i as int);
            let ghost after = self@.take(i + 1);
            assert(after.drop_last() =~= before);
            assert(after.last() == self.ops@[i as int]@);
            match &self.ops[i] {
                WriterOp::Open { tag, attributes, single } => {
                    writer.write_tag(tag.as_str(), *single, clone_attributes(attributes));
                },
                WriterOp::Close { tag } => {
                    writer.write_end_tag(tag.as_str());
                },
                WriterOp::Text { lit } => {
                    writer.write_string_lit(lit.as_str());
                },
            }
            assert(writer.written() =~= old(writer).written() + ops_text(after));
            i += 1;
        }
        assert(self@.take(i as int) =~= self@);
    }
}

/// A procedure is a writer too: it records the calls made on it, so that
/// they can be made again on another writer.
impl HtmlWriter for Procedure {
    open spec fn written(&self) -> Seq<char> {
        ops_text(self@)
    }

    fn write_tag(&mut self, tag: &str, single: bool, attributes: Vec<Attribute>)
        ensures
            final(self)@ == old(self)@.push(
                Op::Open { tag: tag@, attributes: attributes.deep_view(), single },
            ),
    {
        self.ops.push(WriterOp::Open { tag: String::from_str(tag), attributes, single });
        proof {
            let op = Op::Open { tag: tag@, attributes: attributes.deep_view(), single };
            assert(self@ =~= old(self)@.push(op));
            assert(self@.drop_last() =~= old(self)@);
        }
    }

    fn write_end_tag(&mut self, tag: &str)
        ensures
            final(self)@ == old(self)@.push(Op::Close { tag: tag@ }),
    {
        self.ops.push(WriterOp::Close { tag: String::from_str(tag) });
        proof {
            assert(self@ =~= old(self)@.push(Op::Close { tag: tag@ }));
            assert(self@.drop_last() =~= old(self)@);
        }
    }

    fn write_string_lit(&mut self, lit: &str)
        ensures
            final(self)@ == old(self)@.push(Op::Text { lit: lit@ }),
    {
        self.ops.push(WriterOp::Text { lit: String::from_str(lit) });
        proof {
            assert(self@ =~= old(self)@.push(Op::Text { lit: lit@ }));
            assert(self@.drop_last() =~= old(self)@);
        }
    }
}

impl ToHtml for Procedure {
    open spec fn operations(&self) -> Seq<Op> {
        self@
    }

    fn to_html<W: HtmlWriter>(self, writer: &mut W) {
        self.run(writer);
    }
}

/// The closed family of renderable values.
#[derive(Debug)]
pub enum Renderable {
    /// A text literal.
    Text(String),
    /// A value that may be absent; an absent one writes nothing.
    Optional(Option<Box<Renderable>>),
    /// Values rendered one after the other.
    Sequence(Vec<Renderable>),
    /// A deferred procedure.
    Deferred(Procedure),
}

/// The writer calls that rendering `r` makes.
pub open spec fn renderable_ops(r: Renderable) -> Seq<Op>
    decreases r,
{
    match r {
        Renderable::Text(lit) => seq![Op::Text { lit: lit@ }],
        Renderable::Optional(None) => Seq::empty(),
        Renderable::Optional(Some(inner)) => renderable_ops(*inner),
        Renderable::Sequence(items) => renderables_ops(items@, items@.len()),
        Renderable::Deferred(procedure) => procedure@,
    }
}

/// The writer calls that rendering the first `n` of `items` makes.
pub open spec fn renderables_ops(items: Seq<Renderable>, n: nat) -> Seq<Op>
    decreases items, n,
{
    if n == 0 || n > items.len() {
        Seq::empty()
    } else {
        renderables_ops(items, (n - 1) as nat) + renderable_ops(items[n - 1])
    }
}

impl Renderable {
    /// Appends to `plan` the writer calls that rendering this value makes.
    pub fn record(&self, plan: &mut Vec<WriterOp>)
        ensures
            ops_view(final(plan)@) == ops_view(old(plan)@) + renderable_ops(*self),
        decreases self,
    {
        match self {
            Renderable::Text(lit) => {
                plan.push(WriterOp::Text { lit: lit.clone() });
                assert(ops_view(plan@) =~= ops_view(old(plan)@) + renderable_ops(*self));
            },
            Renderable::Optional(None) => {
                assert(ops_view(plan@) =~= ops_view(old(plan)@) + renderable_ops(*self));
            },
            Renderable::Optional(Some(inner)) => {
                inner.record(plan);
            },
            Renderable::Sequence(items) => {
                let mut i: usize = 0;
                assert(ops_view(plan@) =~= ops_view(old(plan)@) + renderables_ops(items@, 0));
                while i < items.len()
                    invariant
                        i <= items.len(),
                        *self == Renderable::Sequence(*items),
                        ops_view(plan@) == ops_view(old(plan)@) + renderables_ops(
                            items@,
                            i as nat,
                        ),
                    decreases items.len() - i,
                {
                    proof {
                        broadcast use vstd::std_specs::vec::axiom_vec_index_decreases;

                        assert(decreases_to!(*items => items[i as int]));
                        match self {
                            Renderable::Sequence(v) => {
                                assert(decreases_to!(*self => *v));
                            },
                            _ => {},
                        }
                    }
                    items[i].record(plan);
                    assert(ops_view(plan@) =~= ops_view(old(plan)@) + renderables_ops(
                        items@,
                        (i + 1) as nat,
                    ));
                    i += 1;
                }
            },
            Renderable::Deferred(procedure) => {
                procedure.record(plan);
            },
        }
    }
}

impl ToHtml for Renderable {
    open spec fn operations(&self) -> Seq<Op> {
        renderable_ops(*self)
    }

    fn to_html<W: HtmlWriter>(self, writer: &mut W) {
        let mut ops: Vec<WriterOp> = Vec::new();
        self.record(&mut ops);
        let procedure = Procedure { ops };
        assert(procedure@ =~= renderable_ops(self));
        procedure.run(writer);
    }
}

} // verus!
