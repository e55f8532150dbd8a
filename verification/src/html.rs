//! The writer contract and the protocol of renderable values.

use vstd::prelude::*;
use vstd::string::*;

verus! {

/// An attribute as a writer receives it: a name and, for a valued attribute,
/// its value. A missing value renders the bare name.
pub type Attribute = (String, Option<String>);

/// The mathematical model of an [`Attribute`].
pub type AttributeModel = (Seq<char>, Option<Seq<char>>);

/// The text of one attribute inside an open tag: a space, the name and, where
/// a value is present, `="value"` with the value inserted as it is.
pub open spec fn attribute_text(attribute: AttributeModel) -> Seq<char> {
    match attribute.1 {
        Some(value) => seq![' '] + attribute.0 + seq!['=', '"'] + value + seq!['"'],
        None => seq![' '] + attribute.0,
    }
}

/// The text of an attribute list: the attributes' texts in the given order.
pub open spec fn attributes_text(attributes: Seq<AttributeModel>) -> Seq<char>
    decreases attributes.len(),
{
    if attributes.len() == 0 {
        Seq::empty()
    } else {
        attributes_text(attributes.drop_last()) + attribute_text(attributes.last())
    }
}

/// The text of an open tag. A self-closing tag ends in ` />`.
pub open spec fn open_tag_text(tag: Seq<char>, attributes: Seq<AttributeModel>, single: bool) -> Seq<
    char,
> {
    seq!['<'] + tag + attributes_text(attributes) + (if single {
        seq![' ', '/']
    } else {
        Seq::empty()
    }) + seq!['>']
}

/// The text of a close tag.
pub open spec fn close_tag_text(tag: Seq<char>) -> Seq<char> {
    seq!['<', '/'] + tag + seq!['>']
}

/// The text of a literal: the literal followed by a line feed.
pub open spec fn literal_text(lit: Seq<char>) -> Seq<char> {
    lit + seq!['\n']
}

/// One call of a writer, as a mathematical value.
pub enum Op {
    Open { tag: Seq<char>, attributes: Seq<AttributeModel>, single: bool },
    Close { tag: Seq<char> },
    Text { lit: Seq<char> },
}

/// The text that one writer call appends.
pub open spec fn op_text(op: Op) -> Seq<char> {
    match op {
        Op::Open { tag, attributes, single } => open_tag_text(tag, attributes, single),
        Op::Close { tag } => close_tag_text(tag),
        Op::Text { lit } => literal_text(lit),
    }
}

/// The text that a run of writer calls appends: the calls' texts in order,
/// with nothing between them.
pub open spec fn ops_text(ops: Seq<Op>) -> Seq<char>
    decreases ops.len(),
{
    if ops.len() == 0 {
        Seq::empty()
    } else {
        ops_text(ops.drop_last()) + op_text(ops.last())
    }
}

/// The text of two runs of calls, one after the other, is the two texts joined.
pub proof fn ops_text_concat(a: Seq<Op>, b: Seq<Op>)
    ensures
        ops_text(a + b) == ops_text(a) + ops_text(b),
    decreases b.len(),
{
    if b.len() == 0 {
        assert(a + b =~= a);
        assert(ops_text(b) =~= Seq::<char>::empty());
        assert(ops_text(a) + ops_text(b) =~= ops_text(a));
    } else {
        assert((a + b).drop_last() =~= a + b.drop_last());
        assert((a + b).last() == b.last());
        ops_text_concat(a, b.drop_last());
        assert(ops_text(a + b) =~= ops_text(a) + ops_text(b));
    }
}

/// A sequential, append-only sink for markup.
pub trait HtmlWriter {
    /// Everything written so far.
    spec fn written(&self) -> Seq<char>;

    /// Appends an open tag with its attributes in the given order.
    fn write_tag(&mut self, tag: &str, single: bool, attributes: Vec<Attribute>)
        ensures
            final(self).written() == old(self).written() + open_tag_text(
                tag@,
                attributes.deep_view(),
                single,
            ),
    ;

    /// Appends a close tag.
    fn write_end_tag(&mut self, tag: &str)
        ensures
            final(self).written() == old(self).written() + close_tag_text(tag@),
    ;

    /// Appends a literal and a line feed.
    fn write_string_lit(&mut self, lit: &str)
        ensures
            final(self).written() == old(self).written() + literal_text(lit@),
    ;
}

/// A writer that collects its output in a string.
pub struct WriteHtml {
    writer: String,
}

impl WriteHtml {
    /// A writer that appends to `writer`.
    pub fn new(writer: String) -> (w: Self)
        ensures
            w.written() == writer@,
    {
        WriteHtml { writer }
    }

    /// The collected output.
    pub fn into_string(self) -> (s: String)
        ensures
            s@ == self.written(),
    {
        self.writer
    }
}

impl HtmlWriter for WriteHtml {
    closed spec fn written(&self) -> Seq<char> {
        self.writer@
    }

    fn write_tag(&mut self, tag: &str, single: bool, attributes: Vec<Attribute>) {
        proof {
            reveal_strlit(" /");
            reveal_strlit("<");
            reveal_strlit(">");
        }
        let mut attr_str = String::new();
        let mut i: usize = 0;
        while i < attributes.len()
            invariant
                i <= attributes.len(),
                attr_str@ == attributes_text(attributes.deep_view().take(i as int)),
            decreases attributes.len() - i,
        {
            let ghost before = attributes.deep_view().take(i as int);
            let ghost after = attributes.deep_view().take(i + 1);
            let ghost start = attr_str@;
            proof {
                reveal_strlit(" ");
                reveal_strlit("=\"");
                reveal_strlit("\"");
            }
            assert(after.drop_last() =~= before);
            assert(after.last() == attributes@[i as int].deep_view());
            attr_str.append(" ");
            attr_str.append(attributes[i].0.as_str());
            match &attributes[i].1 {
                Some(value) => {
                    attr_str.append("=\"");
                    attr_str.append(value.as_str());
                    attr_str.append("\"");
                    assert(after.last() == (attributes@[i as int].0@, Some(value@)));
                    assert(attr_str@ =~= start + attribute_text(after.last()));
                },
                None => {
                    assert(after.last() == (attributes@[i as int].0@, None::<Seq<char>>));
                    assert(attr_str@ =~= start + attribute_text(after.last()));
                },
            }
            i += 1;
        }
        assert(attributes.deep_view().take(i as int) =~= attributes.deep_view());
        self.writer.append("<");
        self.writer.append(tag);
        self.writer.append(attr_str.as_str());
        if single {
            self.writer.append(" /");
        }
        self.writer.append(">");
        assert(self.writer@ =~= old(self).writer@ + open_tag_text(
            tag@,
            attributes.deep_view(),
            single,
        ));
    }

    fn write_end_tag(&mut self, tag: &str) {
        proof {
            reveal_strlit("</");
            reveal_strlit(">");
        }
        self.writer.append("</");
        self.writer.append(tag);
        self.writer.append(">");
        assert(self.writer@ =~= old(self).writer@ + close_tag_text(tag@));
    }

    fn write_string_lit(&mut self, lit: &str) {
        proof {
            reveal_strlit("\n");
        }
        self.writer.append(lit);
        self.writer.append("\n");
        assert(self.writer@ =~= old(self).writer@ + literal_text(lit@));
    }
}

/// A value that can write itself into a writer.
pub trait ToHtml: Sized {
    /// The writer calls that rendering this value makes, in order.
    spec fn operations(&self) -> Seq<Op>;

    /// Renders the value into `writer`.
    fn to_html<W: HtmlWriter>(self, writer: &mut W)
        ensures
            final(writer).written() == old(writer).written() + ops_text(self.operations()),
    ;
}

impl ToHtml for &str {
    open spec fn operations(&self) -> Seq<Op> {
        seq![Op::Text { lit: self@ }]
    }

    fn to_html<W: HtmlWriter>(self, writer: &mut W) {
        writer.write_string_lit(self);
        proof {
            single_op_text(Op::Text { lit: self@ });
        }
    }
}

impl ToHtml for String {
    open spec fn operations(&self) -> Seq<Op> {
        seq![Op::Text { lit: self@ }]
    }

    fn to_html<W: HtmlWriter>(self, writer: &mut W) {
        writer.write_string_lit(self.as_str());
        proof {
            single_op_text(Op::Text { lit: self@ });
        }
    }
}

impl<T: ToHtml> ToHtml for Option<T> {
    open spec fn operations(&self) -> Seq<Op> {
        match self {
            Some(inner) => inner.operations(),
            None => Seq::empty(),
        }
    }

    fn to_html<W: HtmlWriter>(self, writer: &mut W) {
        match self {
            Some(inner) => inner.to_html(writer),
            None => {
                assert(old(writer).written() + ops_text(Seq::<Op>::empty()) =~= old(
                    writer,
                ).written());
            },
        }
    }
}

/// The writer calls of a sequence of renderable values: those of each element
/// in list order.
pub open spec fn seq_operations<T: ToHtml>(items: Seq<T>) -> Seq<Op>
    decreases items.len(),
{
    if items.len() == 0 {
        Seq::empty()
    } else {
        seq_operations(items.drop_last()) + items.last().operations()
    }
}

impl<T: ToHtml> ToHtml for Vec<T> {
    open spec fn operations(&self) -> Seq<Op> {
        seq_operations(self@)
    }

    fn to_html<W: HtmlWriter>(self, writer: &mut W) {
        let ghost items = self@;
        assert(old(writer).written() + ops_text(seq_operations(items.take(0))) =~= old(
            writer,
        ).written());
        for el in it: self.into_iter()
            invariant
                it.seq() == items,
                writer.written() == old(writer).written() + ops_text(
                    seq_operations(items.take(it.index() as int)),
                ),
        {
            let ghost before = items.take(it.index() as int);
            let ghost after = items.take(it.index() + 1);
            let ghost start = writer.written();
            assert(after.drop_last() =~= before);
            assert(after.last() == el);
            el.to_html(writer);
            proof {
                ops_text_concat(seq_operations(before), el.operations());
                assert(writer.written() =~= old(writer).written() + ops_text(
                    seq_operations(after),
                ));
            }
        }
        assert(items.take(items.len() as int) =~= items);
    }
}

/// The text of a single writer call, seen as a run of one.
pub proof fn single_op_text(op: Op)
    ensures
        ops_text(seq![op]) == op_text(op),
{
    assert(seq![op].drop_last() =~= Seq::<Op>::empty());
    assert(ops_text(Seq::<Op>::empty()) =~= Seq::<char>::empty());
    assert(ops_text(seq![op]) =~= op_text(op));
}

} // verus!
