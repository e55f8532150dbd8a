//! The printer: from a tree back to a text, and the proof that the parser
//! reads a printed tree as the tree it was printed from.

use crate::text::{
    group_end, group_end_bounds, hashes_end, hashes_end_bounds, is_name_char, is_name_start, is_space, literal_end,
    literal_starts, name_chars_end, name_chars_end_bounds, name_end, name_end_bounds, path_end,
    quoted_end, raw_end, skip_spaces, skip_spaces_back, skip_spaces_bounds, trimmed,
};
use crate::ast::{AttributeKindModel, AttributeSpecModel, NodeModel, ValueSourceModel};
use crate::host::{HostSyntax, PlainSyntax};
use crate::parser::{
    parse_attribute, parse_attributes, parse_expression, parse_group, parse_literal, parse_node,
    parse_nodes, parse_template, tag_node, SyntaxError,
};
use vstd::prelude::*;

verus! {

/// Whether the text `t` stands in `s` at position `i`.
pub open spec fn occurs(s: Seq<char>, i: int, t: Seq<char>) -> bool {
    0 <= i && i + t.len() <= s.len() && s.subrange(i, i + t.len()) == t
}

/// A text that stands in `s` holds the characters of `s`.
pub proof fn occurs_at(s: Seq<char>, i: int, t: Seq<char>, k: int)
    requires
        occurs(s, i, t),
        0 <= k < t.len(),
    ensures
        s[i + k] == t[k],
{
    assert(s.subrange(i, i + t.len())[k] == s[i + k]);
}

/// Where two texts joined stand, the first stands and the second stands
/// after it.
pub proof fn occurs_split(s: Seq<char>, i: int, a: Seq<char>, b: Seq<char>)
    requires
        occurs(s, i, a + b),
    ensures
        occurs(s, i, a),
        occurs(s, i + a.len(), b),
{
    let whole = s.subrange(i, i + (a + b).len());
    assert(s.subrange(i, i + a.len()) =~= whole.subrange(0, a.len() as int));
    assert(whole.subrange(0, a.len() as int) =~= a);
    assert(s.subrange(i + a.len(), i + a.len() + b.len()) =~= whole.subrange(
        a.len() as int,
        (a + b).len() as int,
    ));
    assert(whole.subrange(a.len() as int, (a + b).len() as int) =~= b);
}

/// Whether no blank stands at position `j` of `s`.
pub open spec fn no_blank_at(s: Seq<char>, j: int) -> bool {
    !(0 <= j < s.len() && is_space(s[j]))
}

/// Where no blank stands, skipping blanks stays.
pub proof fn skip_spaces_stays(s: Seq<char>, j: int)
    requires
        no_blank_at(s, j),
    ensures
        skip_spaces(s, j) == j,
{
}

/// A run of name characters that stands in `s` ends in `s` where it ends in
/// the text, if it ends inside the text or no name character follows the
/// text.
pub proof fn name_chars_end_within(s: Seq<char>, i: int, t: Seq<char>, k: int)
    requires
        occurs(s, i, t),
        0 <= k <= t.len(),
        name_chars_end(t, k) < t.len() || i + t.len() == s.len() || !is_name_char(
            s[i + t.len()],
        ),
    ensures
        name_chars_end(s, i + k) == i + name_chars_end(t, k),
    decreases t.len() - k,
{
    name_chars_end_bounds(t, k);
    if k < t.len() {
        occurs_at(s, i, t, k);
        if is_name_char(t[k]) {
            name_chars_end_within(s, i, t, k + 1);
        }
    }
}

/// A name that stands in `s` ends in `s` where it ends in the text, if it
/// ends inside the text or no name character follows the text.
pub proof fn name_end_within(s: Seq<char>, i: int, t: Seq<char>, k: int)
    requires
        occurs(s, i, t),
        0 <= k < t.len(),
        name_end(t, k) < t.len() || i + t.len() == s.len() || !is_name_char(s[i + t.len()]),
    ensures
        name_end(s, i + k) == i + name_end(t, k),
{
    occurs_at(s, i, t, k);
    if is_name_start(t[k]) {
        name_chars_end_within(s, i, t, k + 1);
    }
}

/// Whether `t` is a name: the name that begins it takes all of it.
pub open spec fn is_name(t: Seq<char>) -> bool {
    t.len() > 0 && name_end(t, 0) == t.len()
}

/// Whether `t` is a path: the path that begins it takes all of it.
pub open spec fn is_path(t: Seq<char>) -> bool {
    t.len() > 0 && path_end(t, 0) == t.len()
}

/// A name begins with a character that may begin a name.
pub proof fn name_begins(t: Seq<char>)
    requires
        is_name(t),
    ensures
        is_name_start(t[0]),
{
}

/// A path begins with a character that may begin a name.
pub proof fn path_begins(t: Seq<char>)
    requires
        is_path(t),
    ensures
        is_name_start(t[0]),
{
    name_end_bounds(t, 0);
}

/// A path that stands in `s` and takes the text to its end ends in `s` where
/// the text ends, if neither a name character nor a colon follows the text.
pub proof fn path_end_within(s: Seq<char>, i: int, t: Seq<char>, k: int)
    requires
        occurs(s, i, t),
        0 <= k < t.len(),
        path_end(t, k) == t.len(),
        i + t.len() == s.len() || (!is_name_char(s[i + t.len()]) && s[i + t.len()] != ':'),
    ensures
        path_end(s, i + k) == i + t.len(),
    decreases t.len() - k,
{
    name_end_bounds(t, k);
    let j = name_end(t, k);
    name_end_within(s, i, t, k);
    if k < j && j + 2 < t.len() && t[j] == ':' && t[j + 1] == ':' && is_name_start(t[j + 2]) {
        occurs_at(s, i, t, j);
        occurs_at(s, i, t, j + 1);
        occurs_at(s, i, t, j + 2);
        path_end_within(s, i, t, j + 2);
    } else {
        assert(j == t.len());
    }
}

/// A quoted string literal that stands in `s` ends in `s` where it ends in
/// the text.
pub proof fn quoted_end_within(s: Seq<char>, i: int, t: Seq<char>, k: int)
    requires
        occurs(s, i, t),
        0 <= k,
        quoted_end(t, k) is Some,
    ensures
        quoted_end(s, i + k) == Some(i + quoted_end(t, k)->Some_0),
    decreases t.len() - k,
{
    occurs_at(s, i, t, k);
    if t[k] != '"' {
        if t[k] == '\\' {
            quoted_end_within(s, i, t, k + 2);
        } else {
            quoted_end_within(s, i, t, k + 1);
        }
    }
}

/// A run of hashes that stands in `s` is at least as long in `s` as in the
/// text, and as long where it ends inside the text.
pub proof fn hashes_end_within(s: Seq<char>, i: int, t: Seq<char>, k: int)
    requires
        occurs(s, i, t),
        0 <= k <= t.len(),
    ensures
        hashes_end(s, i + k) >= i + hashes_end(t, k),
        hashes_end(t, k) < t.len() ==> hashes_end(s, i + k) == i + hashes_end(t, k),
    decreases t.len() - k,
{
    hashes_end_bounds(t, k);
    hashes_end_bounds(s, i + k);
    if k < t.len() {
        occurs_at(s, i, t, k);
        if t[k] == '#' {
            hashes_end_within(s, i, t, k + 1);
        }
    }
}

/// After a run of hashes that goes to the end of the text no raw string
/// literal ends.
pub proof fn raw_end_in_hashes(t: Seq<char>, k: int, n: int)
    requires
        0 <= k,
        hashes_end(t, k) >= t.len(),
    ensures
        raw_end(t, k, n) is None,
    decreases t.len() - k,
{
    if k < t.len() {
        raw_end_in_hashes(t, k + 1, n);
    }
}

/// A raw string literal that stands in `s` ends in `s` where it ends in the
/// text.
pub proof fn raw_end_within(s: Seq<char>, i: int, t: Seq<char>, k: int, n: int)
    requires
        occurs(s, i, t),
        0 <= k,
        0 <= n,
        raw_end(t, k, n) is Some,
    ensures
        raw_end(s, i + k, n) == Some(i + raw_end(t, k, n)->Some_0),
    decreases t.len() - k,
{
    occurs_at(s, i, t, k);
    hashes_end_within(s, i, t, k + 1);
    hashes_end_bounds(t, k + 1);
    if t[k] == '"' && hashes_end(t, k + 1) - (k + 1) >= n {
    } else {
        if t[k] == '"' && hashes_end(t, k + 1) >= t.len() {
            raw_end_in_hashes(t, k + 1, n);
        }
        raw_end_within(s, i, t, k + 1, n);
    }
}

/// Whether `t` is a string literal: the literal that begins it takes all of
/// it.
pub open spec fn is_literal(t: Seq<char>) -> bool {
    literal_end(t, 0) == Some(t.len() as int)
}

/// A string literal that stands in `s` begins and ends in `s` where the text
/// does.
pub proof fn literal_end_within(s: Seq<char>, i: int, t: Seq<char>)
    requires
        occurs(s, i, t),
        is_literal(t),
    ensures
        literal_starts(s, i),
        literal_end(s, i) == Some(i + t.len()),
{
    occurs_at(s, i, t, 0);
    if t[0] == '"' {
        quoted_end_within(s, i, t, 1);
    } else {
        occurs_at(s, i, t, 1);
        hashes_end_within(s, i, t, 1);
        hashes_end_bounds(t, 1);
        let q = hashes_end(t, 1);
        occurs_at(s, i, t, q);
        raw_end_within(s, i, t, q + 1, q - 1);
    }
}

/// At the last position of a text a group can only close.
pub proof fn group_end_at_last(
    t: Seq<char>,
    j: int,
    open: char,
    close: char,
    depth: nat,
    quoted: bool,
)
    requires
        0 <= j,
        j + 1 == t.len(),
        group_end(t, j, open, close, depth, quoted) is Some,
    ensures
        !quoted,
        depth == 0,
        t[j] == close,
        group_end(t, j, open, close, depth, quoted) == Some(j),
{
    group_end_bounds(t, j + 1, open, close, depth, true);
    group_end_bounds(t, j + 1, open, close, depth, false);
    group_end_bounds(t, j + 1, open, close, depth + 1, false);
    if depth > 0 {
        group_end_bounds(t, j + 1, open, close, (depth - 1) as nat, false);
    }
    group_end_bounds(t, j + 2, open, close, depth, true);
    group_end_bounds(t, j + 3, open, close, depth, false);
    group_end_bounds(t, j + 4, open, close, depth, false);
}

/// Inside a group that stands in `s`, the closing delimiter lies in `s` where
/// it lies in the text, if no single quote follows the text.
pub proof fn group_end_within(
    s: Seq<char>,
    i: int,
    t: Seq<char>,
    k: int,
    open: char,
    close: char,
    depth: nat,
    quoted: bool,
)
    requires
        occurs(s, i, t),
        0 <= k,
        close != '\\',
        close != '\'',
        close != '"',
        open != close,
        group_end(t, k, open, close, depth, quoted) is Some,
        i + t.len() == s.len() || s[i + t.len()] != '\'',
    ensures
        group_end(s, i + k, open, close, depth, quoted) == Some(
            i + group_end(t, k, open, close, depth, quoted)->Some_0,
        ),
    decreases t.len() - k,
{
    occurs_at(s, i, t, k);
    if k + 1 < t.len() {
        occurs_at(s, i, t, k + 1);
    }
    if k + 2 < t.len() {
        occurs_at(s, i, t, k + 2);
    }
    if k + 3 < t.len() {
        occurs_at(s, i, t, k + 3);
    }
    let c = t[k];
    if quoted {
        if c == '\\' {
            group_end_within(s, i, t, k + 2, open, close, depth, true);
        } else {
            group_end_within(s, i, t, k + 1, open, close, depth, c != '"');
        }
    } else if c == close {
        if depth != 0 {
            group_end_within(s, i, t, k + 1, open, close, (depth - 1) as nat, false);
        }
    } else if c == open {
        group_end_within(s, i, t, k + 1, open, close, depth + 1, false);
    } else if c == '"' {
        group_end_within(s, i, t, k + 1, open, close, depth, true);
    } else if c == '\'' && k + 2 < t.len() && t[k + 1] != '\\' && t[k + 2] == '\'' {
        group_end_within(s, i, t, k + 3, open, close, depth, false);
    } else if c == '\'' && k + 3 < t.len() && t[k + 1] == '\\' && t[k + 3] == '\'' {
        group_end_within(s, i, t, k + 4, open, close, depth, false);
    } else {
        group_end_within(s, i, t, k + 1, open, close, depth, false);
        if c == '\'' && k + 2 == t.len() {
            group_end_at_last(t, k + 1, open, close, depth, false);
        }
    }
}

/// Whether `t` has no blank at either end.
pub open spec fn is_trimmed(t: Seq<char>) -> bool {
    t.len() == 0 || (!is_space(t[0]) && !is_space(t.last()))
}

/// A text without blanks at its ends that stands in `s` is what trimming
/// leaves of it.
pub proof fn trimmed_within(s: Seq<char>, i: int, t: Seq<char>)
    requires
        occurs(s, i, t),
        is_trimmed(t),
    ensures
        trimmed(s, i, i + t.len()) == t,
{
    skip_spaces_bounds(s, i);
    if t.len() > 0 {
        occurs_at(s, i, t, 0);
        occurs_at(s, i, t, t.len() - 1);
    }
}

/// Whether `t` can stand in a group of host code between `open` and `close`:
/// it has no blank at either end, and the group that holds it closes right
/// after it.
pub open spec fn is_group_text(t: Seq<char>, open: char, close: char) -> bool {
    is_trimmed(t) && group_end(t + seq![close], 0, open, close, 0, false) == Some(t.len() as int)
}

/// The group of host code that holds `source`.
pub open spec fn print_group(source: Seq<char>, open: char, close: char) -> Seq<char> {
    seq![open] + source + seq![close]
}

/// The text of one attribute. A literal value is written as `encode` gives
/// it.
pub open spec fn print_attribute(
    attribute: AttributeSpecModel,
    encode: spec_fn(Seq<char>) -> Seq<char>,
) -> Seq<char> {
    match attribute.kind {
        AttributeKindModel::Boolean => attribute.name,
        AttributeKindModel::Conditional(source) => attribute.name + print_group(source, '[', ']'),
        AttributeKindModel::Valued(ValueSourceModel::Literal(value)) => attribute.name + seq![':']
            + encode(value),
        AttributeKindModel::Valued(ValueSourceModel::Expression(source)) => attribute.name + seq![
            ':',
        ] + print_group(source, '{', '}'),
    }
}

/// The text of an attribute list from its first attribute to the closing
/// bracket: each attribute with a comma after it.
pub open spec fn print_attributes(
    attributes: Seq<AttributeSpecModel>,
    encode: spec_fn(Seq<char>) -> Seq<char>,
) -> Seq<char>
    decreases attributes.len(),
{
    if attributes.len() == 0 {
        seq![')']
    } else {
        print_attribute(attributes[0], encode) + seq![','] + print_attributes(
            attributes.drop_first(),
            encode,
        )
    }
}

/// Whether `source` can be printed as a group that holds an expression.
pub open spec fn printable_expression<H: HostSyntax>(
    source: Seq<char>,
    open: char,
    close: char,
    host: H,
) -> bool {
    is_group_text(source, open, close) && host.is_expression(source)
}

/// Whether `encode` gives for `value` a literal that the host language reads
/// as `value`.
pub open spec fn printable_literal<H: HostSyntax>(
    value: Seq<char>,
    host: H,
    encode: spec_fn(Seq<char>) -> Seq<char>,
) -> bool {
    is_literal(encode(value)) && host.literal_value(encode(value)) == Some(value)
}

/// Whether an attribute can be printed: its name is a name, and its host
/// code and its literal can be printed.
pub open spec fn printable_attribute<H: HostSyntax>(
    attribute: AttributeSpecModel,
    host: H,
    encode: spec_fn(Seq<char>) -> Seq<char>,
) -> bool {
    is_name(attribute.name) && match attribute.kind {
        AttributeKindModel::Boolean => true,
        AttributeKindModel::Conditional(source) => printable_expression(source, '[', ']', host),
        AttributeKindModel::Valued(ValueSourceModel::Literal(value)) => printable_literal(
            value,
            host,
            encode,
        ),
        AttributeKindModel::Valued(ValueSourceModel::Expression(source)) => printable_expression(
            source,
            '{',
            '}',
            host,
        ),
    }
}

/// Whether every attribute of a list can be printed.
pub open spec fn printable_attributes<H: HostSyntax>(
    attributes: Seq<AttributeSpecModel>,
    host: H,
    encode: spec_fn(Seq<char>) -> Seq<char>,
) -> bool {
    forall|i: int|
        0 <= i < attributes.len() ==> printable_attribute(#[trigger] attributes[i], host, encode)
}

/// A printed group that holds an expression is read as that expression.
pub proof fn printed_expression_parses<H: HostSyntax>(
    s: Seq<char>,
    i: int,
    source: Seq<char>,
    open: char,
    close: char,
    host: H,
)
    requires
        occurs(s, i, print_group(source, open, close) + seq![',']),
        is_group_text(source, open, close),
        close != '\\',
        close != '\'',
        close != '"',
        open != close,
    ensures
        s[i] == open,
        parse_group(s, i, open, close) == Ok::<(Seq<char>, int), SyntaxError>(
            (source, i + source.len() + 2),
        ),
        host.is_expression(source) ==> parse_expression(s, i, open, close, host) == Ok::<
            (Seq<char>, int),
            SyntaxError,
        >((source, i + source.len() + 2)),
{
    let group = print_group(source, open, close);
    occurs_split(s, i, group, seq![',']);
    occurs_at(s, i + group.len(), seq![','], 0);
    assert(group =~= seq![open] + (source + seq![close]));
    occurs_split(s, i, seq![open], source + seq![close]);
    occurs_at(s, i, seq![open], 0);
    occurs_split(s, i + 1, source, seq![close]);
    group_end_within(s, i + 1, source + seq![close], 0, open, close, 0, false);
    trimmed_within(s, i + 1, source);
}

/// A printed attribute is read as the attribute it was printed from.
pub proof fn printed_attribute_parses<H: HostSyntax>(
    s: Seq<char>,
    i: int,
    attribute: AttributeSpecModel,
    host: H,
    encode: spec_fn(Seq<char>) -> Seq<char>,
)
    requires
        occurs(s, i, print_attribute(attribute, encode) + seq![',']),
        printable_attribute(attribute, host, encode),
    ensures
        parse_attribute(s, i, host) == Ok::<(AttributeSpecModel, int), SyntaxError>(
            (attribute, i + print_attribute(attribute, encode).len()),
        ),
{
    let name = attribute.name;
    let n = name.len() as int;
    let text = print_attribute(attribute, encode);
    occurs_split(s, i, text, seq![',']);
    occurs_at(s, i + text.len(), seq![','], 0);
    match attribute.kind {
        AttributeKindModel::Boolean => {
            name_end_within(s, i, name, 0);
            assert(s.subrange(i, i + n) == name);
        },
        AttributeKindModel::Conditional(source) => {
            let group = print_group(source, '[', ']');
            occurs_split(s, i, name, group);
            assert(name + group + seq![','] =~= name + (group + seq![',']));
            occurs_split(s, i, name, group + seq![',']);
            printed_expression_parses(s, i + n, source, '[', ']', host);
            name_end_within(s, i, name, 0);
            assert(s.subrange(i, i + n) == name);
        },
        AttributeKindModel::Valued(ValueSourceModel::Literal(value)) => {
            let literal = encode(value);
            occurs_split(s, i, name + seq![':'], literal);
            occurs_split(s, i, name, seq![':']);
            occurs_at(s, i + n, seq![':'], 0);
            name_end_within(s, i, name, 0);
            literal_end_within(s, i + n + 1, literal);
            assert(s.subrange(i, i + n) == name);
            assert(s.subrange(i + n + 1, i + n + 1 + literal.len()) == literal);
            literal_first_is_no_blank(s, i + n + 1);
        },
        AttributeKindModel::Valued(ValueSourceModel::Expression(source)) => {
            let group = print_group(source, '{', '}');
            occurs_split(s, i, name + seq![':'], group);
            occurs_split(s, i, name, seq![':']);
            occurs_at(s, i + n, seq![':'], 0);
            assert(name + seq![':'] + group + seq![','] =~= (name + seq![':']) + (group + seq![
                ',',
            ]));
            occurs_split(s, i, name + seq![':'], group + seq![',']);
            printed_expression_parses(s, i + n + 1, source, '{', '}', host);
            name_end_within(s, i, name, 0);
            assert(s.subrange(i, i + n) == name);
        },
    }
}

/// A string literal begins with no blank and with no character that begins
/// another kind of node.
pub proof fn literal_first_is_no_blank(s: Seq<char>, i: int)
    requires
        literal_starts(s, i),
    ensures
        no_blank_at(s, i),
        s[i] != '{',
        s[i] != '<',
        s[i] != '!',
{
}

/// A printed attribute list is read as the list it was printed from.
pub proof fn printed_attributes_parse<H: HostSyntax>(
    s: Seq<char>,
    i: int,
    attributes: Seq<AttributeSpecModel>,
    host: H,
    encode: spec_fn(Seq<char>) -> Seq<char>,
)
    requires
        occurs(s, i, print_attributes(attributes, encode)),
        printable_attributes(attributes, host, encode),
    ensures
        parse_attributes(s, i, host) == Ok::<(Seq<AttributeSpecModel>, int), SyntaxError>(
            (attributes, i + print_attributes(attributes, encode).len()),
        ),
    decreases attributes.len(),
{
    let text = print_attributes(attributes, encode);
    if attributes.len() == 0 {
        occurs_at(s, i, text, 0);
        assert(skip_spaces(s, i) == i);
        assert(attributes =~= Seq::<AttributeSpecModel>::empty());
    } else {
        let first = attributes[0];
        let rest = attributes.drop_first();
        let head = print_attribute(first, encode);
        let tail = print_attributes(rest, encode);
        assert(printable_attribute(first, host, encode));
        assert forall|k: int| 0 <= k < rest.len() implies printable_attribute(
            #[trigger] rest[k],
            host,
            encode,
        ) by {
            assert(rest[k] == attributes[k + 1]);
        }
        occurs_split(s, i, head + seq![','], tail);
        occurs_split(s, i, head, seq![',']);
        occurs_at(s, i + head.len(), seq![','], 0);
        name_begins(first.name);
        attribute_text_begins(first, encode);
        occurs_at(s, i, head, 0);
        printed_attribute_parses(s, i, first, host, encode);
        printed_attributes_parse(s, i + head.len() + 1, rest, host, encode);
        assert(seq![first] + rest =~= attributes);
        let j = i + head.len();
        assert(is_name_start(s[i]));
        assert(skip_spaces(s, i) == i);
        assert(skip_spaces(s, j) == j);
        assert(text.len() == head.len() + 1 + tail.len());
        assert(parse_attribute(s, i, host) == Ok::<(AttributeSpecModel, int), SyntaxError>(
            (first, j),
        ));
        assert(parse_attributes(s, j + 1, host) == Ok::<
            (Seq<AttributeSpecModel>, int),
            SyntaxError,
        >((rest, j + 1 + tail.len())));
    }
}

/// The text of an attribute begins with its name.
pub proof fn attribute_text_begins(
    attribute: AttributeSpecModel,
    encode: spec_fn(Seq<char>) -> Seq<char>,
)
    requires
        attribute.name.len() > 0,
    ensures
        print_attribute(attribute, encode).len() >= attribute.name.len(),
        print_attribute(attribute, encode)[0] == attribute.name[0],
{
}

/// The text of one node. Every attribute list is written with its brackets,
/// and every item of a list with a comma after it.
pub open spec fn print_node(node: NodeModel, encode: spec_fn(Seq<char>) -> Seq<char>) -> Seq<char>
    decreases node, 0nat,
{
    match node {
        NodeModel::Element { name, attributes, children, self_closing } => if self_closing {
            seq!['<'] + name + seq!['('] + print_attributes(attributes, encode)
        } else {
            name + seq!['('] + print_attributes(attributes, encode) + seq!['{'] + print_nodes(
                children,
                0,
                encode,
            ) + seq!['}']
        },
        NodeModel::Fragment { name, attributes, children } => seq!['!'] + name + seq!['(']
            + print_attributes(attributes, encode) + seq!['{'] + print_nodes(children, 0, encode)
            + seq!['}'],
        NodeModel::Text(value) => encode(value),
        NodeModel::Expression(source) => print_group(source, '{', '}'),
        NodeModel::CodeBlock(source) => seq!['!'] + print_group(source, '{', '}'),
    }
}

/// The text of the nodes of a list from position `from` on: each node with a
/// comma after it.
pub open spec fn print_nodes(
    nodes: Seq<NodeModel>,
    from: nat,
    encode: spec_fn(Seq<char>) -> Seq<char>,
) -> Seq<char>
    decreases nodes, nodes.len() - from,
{
    if from >= nodes.len() {
        Seq::empty()
    } else {
        print_node(nodes[from as int], encode) + seq![','] + print_nodes(nodes, from + 1, encode)
    }
}

/// Whether a node can be printed: its name is a name or a path, its host
/// code and its literals can be printed, and so can its attributes and its
/// children; a self-closing element has no children.
pub open spec fn printable_node<H: HostSyntax>(
    node: NodeModel,
    host: H,
    encode: spec_fn(Seq<char>) -> Seq<char>,
) -> bool
    decreases node,
{
    match node {
        NodeModel::Element { name, attributes, children, self_closing } => is_name(name)
            && printable_attributes(attributes, host, encode) && printable_nodes(
            children,
            host,
            encode,
        ) && (self_closing ==> children.len() == 0),
        NodeModel::Fragment { name, attributes, children } => is_path(name)
            && printable_attributes(attributes, host, encode) && printable_nodes(
            children,
            host,
            encode,
        ),
        NodeModel::Text(value) => printable_literal(value, host, encode),
        NodeModel::Expression(source) => printable_expression(source, '{', '}', host),
        NodeModel::CodeBlock(source) => is_group_text(source, '{', '}') && host.is_statements(
            source,
        ),
    }
}

/// Whether every node of a list can be printed.
pub open spec fn printable_nodes<H: HostSyntax>(
    nodes: Seq<NodeModel>,
    host: H,
    encode: spec_fn(Seq<char>) -> Seq<char>,
) -> bool
    decreases nodes,
{
    forall|i: int| 0 <= i < nodes.len() ==> printable_node(#[trigger] nodes[i], host, encode)
}

/// What a list of nodes ends with: nothing at the top of a template, a
/// closing brace inside a child list.
pub open spec fn list_end(top: bool) -> Seq<char> {
    if top {
        Seq::empty()
    } else {
        seq!['}']
    }
}

/// The text of a node begins with a character that is no blank and no
/// closing brace.
pub proof fn node_text_begins<H: HostSyntax>(
    node: NodeModel,
    host: H,
    encode: spec_fn(Seq<char>) -> Seq<char>,
)
    requires
        printable_node(node, host, encode),
    ensures
        print_node(node, encode).len() > 0,
        !is_space(print_node(node, encode)[0]),
        print_node(node, encode)[0] != '}',
{
    match node {
        NodeModel::Element { name, attributes, children, self_closing } => {
            name_begins(name);
        },
        NodeModel::Fragment { name, attributes, children } => {},
        NodeModel::Text(value) => {},
        NodeModel::Expression(source) => {},
        NodeModel::CodeBlock(source) => {},
    }
}

/// The parts of a printed element or component call, from its name on, are
/// read as they were printed.
pub proof fn printed_tag_parses<H: HostSyntax>(
    s: Seq<char>,
    b: int,
    name: Seq<char>,
    attributes: Seq<AttributeSpecModel>,
    children: Seq<NodeModel>,
    host: H,
    encode: spec_fn(Seq<char>) -> Seq<char>,
)
    requires
        occurs(
            s,
            b,
            name + seq!['('] + print_attributes(attributes, encode) + seq!['{'] + print_nodes(
                children,
                0,
                encode,
            ) + seq!['}'],
        ),
        name.len() > 0,
        printable_attributes(attributes, host, encode),
        printable_nodes(children, host, encode),
    ensures
        occurs(s, b, name),
        s[b + name.len()] == '(',
        parse_attributes(s, b + name.len() + 1, host) == Ok::<
            (Seq<AttributeSpecModel>, int),
            SyntaxError,
        >((attributes, b + name.len() + 1 + print_attributes(attributes, encode).len())),
        s[b + name.len() + 1 + print_attributes(attributes, encode).len()] == '{',
        parse_nodes(
            s,
            b + name.len() + 2 + print_attributes(attributes, encode).len(),
            host,
            false,
        ) == Ok::<(Seq<NodeModel>, int), SyntaxError>(
            (
                children,
                b + name.len() + 3 + print_attributes(attributes, encode).len() + print_nodes(
                    children,
                    0,
                    encode,
                ).len(),
            ),
        ),
    decreases children, children.len() + 1,
{
    let listed = print_attributes(attributes, encode);
    let inner = print_nodes(children, 0, encode);
    let n = name.len() as int;
    let whole = name + seq!['('] + listed + seq!['{'] + inner + seq!['}'];
    assert(whole =~= (name + seq!['('] + listed + seq!['{']) + (inner + seq!['}']));
    occurs_split(s, b, name + seq!['('] + listed + seq!['{'], inner + seq!['}']);
    occurs_split(s, b, name + seq!['('] + listed, seq!['{']);
    occurs_split(s, b, name + seq!['('], listed);
    occurs_split(s, b, name, seq!['(']);
    occurs_at(s, b + n, seq!['('], 0);
    occurs_at(s, b + n + 1 + listed.len(), seq!['{'], 0);
    printed_attributes_parse(s, b + n + 1, attributes, host, encode);
    assert(inner + seq!['}'] =~= inner + list_end(false));
    printed_nodes_parse(s, b + n + 2 + listed.len(), children, 0, false, host, encode);
    assert(children.skip(0) =~= children);
}

/// A printed text node is read as the node it was printed from.
pub proof fn printed_text_parses<H: HostSyntax>(
    s: Seq<char>,
    i: int,
    value: Seq<char>,
    host: H,
    encode: spec_fn(Seq<char>) -> Seq<char>,
)
    requires
        occurs(s, i, encode(value)),
        printable_literal(value, host, encode),
    ensures
        parse_node(s, i, host) == Ok::<(NodeModel, int), SyntaxError>(
            (NodeModel::Text(value), i + encode(value).len()),
        ),
{
    let text = encode(value);
    literal_end_within(s, i, text);
    literal_first_is_no_blank(s, i);
    assert(s.subrange(i, i + text.len()) == text);
}

/// A printed expression node is read as the node it was printed from.
pub proof fn printed_expression_node_parses<H: HostSyntax>(
    s: Seq<char>,
    i: int,
    source: Seq<char>,
    host: H,
)
    requires
        occurs(s, i, print_group(source, '{', '}') + seq![',']),
        printable_expression(source, '{', '}', host),
    ensures
        parse_node(s, i, host) == Ok::<(NodeModel, int), SyntaxError>(
            (NodeModel::Expression(source), i + source.len() + 2),
        ),
{
    printed_expression_parses(s, i, source, '{', '}', host);
}

/// A printed code block is read as the node it was printed from.
pub proof fn printed_code_parses<H: HostSyntax>(s: Seq<char>, i: int, source: Seq<char>, host: H)
    requires
        occurs(s, i, seq!['!'] + print_group(source, '{', '}') + seq![',']),
        is_group_text(source, '{', '}'),
        host.is_statements(source),
    ensures
        parse_node(s, i, host) == Ok::<(NodeModel, int), SyntaxError>(
            (NodeModel::CodeBlock(source), i + source.len() + 3),
        ),
{
    let group = print_group(source, '{', '}');
    assert(seq!['!'] + group + seq![','] =~= seq!['!'] + (group + seq![',']));
    occurs_split(s, i, seq!['!'], group + seq![',']);
    occurs_at(s, i, seq!['!'], 0);
    printed_expression_parses(s, i + 1, source, '{', '}', host);
    assert(skip_spaces(s, i + 1) == i + 1);
    assert(!literal_starts(s, i));
}

/// A printed self-closing element is read as the node it was printed from.
pub proof fn printed_single_parses<H: HostSyntax>(
    s: Seq<char>,
    i: int,
    name: Seq<char>,
    attributes: Seq<AttributeSpecModel>,
    host: H,
    encode: spec_fn(Seq<char>) -> Seq<char>,
)
    requires
        occurs(s, i, seq!['<'] + name + seq!['('] + print_attributes(attributes, encode)),
        is_name(name),
        printable_attributes(attributes, host, encode),
    ensures
        parse_node(s, i, host) == Ok::<(NodeModel, int), SyntaxError>(
            (
                NodeModel::Element { name, attributes, children: Seq::empty(), self_closing: true },
                i + name.len() + 2 + print_attributes(attributes, encode).len(),
            ),
        ),
{
    let n = name.len() as int;
    let listed = print_attributes(attributes, encode);
    name_begins(name);
    occurs_split(s, i, seq!['<'] + name + seq!['('], listed);
    occurs_split(s, i, seq!['<'] + name, seq!['(']);
    occurs_split(s, i, seq!['<'], name);
    occurs_at(s, i, seq!['<'], 0);
    occurs_at(s, i + 1, name, 0);
    occurs_at(s, i + 1 + n, seq!['('], 0);
    name_end_within(s, i + 1, name, 0);
    printed_attributes_parse(s, i + n + 2, attributes, host, encode);
    assert(s.subrange(i + 1, i + 1 + n) == name);
    assert(skip_spaces(s, i + 1) == i + 1);
    assert(skip_spaces(s, i + 1 + n) == i + 1 + n);
    assert(!literal_starts(s, i));
}

/// A printed element is read as the node it was printed from.
pub proof fn printed_element_parses<H: HostSyntax>(
    s: Seq<char>,
    i: int,
    name: Seq<char>,
    attributes: Seq<AttributeSpecModel>,
    children: Seq<NodeModel>,
    host: H,
    encode: spec_fn(Seq<char>) -> Seq<char>,
)
    requires
        occurs(
            s,
            i,
            name + seq!['('] + print_attributes(attributes, encode) + seq!['{'] + print_nodes(
                children,
                0,
                encode,
            ) + seq!['}'],
        ),
        is_name(name),
        printable_attributes(attributes, host, encode),
        printable_nodes(children, host, encode),
    ensures
        parse_node(s, i, host) == Ok::<(NodeModel, int), SyntaxError>(
            (
                NodeModel::Element { name, attributes, children, self_closing: false },
                i + name.len() + 3 + print_attributes(attributes, encode).len() + print_nodes(
                    children,
                    0,
                    encode,
                ).len(),
            ),
        ),
    decreases children, children.len() + 2,
{
    let n = name.len() as int;
    let listed = print_attributes(attributes, encode);
    name_begins(name);
    printed_tag_parses(s, i, name, attributes, children, host, encode);
    occurs_at(s, i, name, 0);
    if n > 1 {
        occurs_at(s, i, name, 1);
        name_second_is_name_char(name);
    }
    name_end_within(s, i, name, 0);
    assert(s.subrange(i, i + n) == name);
    assert(!literal_starts(s, i));
    assert(skip_spaces(s, i + n) == i + n);
    assert(skip_spaces(s, i + n + 1 + listed.len()) == i + n + 1 + listed.len());
}

/// A printed component call is read as the node it was printed from.
pub proof fn printed_fragment_parses<H: HostSyntax>(
    s: Seq<char>,
    i: int,
    name: Seq<char>,
    attributes: Seq<AttributeSpecModel>,
    children: Seq<NodeModel>,
    host: H,
    encode: spec_fn(Seq<char>) -> Seq<char>,
)
    requires
        occurs(
            s,
            i,
            seq!['!'] + name + seq!['('] + print_attributes(attributes, encode) + seq!['{']
                + print_nodes(children, 0, encode) + seq!['}'],
        ),
        is_path(name),
        printable_attributes(attributes, host, encode),
        printable_nodes(children, host, encode),
    ensures
        parse_node(s, i, host) == Ok::<(NodeModel, int), SyntaxError>(
            (
                NodeModel::Fragment { name, attributes, children },
                i + name.len() + 4 + print_attributes(attributes, encode).len() + print_nodes(
                    children,
                    0,
                    encode,
                ).len(),
            ),
        ),
    decreases children, children.len() + 2,
{
    let n = name.len() as int;
    let listed = print_attributes(attributes, encode);
    let inner = print_nodes(children, 0, encode);
    let text = seq!['!'] + name + seq!['('] + listed + seq!['{'] + inner + seq!['}'];
    path_begins(name);
    assert(text =~= seq!['!'] + (name + seq!['('] + listed + seq!['{'] + inner + seq!['}']));
    occurs_split(s, i, seq!['!'], name + seq!['('] + listed + seq!['{'] + inner + seq!['}']);
    occurs_at(s, i, seq!['!'], 0);
    printed_tag_parses(s, i + 1, name, attributes, children, host, encode);
    occurs_at(s, i + 1, name, 0);
    path_end_within(s, i + 1, name, 0);
    assert(s.subrange(i + 1, i + 1 + n) == name);
    assert(!literal_starts(s, i));
    assert(skip_spaces(s, i + 1) == i + 1);
    assert(skip_spaces(s, i + 1 + n) == i + 1 + n);
    assert(skip_spaces(s, i + n + 2 + listed.len()) == i + n + 2 + listed.len());
}

/// A printed node is read as the node it was printed from.
pub proof fn printed_node_parses<H: HostSyntax>(
    s: Seq<char>,
    i: int,
    node: NodeModel,
    host: H,
    encode: spec_fn(Seq<char>) -> Seq<char>,
)
    requires
        occurs(s, i, print_node(node, encode) + seq![',']),
        printable_node(node, host, encode),
    ensures
        parse_node(s, i, host) == Ok::<(NodeModel, int), SyntaxError>(
            (node, i + print_node(node, encode).len()),
        ),
    decreases node, 0nat,
{
    let text = print_node(node, encode);
    occurs_split(s, i, text, seq![',']);
    match node {
        NodeModel::Element { name, attributes, children, self_closing } => {
            if self_closing {
                assert(children =~= Seq::<NodeModel>::empty());
                printed_single_parses(s, i, name, attributes, host, encode);
            } else {
                printed_element_parses(s, i, name, attributes, children, host, encode);
            }
        },
        NodeModel::Fragment { name, attributes, children } => {
            printed_fragment_parses(s, i, name, attributes, children, host, encode);
        },
        NodeModel::Text(value) => {
            printed_text_parses(s, i, value, host, encode);
        },
        NodeModel::Expression(source) => {
            printed_expression_node_parses(s, i, source, host);
        },
        NodeModel::CodeBlock(source) => {
            printed_code_parses(s, i, source, host);
        },
    }
}

/// The second character of a name of more than one character is a name
/// character.
pub proof fn name_second_is_name_char(name: Seq<char>)
    requires
        is_name(name),
        name.len() > 1,
    ensures
        is_name_char(name[1]),
{
    name_chars_end_bounds(name, 2);
}

/// A printed list of nodes is read as the list it was printed from.
pub proof fn printed_nodes_parse<H: HostSyntax>(
    s: Seq<char>,
    i: int,
    nodes: Seq<NodeModel>,
    from: nat,
    top: bool,
    host: H,
    encode: spec_fn(Seq<char>) -> Seq<char>,
)
    requires
        occurs(s, i, print_nodes(nodes, from, encode) + list_end(top)),
        top ==> i + print_nodes(nodes, from, encode).len() == s.len(),
        printable_nodes(nodes, host, encode),
        from <= nodes.len(),
    ensures
        parse_nodes(s, i, host, top) == Ok::<(Seq<NodeModel>, int), SyntaxError>(
            (
                nodes.skip(from as int),
                i + print_nodes(nodes, from, encode).len() + list_end(top).len(),
            ),
        ),
    decreases nodes, nodes.len() - from,
{
    let text = print_nodes(nodes, from, encode);
    if from >= nodes.len() {
        assert(nodes.skip(from as int) =~= Seq::<NodeModel>::empty());
        if !top {
            occurs_at(s, i, text + list_end(top), 0);
        }
        assert(skip_spaces(s, i) == i);
    } else {
        let node = nodes[from as int];
        let head = print_node(node, encode);
        let tail = print_nodes(nodes, from + 1, encode);
        assert(printable_node(node, host, encode));
        node_text_begins(node, host, encode);
        assert(text + list_end(top) =~= (head + seq![',']) + (tail + list_end(top)));
        occurs_split(s, i, head + seq![','], tail + list_end(top));
        occurs_split(s, i, head, seq![',']);
        occurs_at(s, i, head, 0);
        occurs_at(s, i + head.len(), seq![','], 0);
        printed_node_parses(s, i, node, host, encode);
        printed_nodes_parse(s, i + head.len() + 1, nodes, from + 1, top, host, encode);
        assert(seq![node] + nodes.skip(from as int + 1) =~= nodes.skip(from as int));
        let j = i + head.len();
        assert(skip_spaces(s, i) == i);
        assert(skip_spaces(s, j) == j);
        assert(text.len() == head.len() + 1 + tail.len());
        assert(parse_node(s, i, host) == Ok::<(NodeModel, int), SyntaxError>((node, j)));
    }
}

/// The parser reads a printed template as the tree it was printed from.
pub proof fn printed_template_parses<H: HostSyntax>(
    nodes: Seq<NodeModel>,
    host: H,
    encode: spec_fn(Seq<char>) -> Seq<char>,
)
    requires
        printable_nodes(nodes, host, encode),
    ensures
        parse_template(print_nodes(nodes, 0, encode), host) == Ok::<Seq<NodeModel>, SyntaxError>(
            nodes,
        ),
{
    let text = print_nodes(nodes, 0, encode);
    assert(text + list_end(true) =~= text);
    assert(text.subrange(0, text.len() as int) =~= text);
    printed_nodes_parse(text, 0, nodes, 0, true, host, encode);
    assert(nodes.skip(0) =~= nodes);
}

/// `value` between two quotes.
pub open spec fn quote(value: Seq<char>) -> Seq<char> {
    seq!['"'] + value + seq!['"']
}

/// Whether `value` holds neither a quote nor a backslash.
pub open spec fn is_plain(value: Seq<char>) -> bool {
    forall|i: int| 0 <= i < value.len() ==> #[trigger] value[i] != '"' && value[i] != '\\'
}

/// A quoted plain text ends at its closing quote.
pub proof fn quoted_plain_ends(value: Seq<char>, k: int)
    requires
        is_plain(value),
        1 <= k <= value.len() + 1,
    ensures
        quoted_end(quote(value), k) == Some(value.len() as int + 2),
    decreases value.len() + 1 - k,
{
    if k <= value.len() {
        assert(quote(value)[k] == value[k - 1]);
        quoted_plain_ends(value, k + 1);
    }
}

/// Without a host language, a text that holds neither a quote nor a
/// backslash can be printed between two quotes.
pub proof fn plain_text_is_printable(value: Seq<char>)
    requires
        is_plain(value),
    ensures
        printable_literal(value, PlainSyntax, |v: Seq<char>| quote(v)),
{
    quoted_plain_ends(value, 1);
    assert(quote(value).subrange(1, quote(value).len() - 1) =~= value);
}

/// Whether `source` holds no delimiter of its group and no quote of either
/// kind.
pub open spec fn is_simple(source: Seq<char>, open: char, close: char) -> bool {
    forall|i: int|
        0 <= i < source.len() ==> #[trigger] source[i] != open && source[i] != close && source[i]
            != '"' && source[i] != '\''
}

/// A group that holds a simple text closes right after it.
pub proof fn simple_group_ends(source: Seq<char>, open: char, close: char, k: int)
    requires
        is_simple(source, open, close),
        0 <= k <= source.len(),
    ensures
        group_end(source + seq![close], k, open, close, 0, false) == Some(source.len() as int),
    decreases source.len() - k,
{
    let text = source + seq![close];
    if k < source.len() {
        assert(text[k] == source[k]);
        simple_group_ends(source, open, close, k + 1);
    } else {
        assert(text[k] == close);
    }
}

/// A text without blanks at its ends that holds no delimiter of its group
/// and no quote can stand in the group.
pub proof fn simple_text_is_group_text(source: Seq<char>, open: char, close: char)
    requires
        is_simple(source, open, close),
        is_trimmed(source),
    ensures
        is_group_text(source, open, close),
{
    simple_group_ends(source, open, close, 0);
}

} // verus!
