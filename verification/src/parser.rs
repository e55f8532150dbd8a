//! The parser: from the text of a template to its tree.
//!
//! A template is a list of nodes separated by commas; a comma may follow the
//! last node. Blanks may stand between the pieces.
//!
//! | Node | Notation |
//! |---|---|
//! | element | `name(attributes) { children }` |
//! | self-closing element | `<name(attributes)` |
//! | component call | `!path(attributes) { children }`, or `<!path(attributes)` without children |
//! | text | a string literal |
//! | expression | `{ host expression }` |
//! | code block | `!{ host statements }` |
//!
//! The attribute list with its brackets may be left out. An attribute is a
//! name alone, a name and a condition in square brackets, or a name, a colon
//! and a value: a string literal or a host expression in braces.

use crate::ast::{
    nodes_model, specs_model, AttributeKind, AttributeKindModel, AttributeSpec, AttributeSpecModel, Node, NodeModel, ValueSource, ValueSourceModel,
};
use crate::host::{HostSyntax, RustSyntax};
use crate::text::{
    group_end, group_end_bounds, literal_end, literal_end_bounds, literal_starts, name_end, name_end_bounds, path_end, path_end_bounds, skip_spaces, skip_spaces_bounds, trimmed, Input,
};
use vstd::prelude::*;

verus! {

/// What is wrong with a template's text.
#[derive(Clone, Copy, Debug, PartialEq, Eq, Structural)]
pub enum SyntaxErrorKind {
    /// A name should stand here.
    ExpectedName,
    /// The value of an attribute should stand here: a string literal or a
    /// host expression in braces.
    ExpectedValue,
    /// The child list of an element or of a component call should open here.
    ExpectedChildren,
    /// A comma or the end of the list should stand here.
    ExpectedSeparator,
    /// The string literal that begins here does not end.
    UnterminatedLiteral,
    /// The group or list that begins here does not end.
    UnterminatedGroup,
    /// The host language does not accept the string literal that begins here.
    InvalidLiteral,
    /// The host language does not accept the expression in the group that
    /// begins here.
    InvalidExpression,
    /// The host language does not accept the statements in the group that
    /// begins here.
    InvalidStatements,
}

/// A syntax error and the position, counted in characters, where it lies.
#[derive(Clone, Copy, Debug, PartialEq, Eq, Structural)]
pub struct SyntaxError {
    pub position: usize,
    pub kind: SyntaxErrorKind,
}

/// What parsing from some position yields: a value and the position after
/// it, or an error.
pub type Parsed<T> = Result<(T, int), SyntaxError>;

/// The error of kind `kind` at position `i`.
pub open spec fn fail(i: int, kind: SyntaxErrorKind) -> SyntaxError {
    SyntaxError { position: i as usize, kind }
}

/// `first` before what `rest` yields.
pub open spec fn prepend<T>(first: T, rest: Parsed<Seq<T>>) -> Parsed<Seq<T>> {
    match rest {
        Ok((items, next)) => Ok((seq![first] + items, next)),
        Err(e) => Err(e),
    }
}

/// The group of host code whose opening delimiter stands at `i`: its text
/// without the blanks at its ends, and the position after its closing
/// delimiter.
pub open spec fn parse_group(s: Seq<char>, i: int, open: char, close: char) -> Parsed<Seq<char>> {
    match group_end(s, i + 1, open, close, 0, false) {
        None => Err(fail(i, SyntaxErrorKind::UnterminatedGroup)),
        Some(end) => Ok((trimmed(s, i + 1, end), end + 1)),
    }
}

/// The string literal that begins at `i`: its value and the position after it.
pub open spec fn parse_literal<H: HostSyntax>(s: Seq<char>, i: int, host: H) -> Parsed<Seq<char>> {
    match literal_end(s, i) {
        None => Err(fail(i, SyntaxErrorKind::UnterminatedLiteral)),
        Some(end) => match host.literal_value(s.subrange(i, end)) {
            None => Err(fail(i, SyntaxErrorKind::InvalidLiteral)),
            Some(value) => Ok((value, end)),
        },
    }
}

/// The group of host code at `i`, which must hold an expression.
pub open spec fn parse_expression<H: HostSyntax>(
    s: Seq<char>,
    i: int,
    open: char,
    close: char,
    host: H,
) -> Parsed<Seq<char>> {
    match parse_group(s, i, open, close) {
        Err(e) => Err(e),
        Ok((source, next)) => if host.is_expression(source) {
            Ok((source, next))
        } else {
            Err(fail(i, SyntaxErrorKind::InvalidExpression))
        },
    }
}

/// The attribute that begins at `i`.
pub open spec fn parse_attribute<H: HostSyntax>(s: Seq<char>, i: int, host: H) -> Parsed<
    AttributeSpecModel,
> {
    let j = name_end(s, i);
    let name = s.subrange(i, j);
    let k = skip_spaces(s, j);
    if j <= i {
        Err(fail(i, SyntaxErrorKind::ExpectedName))
    } else if k < s.len() && s[k] == '[' {
        match parse_expression(s, k, '[', ']', host) {
            Err(e) => Err(e),
            Ok((source, next)) => Ok(
                (AttributeSpecModel { name, kind: AttributeKindModel::Conditional(source) }, next),
            ),
        }
    } else if k < s.len() && s[k] == ':' {
        let v = skip_spaces(s, k + 1);
        if literal_starts(s, v) {
            match parse_literal(s, v, host) {
                Err(e) => Err(e),
                Ok((value, next)) => Ok(
                    (
                        AttributeSpecModel {
                            name,
                            kind: AttributeKindModel::Valued(ValueSourceModel::Literal(value)),
                        },
                        next,
                    ),
                ),
            }
        } else if v < s.len() && s[v] == '{' {
            match parse_expression(s, v, '{', '}', host) {
                Err(e) => Err(e),
                Ok((source, next)) => Ok(
                    (
                        AttributeSpecModel {
                            name,
                            kind: AttributeKindModel::Valued(ValueSourceModel::Expression(source)),
                        },
                        next,
                    ),
                ),
            }
        } else {
            Err(fail(v, SyntaxErrorKind::ExpectedValue))
        }
    } else {
        Ok((AttributeSpecModel { name, kind: AttributeKindModel::Boolean }, j))
    }
}

/// The attributes from `i`, which lies inside the round brackets, up to the
/// closing bracket.
pub open spec fn parse_attributes<H: HostSyntax>(s: Seq<char>, i: int, host: H) -> Parsed<
    Seq<AttributeSpecModel>,
>
    decreases s.len() - i,
{
    let k = skip_spaces(s, i);
    if k < i || k >= s.len() {
        Err(fail(k, SyntaxErrorKind::UnterminatedGroup))
    } else if s[k] == ')' {
        Ok((Seq::empty(), k + 1))
    } else {
        match parse_attribute(s, k, host) {
            Err(e) => Err(e),
            Ok((first, j)) => {
                let m = skip_spaces(s, j);
                if m >= s.len() {
                    Err(fail(m, SyntaxErrorKind::UnterminatedGroup))
                } else if s[m] == ',' && m >= k {
                    prepend(first, parse_attributes(s, m + 1, host))
                } else if s[m] == ')' {
                    Ok((seq![first], m + 1))
                } else {
                    Err(fail(m, SyntaxErrorKind::ExpectedSeparator))
                }
            },
        }
    }
}

/// The element or component call with the given parts.
pub open spec fn tag_node(
    fragment: bool,
    name: Seq<char>,
    attributes: Seq<AttributeSpecModel>,
    children: Seq<NodeModel>,
    self_closing: bool,
) -> NodeModel {
    if fragment {
        NodeModel::Fragment { name, attributes, children }
    } else {
        NodeModel::Element { name, attributes, children, self_closing }
    }
}

/// The node that begins at `i`.
pub open spec fn parse_node<H: HostSyntax>(s: Seq<char>, i: int, host: H) -> Parsed<NodeModel>
    decreases s.len() - i, 0nat,
{
    if 0 <= i < s.len() && s[i] == '{' {
        match parse_expression(s, i, '{', '}', host) {
            Err(e) => Err(e),
            Ok((source, next)) => Ok((NodeModel::Expression(source), next)),
        }
    } else if literal_starts(s, i) {
        match parse_literal(s, i, host) {
            Err(e) => Err(e),
            Ok((value, next)) => Ok((NodeModel::Text(value), next)),
        }
    } else {
        let single = 0 <= i < s.len() && s[i] == '<';
        let a = if single {
            skip_spaces(s, i + 1)
        } else {
            i
        };
        let fragment = 0 <= a < s.len() && s[a] == '!';
        let b = if fragment {
            skip_spaces(s, a + 1)
        } else {
            a
        };
        if fragment && b < s.len() && s[b] == '{' {
            match parse_group(s, b, '{', '}') {
                Err(e) => Err(e),
                Ok((source, next)) => if host.is_statements(source) {
                    Ok((NodeModel::CodeBlock(source), next))
                } else {
                    Err(fail(b, SyntaxErrorKind::InvalidStatements))
                },
            }
        } else {
            let c = if fragment {
                path_end(s, b)
            } else {
                name_end(s, b)
            };
            let name = s.subrange(b, c);
            let d = skip_spaces(s, c);
            let listed = if d < s.len() && s[d] == '(' {
                parse_attributes(s, d + 1, host)
            } else {
                Ok((Seq::empty(), c))
            };
            if c <= b {
                Err(fail(b, SyntaxErrorKind::ExpectedName))
            } else {
                match listed {
                    Err(e) => Err(e),
                    Ok((attributes, f)) => if single {
                        Ok((tag_node(fragment, name, attributes, Seq::empty(), true), f))
                    } else {
                        let g = skip_spaces(s, f);
                        if i <= g < s.len() && s[g] == '{' {
                            match parse_nodes(s, g + 1, host, false) {
                                Err(e) => Err(e),
                                Ok((children, next)) => Ok(
                                    (tag_node(fragment, name, attributes, children, false), next),
                                ),
                            }
                        } else {
                            Err(fail(g, SyntaxErrorKind::ExpectedChildren))
                        }
                    },
                }
            }
        }
    }
}

/// The nodes from `i` on: at the top of a template up to the end of the
/// text, inside a child list up to the closing brace.
pub open spec fn parse_nodes<H: HostSyntax>(s: Seq<char>, i: int, host: H, top: bool) -> Parsed<
    Seq<NodeModel>,
>
    decreases s.len() - i, 1nat,
{
    let k = skip_spaces(s, i);
    if k < i || k >= s.len() {
        if top {
            Ok((Seq::empty(), k))
        } else {
            Err(fail(k, SyntaxErrorKind::UnterminatedGroup))
        }
    } else if !top && s[k] == '}' {
        Ok((Seq::empty(), k + 1))
    } else {
        match parse_node(s, k, host) {
            Err(e) => Err(e),
            Ok((first, j)) => {
                let m = skip_spaces(s, j);
                if m >= s.len() {
                    if top {
                        Ok((seq![first], m))
                    } else {
                        Err(fail(m, SyntaxErrorKind::UnterminatedGroup))
                    }
                } else if s[m] == ',' && m >= k {
                    prepend(first, parse_nodes(s, m + 1, host, top))
                } else if !top && s[m] == '}' {
                    Ok((seq![first], m + 1))
                } else {
                    Err(fail(m, SyntaxErrorKind::ExpectedSeparator))
                }
            },
        }
    }
}

/// An attribute takes up at least one character and ends within the text.
pub proof fn attribute_takes_space<H: HostSyntax>(s: Seq<char>, i: int, host: H)
    requires
        0 <= i <= s.len(),
    ensures
        parse_attribute(s, i, host) matches Ok(found) ==> i < found.1 <= s.len(),
{
    name_end_bounds(s, i);
    let j = name_end(s, i);
    skip_spaces_bounds(s, j);
    let k = skip_spaces(s, j);
    if j > i {
        if k < s.len() && s[k] == '[' {
            group_end_bounds(s, k + 1, '[', ']', 0, false);
        } else if k < s.len() && s[k] == ':' {
            skip_spaces_bounds(s, k + 1);
            let v = skip_spaces(s, k + 1);
            literal_end_bounds(s, v);
            if !literal_starts(s, v) && v < s.len() && s[v] == '{' {
                group_end_bounds(s, v + 1, '{', '}', 0, false);
            }
        }
    }
}

/// An attribute list ends after the position it is entered at, within the
/// text.
pub proof fn attributes_take_space<H: HostSyntax>(s: Seq<char>, i: int, host: H)
    requires
        0 <= i <= s.len(),
    ensures
        parse_attributes(s, i, host) matches Ok(found) ==> i < found.1 <= s.len(),
    decreases s.len() - i,
{
    skip_spaces_bounds(s, i);
    let k = skip_spaces(s, i);
    if k < s.len() && s[k] != ')' {
        attribute_takes_space(s, k, host);
        if let Ok((first, j)) = parse_attribute(s, k, host) {
            skip_spaces_bounds(s, j);
            let m = skip_spaces(s, j);
            if m < s.len() && s[m] == ',' {
                attributes_take_space(s, m + 1, host);
            }
        }
    }
}

/// A node takes up at least one character and ends within the text.
pub proof fn node_takes_space<H: HostSyntax>(s: Seq<char>, i: int, host: H)
    requires
        0 <= i <= s.len(),
    ensures
        parse_node(s, i, host) matches Ok(found) ==> i < found.1 <= s.len(),
    decreases s.len() - i, 0nat,
{
    if i < s.len() && s[i] == '{' {
        group_end_bounds(s, i + 1, '{', '}', 0, false);
    } else if literal_starts(s, i) {
        literal_end_bounds(s, i);
    } else {
        let single = i < s.len() && s[i] == '<';
        if single {
            skip_spaces_bounds(s, i + 1);
        }
        let a = if single {
            skip_spaces(s, i + 1)
        } else {
            i
        };
        let fragment = a < s.len() && s[a] == '!';
        if fragment {
            skip_spaces_bounds(s, a + 1);
        }
        let b = if fragment {
            skip_spaces(s, a + 1)
        } else {
            a
        };
        if fragment && b < s.len() && s[b] == '{' {
            group_end_bounds(s, b + 1, '{', '}', 0, false);
        } else {
            path_end_bounds(s, b);
            name_end_bounds(s, b);
            let c = if fragment {
                path_end(s, b)
            } else {
                name_end(s, b)
            };
            skip_spaces_bounds(s, c);
            let d = skip_spaces(s, c);
            if c > b {
                if d < s.len() && s[d] == '(' {
                    attributes_take_space(s, d + 1, host);
                }
                let listed = if d < s.len() && s[d] == '(' {
                    parse_attributes(s, d + 1, host)
                } else {
                    Ok((Seq::empty(), c))
                };
                if let Ok((attributes, f)) = listed {
                    if !single {
                        skip_spaces_bounds(s, f);
                        let g = skip_spaces(s, f);
                        if g < s.len() && s[g] == '{' {
                            nodes_take_space(s, g + 1, host, false);
                        }
                    }
                }
            }
        }
    }
}

/// A node list ends at or after the position it is entered at, within the
/// text; a child list ends after it.
pub proof fn nodes_take_space<H: HostSyntax>(s: Seq<char>, i: int, host: H, top: bool)
    requires
        0 <= i <= s.len(),
    ensures
        parse_nodes(s, i, host, top) matches Ok(found) ==> i <= found.1 <= s.len() && (!top ==> i
            < found.1),
    decreases s.len() - i, 1nat,
{
    skip_spaces_bounds(s, i);
    let k = skip_spaces(s, i);
    if k < s.len() && !(!top && s[k] == '}') {
        node_takes_space(s, k, host);
        if let Ok((first, j)) = parse_node(s, k, host) {
            skip_spaces_bounds(s, j);
            let m = skip_spaces(s, j);
            if m < s.len() && s[m] == ',' {
                nodes_take_space(s, m + 1, host, top);
            }
        }
    }
}

/// `before` in front of what `rest` yields.
pub open spec fn prepend_all<T>(before: Seq<T>, rest: Parsed<Seq<T>>) -> Parsed<Seq<T>> {
    match rest {
        Ok((items, next)) => Ok((before + items, next)),
        Err(e) => Err(e),
    }
}

/// Whether `r` is the text and position, or the error, that `expected` names.
pub open spec fn parsed_text(
    r: Result<(String, usize), SyntaxError>,
    expected: Parsed<Seq<char>>,
) -> bool {
    match expected {
        Ok((text, next)) => r matches Ok(found) && found.0@ == text && found.1 == next,
        Err(e) => r matches Err(f) && f == e,
    }
}

/// Whether `r` is the attribute and position, or the error, that `expected`
/// names.
pub open spec fn parsed_attribute(
    r: Result<(AttributeSpec, usize), SyntaxError>,
    expected: Parsed<AttributeSpecModel>,
) -> bool {
    match expected {
        Ok((attribute, next)) => r matches Ok(found) && found.0@ == attribute && found.1 == next,
        Err(e) => r matches Err(f) && f == e,
    }
}

/// Whether `r` is the attribute list and position, or the error, that
/// `expected` names.
pub open spec fn parsed_attributes(
    r: Result<(Vec<AttributeSpec>, usize), SyntaxError>,
    expected: Parsed<Seq<AttributeSpecModel>>,
) -> bool {
    match expected {
        Ok((attributes, next)) => r matches Ok(found) && specs_model(found.0@) == attributes
            && found.1 == next,
        Err(e) => r matches Err(f) && f == e,
    }
}

/// Whether `r` is the node and position, or the error, that `expected` names.
pub open spec fn parsed_node(
    r: Result<(Node, usize), SyntaxError>,
    expected: Parsed<NodeModel>,
) -> bool {
    match expected {
        Ok((node, next)) => r matches Ok(found) && found.0@ == node && found.1 == next,
        Err(e) => r matches Err(f) && f == e,
    }
}

/// Whether `r` is the node list and position, or the error, that `expected`
/// names.
pub open spec fn parsed_nodes(
    r: Result<(Vec<Node>, usize), SyntaxError>,
    expected: Parsed<Seq<NodeModel>>,
) -> bool {
    match expected {
        Ok((nodes, next)) => r matches Ok(found) && nodes_model(found.0@) == nodes && found.1
            == next,
        Err(e) => r matches Err(f) && f == e,
    }
}

/// Reads the group of host code whose opening delimiter stands at `i`.
pub fn read_group(input: &Input, i: usize, open: char, close: char) -> (r: Result<
    (String, usize),
    SyntaxError,
>)
    requires
        input.wf(),
        i < input@.len(),
    ensures
        parsed_text(r, parse_group(input@, i as int, open, close)),
        r matches Ok(found) ==> i < found.1 <= input@.len(),
{
    let len = input.len();
    match input.group_end(i + 1, open, close) {
        None => Err(SyntaxError { position: i, kind: SyntaxErrorKind::UnterminatedGroup }),
        Some(end) => Ok((input.trimmed(i + 1, end), end + 1)),
    }
}

/// Reads the string literal that begins at `i`.
pub fn read_literal<H: HostSyntax>(input: &Input, i: usize, host: &H) -> (r: Result<
    (String, usize),
    SyntaxError,
>)
    requires
        input.wf(),
    ensures
        parsed_text(r, parse_literal(input@, i as int, *host)),
        r matches Ok(found) ==> i < found.1 <= input@.len(),
{
    let len = input.len();
    match input.literal_end(i) {
        None => Err(SyntaxError { position: i, kind: SyntaxErrorKind::UnterminatedLiteral }),
        Some(end) => {
            let literal = input.slice(i, end);
            match host.decode_literal(literal.as_str()) {
                None => Err(SyntaxError { position: i, kind: SyntaxErrorKind::InvalidLiteral }),
                Some(value) => Ok((value, end)),
            }
        },
    }
}

/// Reads the group of host code at `i`, which must hold an expression.
pub fn read_expression<H: HostSyntax>(
    input: &Input,
    i: usize,
    open: char,
    close: char,
    host: &H,
) -> (r: Result<(String, usize), SyntaxError>)
    requires
        input.wf(),
        i < input@.len(),
    ensures
        parsed_text(r, parse_expression(input@, i as int, open, close, *host)),
        r matches Ok(found) ==> i < found.1 <= input@.len(),
{
    match read_group(input, i, open, close) {
        Err(e) => Err(e),
        Ok((source, next)) => {
            if host.check_expression(source.as_str()) {
                Ok((source, next))
            } else {
                Err(SyntaxError { position: i, kind: SyntaxErrorKind::InvalidExpression })
            }
        },
    }
}

/// Reads the attribute that begins at `i`.
pub fn read_attribute<H: HostSyntax>(input: &Input, i: usize, host: &H) -> (r: Result<
    (AttributeSpec, usize),
    SyntaxError,
>)
    requires
        input.wf(),
        i <= input@.len(),
    ensures
        parsed_attribute(r, parse_attribute(input@, i as int, *host)),
        r matches Ok(found) ==> i < found.1 <= input@.len(),
{
    let len = input.len();
    let j = input.name_end(i);
    if j <= i {
        return Err(SyntaxError { position: i, kind: SyntaxErrorKind::ExpectedName });
    }
    let name = input.slice(i, j);
    let k = input.skip_spaces(j);
    if input.is(k, '[') {
        match read_expression(input, k, '[', ']', host) {
            Err(e) => Err(e),
            Ok((source, next)) => Ok(
                (AttributeSpec { name, kind: AttributeKind::Conditional(source) }, next),
            ),
        }
    } else if input.is(k, ':') {
        let v = input.skip_spaces(k + 1);
        if input.literal_starts(v) {
            match read_literal(input, v, host) {
                Err(e) => Err(e),
                Ok((value, next)) => Ok(
                    (
                        AttributeSpec {
                            name,
                            kind: AttributeKind::Valued(ValueSource::Literal(value)),
                        },
                        next,
                    ),
                ),
            }
        } else if input.is(v, '{') {
            match read_expression(input, v, '{', '}', host) {
                Err(e) => Err(e),
                Ok((source, next)) => Ok(
                    (
                        AttributeSpec {
                            name,
                            kind: AttributeKind::Valued(ValueSource::Expression(source)),
                        },
                        next,
                    ),
                ),
            }
        } else {
            Err(SyntaxError { position: v, kind: SyntaxErrorKind::ExpectedValue })
        }
    } else {
        Ok((AttributeSpec { name, kind: AttributeKind::Boolean }, j))
    }
}

/// Reads the attributes from `i`, which lies inside the round brackets, up
/// to the closing bracket.
pub fn read_attributes<H: HostSyntax>(input: &Input, i: usize, host: &H) -> (r: Result<
    (Vec<AttributeSpec>, usize),
    SyntaxError,
>)
    requires
        input.wf(),
        i <= input@.len(),
    ensures
        parsed_attributes(r, parse_attributes(input@, i as int, *host)),
        r matches Ok(found) ==> i < found.1 <= input@.len(),
{
    let len = input.len();
    let mut list: Vec<AttributeSpec> = Vec::new();
    let mut at: usize = i;
    assert(specs_model(list@) =~= Seq::<AttributeSpecModel>::empty());
    assert(forall|items: Seq<AttributeSpecModel>|
        Seq::<AttributeSpecModel>::empty() + items =~= items);
    loop
        invariant
            input.wf(),
            len == input@.len(),
            i <= at <= len,
            parse_attributes(input@, i as int, *host) == prepend_all(
                specs_model(list@),
                parse_attributes(input@, at as int, *host),
            ),
        decreases len - at,
    {
        let ghost before = specs_model(list@);
        let k = input.skip_spaces(at);
        if k >= len {
            return Err(SyntaxError { position: k, kind: SyntaxErrorKind::UnterminatedGroup });
        }
        if input.is(k, ')') {
            assert(before + Seq::<AttributeSpecModel>::empty() =~= before);
            return Ok((list, k + 1));
        }
        match read_attribute(input, k, host) {
            Err(e) => {
                return Err(e);
            },
            Ok((first, j)) => {
                let m = input.skip_spaces(j);
                if m >= len {
                    return Err(
                        SyntaxError { position: m, kind: SyntaxErrorKind::UnterminatedGroup },
                    );
                }
                let ghost model = first@;
                if input.is(m, ',') {
                    list.push(first);
                    assert(specs_model(list@) =~= before + seq![model]);
                    assert(forall|items: Seq<AttributeSpecModel>|
                        before + (seq![model] + items) =~= (before + seq![model]) + items);
                    at = m + 1;
                } else if input.is(m, ')') {
                    list.push(first);
                    assert(specs_model(list@) =~= before + seq![model]);
                    return Ok((list, m + 1));
                } else {
                    return Err(
                        SyntaxError { position: m, kind: SyntaxErrorKind::ExpectedSeparator },
                    );
                }
            },
        }
    }
}

/// Builds the element or component call with the given parts.
pub fn make_tag_node(
    fragment: bool,
    name: String,
    attributes: Vec<AttributeSpec>,
    children: Vec<Node>,
    self_closing: bool,
) -> (node: Node)
    ensures
        node@ == tag_node(
            fragment,
            name@,
            specs_model(attributes@),
            nodes_model(children@),
            self_closing,
        ),
{
    if fragment {
        Node::Fragment { name, attributes, children }
    } else {
        Node::Element { name, attributes, children, self_closing }
    }
}

/// Reads the node that begins at `i`.
pub fn read_node<H: HostSyntax>(input: &Input, i: usize, host: &H) -> (r: Result<
    (Node, usize),
    SyntaxError,
>)
    requires
        input.wf(),
        i <= input@.len(),
    ensures
        parsed_node(r, parse_node(input@, i as int, *host)),
        r matches Ok(found) ==> i < found.1 <= input@.len(),
    decreases input@.len() - i, 0nat,
{
    let len = input.len();
    if input.is(i, '{') {
        return match read_expression(input, i, '{', '}', host) {
            Err(e) => Err(e),
            Ok((source, next)) => Ok((Node::Expression(source), next)),
        };
    }
    if input.literal_starts(i) {
        return match read_literal(input, i, host) {
            Err(e) => Err(e),
            Ok((value, next)) => Ok((Node::Text(value), next)),
        };
    }
    let single = input.is(i, '<');
    let a = if single {
        input.skip_spaces(i + 1)
    } else {
        i
    };
    let fragment = input.is(a, '!');
    let b = if fragment {
        input.skip_spaces(a + 1)
    } else {
        a
    };
    if fragment && input.is(b, '{') {
        return match read_group(input, b, '{', '}') {
            Err(e) => Err(e),
            Ok((source, next)) => {
                if host.check_statements(source.as_str()) {
                    Ok((Node::CodeBlock(source), next))
                } else {
                    Err(SyntaxError { position: b, kind: SyntaxErrorKind::InvalidStatements })
                }
            },
        };
    }
    let c = if fragment {
        input.path_end(b)
    } else {
        input.name_end(b)
    };
    if c <= b {
        return Err(SyntaxError { position: b, kind: SyntaxErrorKind::ExpectedName });
    }
    let name = input.slice(b, c);
    let d = input.skip_spaces(c);
    let (attributes, f) = if input.is(d, '(') {
        match read_attributes(input, d + 1, host) {
            Err(e) => {
                return Err(e);
            },
            Ok(found) => found,
        }
    } else {
        let none: Vec<AttributeSpec> = Vec::new();
        assert(specs_model(none@) =~= Seq::<AttributeSpecModel>::empty());
        (none, c)
    };
    if single {
        let none: Vec<Node> = Vec::new();
        assert(nodes_model(none@) =~= Seq::<NodeModel>::empty());
        return Ok((make_tag_node(fragment, name, attributes, none, true), f));
    }
    let g = input.skip_spaces(f);
    if !input.is(g, '{') {
        return Err(SyntaxError { position: g, kind: SyntaxErrorKind::ExpectedChildren });
    }
    match read_nodes(input, g + 1, host, false) {
        Err(e) => Err(e),
        Ok((children, next)) => Ok(
            (make_tag_node(fragment, name, attributes, children, false), next),
        ),
    }
}

/// Reads the nodes from `i` on: at the top of a template up to the end of
/// the text, inside a child list up to the closing brace.
pub fn read_nodes<H: HostSyntax>(input: &Input, i: usize, host: &H, top: bool) -> (r: Result<
    (Vec<Node>, usize),
    SyntaxError,
>)
    requires
        input.wf(),
        i <= input@.len(),
    ensures
        parsed_nodes(r, parse_nodes(input@, i as int, *host, top)),
        r matches Ok(found) ==> i <= found.1 <= input@.len() && (!top ==> i < found.1),
    decreases input@.len() - i, 1nat,
{
    let len = input.len();
    let mut list: Vec<Node> = Vec::new();
    let mut at: usize = i;
    assert(nodes_model(list@) =~= Seq::<NodeModel>::empty());
    assert(forall|items: Seq<NodeModel>| Seq::<NodeModel>::empty() + items =~= items);
    loop
        invariant
            input.wf(),
            len == input@.len(),
            i <= at <= len,
            parse_nodes(input@, i as int, *host, top) == prepend_all(
                nodes_model(list@),
                parse_nodes(input@, at as int, *host, top),
            ),
        decreases len - at,
    {
        let ghost before = nodes_model(list@);
        let k = input.skip_spaces(at);
        if k >= len {
            if top {
                assert(before + Seq::<NodeModel>::empty() =~= before);
                return Ok((list, k));
            }
            return Err(SyntaxError { position: k, kind: SyntaxErrorKind::UnterminatedGroup });
        }
        if !top && input.is(k, '}') {
            assert(before + Seq::<NodeModel>::empty() =~= before);
            return Ok((list, k + 1));
        }
        match read_node(input, k, host) {
            Err(e) => {
                return Err(e);
            },
            Ok((first, j)) => {
                let m = input.skip_spaces(j);
                let ghost model = first@;
                if m >= len {
                    if top {
                        list.push(first);
                        assert(nodes_model(list@) =~= before + seq![model]);
                        return Ok((list, m));
                    }
                    return Err(
                        SyntaxError { position: m, kind: SyntaxErrorKind::UnterminatedGroup },
                    );
                }
                if input.is(m, ',') {
                    list.push(first);
                    assert(nodes_model(list@) =~= before + seq![model]);
                    assert(forall|items: Seq<NodeModel>|
                        before + (seq![model] + items) =~= (before + seq![model]) + items);
                    at = m + 1;
                } else if !top && input.is(m, '}') {
                    list.push(first);
                    assert(nodes_model(list@) =~= before + seq![model]);
                    return Ok((list, m + 1));
                } else {
                    return Err(
                        SyntaxError { position: m, kind: SyntaxErrorKind::ExpectedSeparator },
                    );
                }
            },
        }
    }
}

/// What a template's text parses to under a host language: the top-level
/// nodes, or the first error.
pub open spec fn parse_template<H: HostSyntax>(source: Seq<char>, host: H) -> Result<
    Seq<NodeModel>,
    SyntaxError,
> {
    match parse_nodes(source, 0, host, true) {
        Ok((nodes, _)) => Ok(nodes),
        Err(e) => Err(e),
    }
}

/// Whether `r` is the node list, or the error, that `expected` names.
pub open spec fn parsed_template(
    r: Result<Vec<Node>, SyntaxError>,
    expected: Result<Seq<NodeModel>, SyntaxError>,
) -> bool {
    match expected {
        Ok(nodes) => r matches Ok(found) && nodes_model(found@) == nodes,
        Err(e) => r matches Err(f) && f == e,
    }
}

/// Parses a template whose host code is written in the language `host`.
pub fn parse_with<H: HostSyntax>(source: &str, host: &H) -> (r: Result<Vec<Node>, SyntaxError>)
    ensures
        parsed_template(r, parse_template(source@, *host)),
{
    let input = Input::new(source);
    match read_nodes(&input, 0, host, true) {
        Ok((nodes, _)) => Ok(nodes),
        Err(e) => Err(e),
    }
}

/// Parses a template whose host code is written in Rust.
pub fn parse(source: &str) -> (r: Result<Vec<Node>, SyntaxError>)
    ensures
        parsed_template(r, parse_template(source@, RustSyntax)),
{
    parse_with(source, &RustSyntax)
}

} // verus!
