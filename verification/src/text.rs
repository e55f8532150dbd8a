//! Characters and the pieces of text that the notation is made of: blanks,
//! names, paths, string literals and delimited groups of host code.

use vstd::prelude::*;
use vstd::string::*;

verus! {

/// A blank: a space, a tab, a line feed or a carriage return.
pub open spec fn is_space(c: char) -> bool {
    c == ' ' || c == '\t' || c == '\n' || c == '\r'
}

/// A character that may begin a name: an ASCII letter or an underscore.
pub open spec fn is_name_start(c: char) -> bool {
    ('a' <= c && c <= 'z') || ('A' <= c && c <= 'Z') || c == '_'
}

/// A character that may continue a name: one that may begin it, or a digit.
pub open spec fn is_name_char(c: char) -> bool {
    is_name_start(c) || ('0' <= c && c <= '9')
}

/// The first position from `i` on that holds no blank.
pub open spec fn skip_spaces(s: Seq<char>, i: int) -> int
    decreases s.len() - i,
{
    if 0 <= i < s.len() && is_space(s[i]) {
        skip_spaces(s, i + 1)
    } else {
        i
    }
}

/// The first position from `i` on that holds no name character.
pub open spec fn name_chars_end(s: Seq<char>, i: int) -> int
    decreases s.len() - i,
{
    if 0 <= i < s.len() && is_name_char(s[i]) {
        name_chars_end(s, i + 1)
    } else {
        i
    }
}

/// The end of the name that begins at `i`; `i` itself where none begins there.
pub open spec fn name_end(s: Seq<char>, i: int) -> int {
    if 0 <= i < s.len() && is_name_start(s[i]) {
        name_chars_end(s, i + 1)
    } else {
        i
    }
}

/// The end of the path that begins at `i`: names joined by `::`; `i` itself
/// where no name begins there.
pub open spec fn path_end(s: Seq<char>, i: int) -> int
    decreases s.len() - i,
{
    let j = name_end(s, i);
    if i < j && j + 2 < s.len() && s[j] == ':' && s[j + 1] == ':' && is_name_start(s[j + 2]) {
        path_end(s, j + 2)
    } else {
        j
    }
}

/// Inside a quoted string literal at `i`: the position after its closing
/// quote. A backslash takes the next character with it.
pub open spec fn quoted_end(s: Seq<char>, i: int) -> Option<int>
    decreases s.len() - i,
{
    if i < 0 || i >= s.len() {
        None
    } else if s[i] == '"' {
        Some(i + 1)
    } else if s[i] == '\\' {
        if i + 1 < s.len() {
            quoted_end(s, i + 2)
        } else {
            None
        }
    } else {
        quoted_end(s, i + 1)
    }
}

/// The first position from `i` on that holds no `#`.
pub open spec fn hashes_end(s: Seq<char>, i: int) -> int
    decreases s.len() - i,
{
    if 0 <= i < s.len() && s[i] == '#' {
        hashes_end(s, i + 1)
    } else {
        i
    }
}

/// Inside a raw string literal at `i` that was opened with `n` hashes: the
/// position after the first quote that at least `n` hashes follow, and after
/// `n` of them.
pub open spec fn raw_end(s: Seq<char>, i: int, n: int) -> Option<int>
    decreases s.len() - i,
{
    if i < 0 || i >= s.len() {
        None
    } else if s[i] == '"' && hashes_end(s, i + 1) - (i + 1) >= n {
        Some(i + 1 + n)
    } else {
        raw_end(s, i + 1, n)
    }
}

/// Whether a string literal begins at `i`: a quote, or `r` before a quote or
/// a hash.
pub open spec fn literal_starts(s: Seq<char>, i: int) -> bool {
    0 <= i < s.len() && (s[i] == '"' || (s[i] == 'r' && i + 1 < s.len() && (s[i + 1] == '"'
        || s[i + 1] == '#')))
}

/// The end of the string literal that begins at `i`, quotes and hashes
/// included; `None` where it does not end.
pub open spec fn literal_end(s: Seq<char>, i: int) -> Option<int> {
    if !literal_starts(s, i) {
        None
    } else if s[i] == '"' {
        quoted_end(s, i + 1)
    } else {
        let q = hashes_end(s, i + 1);
        if q < s.len() && s[q] == '"' {
            raw_end(s, q + 1, q - (i + 1))
        } else {
            None
        }
    }
}

/// Inside a group of host code at `i`: the position of the delimiter that
/// closes it. `depth` counts the groups of the same kind that are open inside
/// it, and `quoted` says whether `i` lies in a quoted string. Delimiters in a
/// quoted string or in a character literal of one character do not count.
pub open spec fn group_end(
    s: Seq<char>,
    i: int,
    open: char,
    close: char,
    depth: nat,
    quoted: bool,
) -> Option<int>
    decreases s.len() - i,
{
    if i < 0 || i >= s.len() {
        None
    } else if quoted {
        if s[i] == '\\' {
            if i + 1 < s.len() {
                group_end(s, i + 2, open, close, depth, true)
            } else {
                None
            }
        } else {
            group_end(s, i + 1, open, close, depth, s[i] != '"')
        }
    } else if s[i] == close {
        if depth == 0 {
            Some(i)
        } else {
            group_end(s, i + 1, open, close, (depth - 1) as nat, false)
        }
    } else if s[i] == open {
        group_end(s, i + 1, open, close, depth + 1, false)
    } else if s[i] == '"' {
        group_end(s, i + 1, open, close, depth, true)
    } else if s[i] == '\'' && i + 2 < s.len() && s[i + 1] != '\\' && s[i + 2] == '\'' {
        group_end(s, i + 3, open, close, depth, false)
    } else if s[i] == '\'' && i + 3 < s.len() && s[i + 1] == '\\' && s[i + 3] == '\'' {
        group_end(s, i + 4, open, close, depth, false)
    } else {
        group_end(s, i + 1, open, close, depth, false)
    }
}

/// The last position from `j` back to `i` that no blank precedes.
pub open spec fn skip_spaces_back(s: Seq<char>, i: int, j: int) -> int
    decreases j - i,
{
    if i < j && 0 < j <= s.len() && is_space(s[j - 1]) {
        skip_spaces_back(s, i, j - 1)
    } else {
        j
    }
}

/// The text between `i` and `j` without the blanks at its ends.
pub open spec fn trimmed(s: Seq<char>, i: int, j: int) -> Seq<char> {
    let from = if skip_spaces(s, i) < j {
        skip_spaces(s, i)
    } else {
        j
    };
    s.subrange(from, skip_spaces_back(s, from, j))
}

/// Skipping blanks goes forward and stays within the text.
pub proof fn skip_spaces_bounds(s: Seq<char>, i: int)
    requires
        0 <= i <= s.len(),
    ensures
        i <= skip_spaces(s, i) <= s.len(),
    decreases s.len() - i,
{
    if i < s.len() && is_space(s[i]) {
        skip_spaces_bounds(s, i + 1);
    }
}

/// A run of name characters ends within the text.
pub proof fn name_chars_end_bounds(s: Seq<char>, i: int)
    requires
        0 <= i <= s.len(),
    ensures
        i <= name_chars_end(s, i) <= s.len(),
    decreases s.len() - i,
{
    if i < s.len() && is_name_char(s[i]) {
        name_chars_end_bounds(s, i + 1);
    }
}

/// A name ends within the text.
pub proof fn name_end_bounds(s: Seq<char>, i: int)
    requires
        0 <= i <= s.len(),
    ensures
        i <= name_end(s, i) <= s.len(),
{
    if i < s.len() && is_name_start(s[i]) {
        name_chars_end_bounds(s, i + 1);
    }
}

/// A path ends within the text.
pub proof fn path_end_bounds(s: Seq<char>, i: int)
    requires
        0 <= i <= s.len(),
    ensures
        i <= path_end(s, i) <= s.len(),
    decreases s.len() - i,
{
    name_end_bounds(s, i);
    let j = name_end(s, i);
    if i < j && j + 2 < s.len() && s[j] == ':' && s[j + 1] == ':' && is_name_start(s[j + 2]) {
        path_end_bounds(s, j + 2);
    }
}

/// A quoted string literal ends after the position it is entered at, within
/// the text.
pub proof fn quoted_end_bounds(s: Seq<char>, i: int)
    requires
        0 <= i,
    ensures
        quoted_end(s, i) matches Some(end) ==> i < end <= s.len(),
    decreases s.len() - i,
{
    if i < s.len() && s[i] != '"' {
        if s[i] == '\\' {
            if i + 1 < s.len() {
                quoted_end_bounds(s, i + 2);
            }
        } else {
            quoted_end_bounds(s, i + 1);
        }
    }
}

/// A run of hashes ends within the text.
pub proof fn hashes_end_bounds(s: Seq<char>, i: int)
    requires
        0 <= i <= s.len(),
    ensures
        i <= hashes_end(s, i) <= s.len(),
    decreases s.len() - i,
{
    if i < s.len() && s[i] == '#' {
        hashes_end_bounds(s, i + 1);
    }
}

/// A raw string literal ends after the position it is entered at, within the
/// text.
pub proof fn raw_end_bounds(s: Seq<char>, i: int, n: int)
    requires
        0 <= i,
        0 <= n,
    ensures
        raw_end(s, i, n) matches Some(end) ==> i < end <= s.len(),
    decreases s.len() - i,
{
    if i < s.len() {
        hashes_end_bounds(s, i + 1);
        if !(s[i] == '"' && hashes_end(s, i + 1) - (i + 1) >= n) {
            raw_end_bounds(s, i + 1, n);
        }
    }
}

/// A string literal takes up at least one character and ends within the text.
pub proof fn literal_end_bounds(s: Seq<char>, i: int)
    ensures
        literal_end(s, i) matches Some(end) ==> 0 <= i < end <= s.len(),
{
    if literal_starts(s, i) {
        if s[i] == '"' {
            quoted_end_bounds(s, i + 1);
        } else {
            hashes_end_bounds(s, i + 1);
            let q = hashes_end(s, i + 1);
            if q < s.len() && s[q] == '"' {
                raw_end_bounds(s, q + 1, q - (i + 1));
            }
        }
    }
}

/// The delimiter that closes a group lies at or after the position the group
/// is entered at, within the text.
pub proof fn group_end_bounds(
    s: Seq<char>,
    i: int,
    open: char,
    close: char,
    depth: nat,
    quoted: bool,
)
    requires
        0 <= i,
    ensures
        group_end(s, i, open, close, depth, quoted) matches Some(end) ==> i <= end < s.len(),
    decreases s.len() - i,
{
    if i < s.len() {
        if quoted {
            if s[i] == '\\' {
                if i + 1 < s.len() {
                    group_end_bounds(s, i + 2, open, close, depth, true);
                }
            } else {
                group_end_bounds(s, i + 1, open, close, depth, s[i] != '"');
            }
        } else if s[i] == close {
            if depth != 0 {
                group_end_bounds(s, i + 1, open, close, (depth - 1) as nat, false);
            }
        } else if s[i] == open {
            group_end_bounds(s, i + 1, open, close, depth + 1, false);
        } else if s[i] == '"' {
            group_end_bounds(s, i + 1, open, close, depth, true);
        } else if s[i] == '\'' && i + 2 < s.len() && s[i + 1] != '\\' && s[i + 2] == '\'' {
            group_end_bounds(s, i + 3, open, close, depth, false);
        } else if s[i] == '\'' && i + 3 < s.len() && s[i + 1] == '\\' && s[i + 3] == '\'' {
            group_end_bounds(s, i + 4, open, close, depth, false);
        } else {
            group_end_bounds(s, i + 1, open, close, depth, false);
        }
    }
}

/// A text to be parsed: the same characters as a string and as a list.
pub struct Input<'a> {
    pub source: &'a str,
    pub chars: Vec<char>,
}

impl<'a> View for Input<'a> {
    type V = Seq<char>;

    open spec fn view(&self) -> Seq<char> {
        self.chars@
    }
}

impl<'a> Input<'a> {
    /// The string and the list hold the same characters.
    pub open spec fn wf(&self) -> bool {
        self.chars@ == self.source@
    }

    /// The text of `source`.
    pub fn new(source: &'a str) -> (input: Self)
        ensures
            input.wf(),
            input@ == source@,
    {
        let mut chars: Vec<char> = Vec::new();
        for c in it: source.chars()
            invariant
                it.seq() == source@,
                chars@ == source@.take(it.index() as int),
        {
            chars.push(c);
            assert(chars@ =~= source@.take(it.index() + 1));
        }
        assert(source@.take(source@.len() as int) =~= source@);
        Input { source, chars }
    }

    /// The number of characters.
    pub fn len(&self) -> (n: usize)
        ensures
            n == self@.len(),
    {
        self.chars.len()
    }

    /// Whether position `i` holds the character `c`.
    pub fn is(&self, i: usize, c: char) -> (b: bool)
        ensures
            b == (i < self@.len() && self@[i as int] == c),
    {
        i < self.chars.len() && self.chars[i] == c
    }

    /// The text between `i` and `j`.
    pub fn slice(&self, i: usize, j: usize) -> (text: String)
        requires
            self.wf(),
            i <= j <= self@.len(),
        ensures
            text@ == self@.subrange(i as int, j as int),
    {
        self.source.substring_char(i, j).to_owned()
    }

    /// The first position from `i` on that holds no blank.
    pub fn skip_spaces(&self, i: usize) -> (j: usize)
        requires
            i <= self@.len(),
        ensures
            j == skip_spaces(self@, i as int),
            i <= j <= self@.len(),
    {
        let mut j: usize = i;
        while j < self.chars.len() && (self.chars[j] == ' ' || self.chars[j] == '\t'
            || self.chars[j] == '\n' || self.chars[j] == '\r')
            invariant
                i <= j <= self@.len(),
                skip_spaces(self@, i as int) == skip_spaces(self@, j as int),
            decreases self@.len() - j,
        {
            j += 1;
        }
        j
    }

    /// Whether position `i` holds a character that may begin a name.
    pub fn name_starts(&self, i: usize) -> (b: bool)
        ensures
            b == (i < self@.len() && is_name_start(self@[i as int])),
    {
        if i < self.chars.len() {
            let c = self.chars[i];
            ('a' <= c && c <= 'z') || ('A' <= c && c <= 'Z') || c == '_'
        } else {
            false
        }
    }

    /// Whether position `i` holds a character that may continue a name.
    pub fn name_continues(&self, i: usize) -> (b: bool)
        ensures
            b == (i < self@.len() && is_name_char(self@[i as int])),
    {
        if i < self.chars.len() {
            let c = self.chars[i];
            ('a' <= c && c <= 'z') || ('A' <= c && c <= 'Z') || c == '_' || ('0' <= c && c <= '9')
        } else {
            false
        }
    }

    /// The end of the name that begins at `i`.
    pub fn name_end(&self, i: usize) -> (j: usize)
        requires
            i <= self@.len(),
        ensures
            j == name_end(self@, i as int),
            i <= j <= self@.len(),
    {
        let n = self.chars.len();
        if !self.name_starts(i) {
            return i;
        }
        let mut j: usize = i + 1;
        while self.name_continues(j)
            invariant
                n == self@.len(),
                i < j <= self@.len(),
                name_chars_end(self@, i + 1) == name_chars_end(self@, j as int),
            decreases self@.len() - j,
        {
            j += 1;
        }
        j
    }

    /// The end of the path that begins at `i`.
    pub fn path_end(&self, i: usize) -> (j: usize)
        requires
            i <= self@.len(),
        ensures
            j == path_end(self@, i as int),
            i <= j <= self@.len(),
    {
        let n = self.chars.len();
        let mut start: usize = i;
        loop
            invariant
                n == self@.len(),
                i <= start <= self@.len(),
                path_end(self@, i as int) == path_end(self@, start as int),
            decreases self@.len() - start,
        {
            let j = self.name_end(start);
            if start < j && self.is(j, ':') && n - j > 2 && self.is(j + 1, ':')
                && self.name_starts(j + 2) {
                start = j + 2;
            } else {
                return j;
            }
        }
    }

    /// The first position from `i` on that holds no `#`.
    pub fn hashes_end(&self, i: usize) -> (j: usize)
        requires
            i <= self@.len(),
        ensures
            j == hashes_end(self@, i as int),
            i <= j <= self@.len(),
    {
        let n = self.chars.len();
        let mut j: usize = i;
        while self.is(j, '#')
            invariant
                n == self@.len(),
                i <= j <= self@.len(),
                hashes_end(self@, i as int) == hashes_end(self@, j as int),
            decreases self@.len() - j,
        {
            j += 1;
        }
        j
    }

    /// Whether a string literal begins at `i`.
    pub fn literal_starts(&self, i: usize) -> (b: bool)
        ensures
            b == literal_starts(self@, i as int),
    {
        let n = self.chars.len();
        self.is(i, '"') || (self.is(i, 'r') && i + 1 < n && (self.is(i + 1, '"') || self.is(
            i + 1,
            '#',
        )))
    }

    /// The end of the string literal that begins at `i`.
    pub fn literal_end(&self, i: usize) -> (end: Option<usize>)
        ensures
            match literal_end(self@, i as int) {
                Some(j) => end == Some(j as usize) && i < j <= self@.len(),
                None => end is None,
            },
    {
        let len = self.chars.len();
        if !self.literal_starts(i) {
            return None;
        }
        if self.is(i, '"') {
            let mut j: usize = i + 1;
            while j < len
                invariant
                    len == self@.len(),
                    i < j <= self@.len(),
                    literal_starts(self@, i as int),
                    self@[i as int] == '"',
                    quoted_end(self@, i + 1) == quoted_end(self@, j as int),
                decreases self@.len() - j,
            {
                if self.chars[j] == '"' {
                    return Some(j + 1);
                } else if self.chars[j] == '\\' {
                    if j + 1 < len {
                        j += 2;
                    } else {
                        return None;
                    }
                } else {
                    j += 1;
                }
            }
            None
        } else {
            let q = self.hashes_end(i + 1);
            if !self.is(q, '"') {
                return None;
            }
            let n = q - (i + 1);
            let mut j: usize = q + 1;
            while j < len
                invariant
                    len == self@.len(),
                    q < j <= self@.len(),
                    n == q - (i + 1),
                    literal_starts(self@, i as int),
                    self@[i as int] != '"',
                    q == hashes_end(self@, i + 1),
                    self@[q as int] == '"',
                    raw_end(self@, q + 1, n as int) == raw_end(self@, j as int, n as int),
                decreases self@.len() - j,
            {
                if self.chars[j] == '"' {
                    let h = self.hashes_end(j + 1);
                    if h - (j + 1) >= n {
                        return Some(j + 1 + n);
                    }
                }
                j += 1;
            }
            None
        }
    }

    /// The position of the delimiter that closes the group of host code
    /// opened just before `i`.
    pub fn group_end(&self, i: usize, open: char, close: char) -> (end: Option<usize>)
        requires
            i <= self@.len(),
        ensures
            match group_end(self@, i as int, open, close, 0, false) {
                Some(j) => end == Some(j as usize) && i <= j < self@.len() && self@[j] == close,
                None => end is None,
            },
    {
        let mut j: usize = i;
        let mut depth: usize = 0;
        let mut quoted = false;
        let n = self.chars.len();
        while j < n
            invariant
                n == self@.len(),
                i <= j <= n,
                depth <= j - i,
                group_end(self@, i as int, open, close, 0, false) == group_end(
                    self@,
                    j as int,
                    open,
                    close,
                    depth as nat,
                    quoted,
                ),
            decreases n - j,
        {
            let c = self.chars[j];
            if quoted {
                if c == '\\' {
                    if j + 1 < n {
                        j += 2;
                    } else {
                        return None;
                    }
                } else {
                    quoted = c != '"';
                    j += 1;
                }
            } else if c == close {
                if depth == 0 {
                    return Some(j);
                }
                depth -= 1;
                j += 1;
            } else if c == open {
                depth += 1;
                j += 1;
            } else if c == '"' {
                quoted = true;
                j += 1;
            } else if c == '\'' && n - j > 2 && self.chars[j + 1] != '\\' && self.chars[j + 2]
                == '\'' {
                j += 3;
            } else if c == '\'' && n - j > 3 && self.chars[j + 1] == '\\' && self.chars[j + 3]
                == '\'' {
                j += 4;
            } else {
                j += 1;
            }
        }
        None
    }

    /// The text between `i` and `j` without the blanks at its ends.
    pub fn trimmed(&self, i: usize, j: usize) -> (text: String)
        requires
            self.wf(),
            i <= j <= self@.len(),
        ensures
            text@ == trimmed(self@, i as int, j as int),
    {
        let skipped = self.skip_spaces(i);
        let from = if skipped < j {
            skipped
        } else {
            j
        };
        let mut to: usize = j;
        while from < to && (self.chars[to - 1] == ' ' || self.chars[to - 1] == '\t'
            || self.chars[to - 1] == '\n' || self.chars[to - 1] == '\r')
            invariant
                from <= to <= j,
                j <= self@.len(),
                skip_spaces_back(self@, from as int, j as int) == skip_spaces_back(
                    self@,
                    from as int,
                    to as int,
                ),
            decreases to - from,
        {
            to -= 1;
        }
        self.slice(from, to)
    }
}

} // verus!
