//! Pages: the front matter and the body of a page's source, and what the
//! outside world computes of them.

use crate::text::Input;
use vstd::prelude::*;
use vstd::string::*;

verus! {

/// White space as Unicode defines it (the property `White_Space`).
pub open spec fn is_whitespace(c: char) -> bool {
    ('\u{9}' <= c && c <= '\u{D}') || c == ' ' || c == '\u{85}' || c == '\u{A0}' || c == '\u{1680}'
        || ('\u{2000}' <= c && c <= '\u{200A}') || c == '\u{2028}' || c == '\u{2029}' || c
        == '\u{202F}' || c == '\u{205F}' || c == '\u{3000}'
}

/// The first position from `i` on that holds no white space.
pub open spec fn skip_whitespace(s: Seq<char>, i: int) -> int
    decreases s.len() - i,
{
    if 0 <= i < s.len() && is_whitespace(s[i]) {
        skip_whitespace(s, i + 1)
    } else {
        i
    }
}

/// The last position from `j` back to `i` that no white space precedes.
pub open spec fn skip_whitespace_back(s: Seq<char>, i: int, j: int) -> int
    decreases j - i,
{
    if i < j && 0 < j <= s.len() && is_whitespace(s[j - 1]) {
        skip_whitespace_back(s, i, j - 1)
    } else {
        j
    }
}

/// The text from `i` to the end without the white space at its ends.
pub open spec fn trimmed_tail(s: Seq<char>, i: int) -> Seq<char> {
    let from = skip_whitespace(s, i);
    s.subrange(from, skip_whitespace_back(s, from, s.len() as int))
}

/// The first position from `i` on that holds `c`.
pub open spec fn first_index_of(s: Seq<char>, c: char, i: int) -> Option<int>
    decreases s.len() - i,
{
    if i < 0 || i >= s.len() {
        None
    } else if s[i] == c {
        Some(i)
    } else {
        first_index_of(s, c, i + 1)
    }
}

/// Whether `c` is white space.
pub fn char_is_whitespace(c: char) -> (b: bool)
    ensures
        b == is_whitespace(c),
{
    ('\u{9}' <= c && c <= '\u{D}') || c == ' ' || c == '\u{85}' || c == '\u{A0}' || c == '\u{1680}'
        || ('\u{2000}' <= c && c <= '\u{200A}') || c == '\u{2028}' || c == '\u{2029}' || c
        == '\u{202F}' || c == '\u{205F}' || c == '\u{3000}'
}

/// The text of `input` from `i` to the end without the white space at its
/// ends.
pub fn trim_tail(input: &Input, i: usize) -> (text: String)
    requires
        input.wf(),
        i <= input@.len(),
    ensures
        text@ == trimmed_tail(input@, i as int),
{
    let len = input.len();
    let mut from: usize = i;
    while from < len && char_is_whitespace(input.chars[from])
        invariant
            len == input@.len(),
            i <= from <= len,
            skip_whitespace(input@, i as int) == skip_whitespace(input@, from as int),
        decreases len - from,
    {
        from += 1;
    }
    let mut to: usize = len;
    while from < to && char_is_whitespace(input.chars[to - 1])
        invariant
            len == input@.len(),
            from <= to <= len,
            skip_whitespace_back(input@, from as int, len as int) == skip_whitespace_back(
                input@,
                from as int,
                to as int,
            ),
        decreases to - from,
    {
        to -= 1;
    }
    input.slice(from, to)
}

/// The first position of `input` that holds `c`.
pub fn find_char(input: &Input, c: char) -> (found: Option<usize>)
    ensures
        match first_index_of(input@, c, 0) {
            Some(i) => found == Some(i as usize) && 0 <= i < input@.len() && input@[i] == c,
            None => found is None,
        },
{
    let len = input.len();
    let mut i: usize = 0;
    while i < len
        invariant
            len == input@.len(),
            i <= len,
            first_index_of(input@, c, 0) == first_index_of(input@, c, i as int),
        decreases len - i,
    {
        if input.chars[i] == c {
            return Some(i);
        }
        i += 1;
    }
    None
}

/// What is wrong with a page's source.
#[derive(Clone, Copy, Debug, PartialEq, Eq, Structural)]
pub enum PageError {
    /// The first line is not `---`.
    MissingOpening,
    /// The line of the front matter with this index holds no colon.
    MalformedLine(usize),
    /// The key on the line with this index is neither `title` nor `timestamp`.
    UnknownKey(usize),
    /// The front matter gives no title.
    MissingTitle,
    /// The front matter gives no timestamp.
    MissingTimestamp,
    /// The timestamp is no date and time in the format of RFC 2822, or one
    /// that this format cannot show again.
    InvalidTimestamp,
}

/// The front matter of a page.
#[derive(Debug)]
pub struct FrontMatter {
    pub title: String,
    /// The timestamp as it is written.
    pub timestamp: String,
    /// The index of the first line of the body.
    pub body_from: usize,
}

/// The mathematical model of a [`FrontMatter`].
pub struct FrontMatterModel {
    pub title: Seq<char>,
    pub timestamp: Seq<char>,
    pub body_from: nat,
}

impl View for FrontMatter {
    type V = FrontMatterModel;

    open spec fn view(&self) -> FrontMatterModel {
        FrontMatterModel {
            title: self.title@,
            timestamp: self.timestamp@,
            body_from: self.body_from as nat,
        }
    }
}

/// The line that opens and closes the front matter.
pub open spec fn fence() -> Seq<char> {
    "---"@
}

/// The front matter from line `i` on, with the title and the timestamp read
/// so far. Each line is a key, a colon and a value; of a key that comes
/// twice the last value holds. The front matter ends with the next fence, or
/// with the last line.
pub open spec fn scan_front_matter(
    lines: Seq<Seq<char>>,
    i: nat,
    title: Option<Seq<char>>,
    timestamp: Option<Seq<char>>,
) -> Result<FrontMatterModel, PageError>
    decreases lines.len() - i,
{
    if i >= lines.len() || lines[i as int] == fence() {
        let body_from = if i >= lines.len() {
            lines.len()
        } else {
            i + 1
        };
        match (title, timestamp) {
            (None, _) => Err(PageError::MissingTitle),
            (Some(_), None) => Err(PageError::MissingTimestamp),
            (Some(title), Some(timestamp)) => Ok(FrontMatterModel { title, timestamp, body_from }),
        }
    } else {
        let line = lines[i as int];
        match first_index_of(line, ':', 0) {
            None => Err(PageError::MalformedLine(i as usize)),
            Some(colon) => {
                let key = line.subrange(0, colon);
                let value = trimmed_tail(line, colon + 1);
                if key == "title"@ {
                    scan_front_matter(lines, i + 1, Some(value), timestamp)
                } else if key == "timestamp"@ {
                    scan_front_matter(lines, i + 1, title, Some(value))
                } else {
                    Err(PageError::UnknownKey(i as usize))
                }
            },
        }
    }
}

/// The front matter of a page's source, given by its lines.
pub open spec fn front_matter(lines: Seq<Seq<char>>) -> Result<FrontMatterModel, PageError> {
    if lines.len() == 0 || lines[0] != fence() {
        Err(PageError::MissingOpening)
    } else {
        scan_front_matter(lines, 1, None, None)
    }
}

/// The views of a list of strings.
pub open spec fn lines_view(lines: Seq<String>) -> Seq<Seq<char>> {
    lines.map_values(|line: String| line@)
}

/// Whether `value` holds the text `model`, or both are absent.
pub open spec fn holds(value: Option<String>, model: Option<Seq<char>>) -> bool {
    match model {
        Some(text) => value matches Some(s) && s@ == text,
        None => value is None,
    }
}

/// Reads the front matter of a page's source, given by its lines.
pub fn parse_front_matter(lines: &Vec<String>) -> (r: Result<FrontMatter, PageError>)
    ensures
        match front_matter(lines_view(lines@)) {
            Ok(model) => r matches Ok(found) && found@ == model,
            Err(e) => r matches Err(f) && f == e,
        },
        r matches Ok(found) ==> found.body_from <= lines@.len(),
{
    let ghost all = lines_view(lines@);
    let dashes = String::from_str("---");
    let title_key = String::from_str("title");
    let timestamp_key = String::from_str("timestamp");
    if lines.len() == 0 || lines[0] != dashes {
        return Err(PageError::MissingOpening);
    }
    let mut title: Option<String> = None;
    let mut timestamp: Option<String> = None;
    let mut i: usize = 1;
    while i < lines.len() && lines[i] != dashes
        invariant
            1 <= i <= lines.len(),
            all == lines_view(lines@),
            dashes@ == fence(),
            title_key@ == "title"@,
            timestamp_key@ == "timestamp"@,
            front_matter(all) == scan_front_matter(
                all,
                i as nat,
                title.deep_view(),
                timestamp.deep_view(),
            ),
        decreases lines.len() - i,
    {
        assert(all[i as int] == lines@[i as int]@);
        let input = Input::new(lines[i].as_str());
        match find_char(&input, ':') {
            None => {
                return Err(PageError::MalformedLine(i));
            },
            Some(colon) => {
                let key = input.slice(0, colon);
                let value = trim_tail(&input, colon + 1);
                if key == title_key {
                    title = Some(value);
                } else if key == timestamp_key {
                    timestamp = Some(value);
                } else {
                    return Err(PageError::UnknownKey(i));
                }
            },
        }
        i += 1;
    }
    proof {
        if i < lines.len() {
            assert(all[i as int] == lines@[i as int]@);
        }
    }
    let body_from = if i >= lines.len() {
        lines.len()
    } else {
        i + 1
    };
    match (title, timestamp) {
        (None, _) => Err(PageError::MissingTitle),
        (Some(_), None) => Err(PageError::MissingTimestamp),
        (Some(title), Some(timestamp)) => Ok(FrontMatter { title, timestamp, body_from }),
    }
}

/// The lines from `from` on, each followed by a line feed.
pub open spec fn joined_lines(lines: Seq<Seq<char>>, from: nat, to: nat) -> Seq<char>
    decreases to,
{
    if to <= from || to > lines.len() {
        Seq::empty()
    } else {
        joined_lines(lines, from, (to - 1) as nat) + lines[to - 1] + seq!['\n']
    }
}

/// Joins the lines from `from` on, each followed by a line feed.
pub fn join_lines(lines: &Vec<String>, from: usize) -> (text: String)
    requires
        from <= lines.len(),
    ensures
        text@ == joined_lines(lines_view(lines@), from as nat, lines@.len()),
{
    let ghost all = lines_view(lines@);
    let mut text = String::new();
    let mut i: usize = from;
    while i < lines.len()
        invariant
            from <= i <= lines.len(),
            all == lines_view(lines@),
            text@ == joined_lines(all, from as nat, i as nat),
        decreases lines.len() - i,
    {
        proof {
            reveal_strlit("\n");
            assert(all[i as int] == lines@[i as int]@);
        }
        let ghost before = text@;
        text.append(lines[i].as_str());
        text.append("\n");
        assert(text@ =~= before + all[i as int] + seq!['\n']);
        i += 1;
    }
    text
}

/// Which extensions of Markdown are read, and whether raw HTML passes through.
#[derive(Clone, Copy, Debug, PartialEq, Eq, Structural)]
pub struct MarkdownOptions {
    pub table: bool,
    pub underline: bool,
    pub greentext: bool,
    pub raw_html: bool,
}

/// The HTML that `comrak` makes of a Markdown text with the given extensions
/// switched on or off and all its other options left as they are by default.
pub uninterp spec fn markdown_html(
    source: Seq<char>,
    table: bool,
    underline: bool,
    greentext: bool,
    raw_html: bool,
) -> Seq<char>;

/// Calls `comrak::markdown_to_html` with default options but for the four
/// that `options` sets: the extensions `table`, `underline` and `greentext`,
/// and the render option `unsafe_`. The contract claims only that the result
/// depends on the text and these four alone: it is the value named
/// [`markdown_html`].
#[verifier::external_body]
fn comrak_markdown_to_html(source: &str, options: &MarkdownOptions) -> (html: String)
    ensures
        html@ == markdown_html(
            source@,
            options.table,
            options.underline,
            options.greentext,
            options.raw_html,
        ),
{
    let mut converted = comrak::Options::default();
    converted.extension.table = options.table;
    converted.extension.underline = options.underline;
    converted.extension.greentext = options.greentext;
    converted.render.unsafe_ = options.raw_html;
    comrak::markdown_to_html(source, &converted)
}

/// The options under which the body of a page is converted: tables,
/// underline and greentext are read, and raw HTML passes through.
pub fn page_options() -> (options: MarkdownOptions)
    ensures
        options == (MarkdownOptions {
            table: true,
            underline: true,
            greentext: true,
            raw_html: true,
        }),
{
    MarkdownOptions { table: true, underline: true, greentext: true, raw_html: true }
}

/// A point in time with the offset of its time zone: seconds and nanoseconds
/// since the start of 1970 in universal time, and the seconds that local time
/// is ahead of universal time.
#[derive(Clone, Copy, Debug, PartialEq, Eq, Structural)]
pub struct Timestamp {
    pub seconds: i64,
    pub nanos: u32,
    pub offset: i32,
}

/// The point in time that `chrono` reads from a text in the format of
/// RFC 2822, as seconds, nanoseconds and offset; `None` where `chrono` does
/// not accept the text.
pub uninterp spec fn rfc2822_instant(text: Seq<char>) -> Option<(int, int, int)>;

/// The text in the format of RFC 2822 that `chrono` writes for a point in
/// time; `None` where `chrono` has no date and time for these numbers.
pub uninterp spec fn rfc2822_text(seconds: int, nanos: int, offset: int) -> Option<Seq<char>>;

/// Calls `chrono::DateTime::parse_from_rfc2822` and takes the result apart
/// with `timestamp`, `timestamp_subsec_nanos` and the offset's
/// `local_minus_utc`. The contract claims only that the outcome depends on
/// the text alone: it is the value named [`rfc2822_instant`].
#[verifier::external_body]
fn chrono_parse_rfc2822(text: &str) -> (r: Option<Timestamp>)
    ensures
        match rfc2822_instant(text@) {
            Some(instant) => r matches Some(t) && t.seconds == instant.0 && t.nanos == instant.1
                && t.offset == instant.2,
            None => r is None,
        },
{
    match chrono::DateTime::parse_from_rfc2822(text) {
        Ok(t) => Some(
            Timestamp {
                seconds: t.timestamp(),
                nanos: t.timestamp_subsec_nanos(),
                offset: t.offset().local_minus_utc(),
            },
        ),
        Err(_) => None,
    }
}

/// Builds the date and time with `chrono::FixedOffset::east_opt` and
/// `chrono::TimeZone::timestamp_opt` and calls `DateTime::to_rfc2822` on it.
/// That call panics where the local year is not one of 0 to 9999, which the
/// precondition rules out. The contract claims only that the outcome depends
/// on the three numbers alone: it is the value named [`rfc2822_text`].
#[verifier::external_body]
fn chrono_to_rfc2822(t: Timestamp) -> (r: Option<String>)
    requires
        t.year_has_four_digits(),
    ensures
        holds(r, rfc2822_text(t.seconds as int, t.nanos as int, t.offset as int)),
{
    match chrono::FixedOffset::east_opt(t.offset) {
        Some(zone) => match chrono::TimeZone::timestamp_opt(&zone, t.seconds, t.nanos) {
            chrono::LocalResult::Single(moment) => Some(moment.to_rfc2822()),
            _ => None,
        },
        None => None,
    }
}

impl Timestamp {
    /// Whether the local year lies between 0 and 9999: local time lies from
    /// the first second of the year 0 to the last second of the year 9999.
    pub open spec fn year_has_four_digits(&self) -> bool {
        -62_167_219_200 <= self.seconds + self.offset <= 253_402_300_799
    }

    /// Reads a date and time in the format of RFC 2822.
    pub fn parse_from_rfc2822(text: &str) -> (r: Option<Timestamp>)
        ensures
            match rfc2822_instant(text@) {
                Some(instant) => r matches Some(t) && t.seconds == instant.0 && t.nanos
                    == instant.1 && t.offset == instant.2,
                None => r is None,
            },
    {
        chrono_parse_rfc2822(text)
    }

    /// The date and time in the format of RFC 2822, which has four digits
    /// for the year: `None` for a year that needs more, or before the year 0.
    pub open spec fn rfc2822(&self) -> Option<Seq<char>> {
        if self.year_has_four_digits() {
            rfc2822_text(self.seconds as int, self.nanos as int, self.offset as int)
        } else {
            None
        }
    }

    /// Writes the date and time in the format of RFC 2822.
    pub fn to_rfc2822(&self) -> (r: Option<String>)
        ensures
            holds(r, self.rfc2822()),
    {
        if self.has_four_digit_year() {
            chrono_to_rfc2822(*self)
        } else {
            None
        }
    }

    /// Whether the local year lies between 0 and 9999.
    pub fn has_four_digit_year(&self) -> (b: bool)
        ensures
            b == self.year_has_four_digits(),
    {
        let low: i64 = -62_167_219_200;
        let high: i64 = 253_402_300_799;
        let offset: i64 = self.offset as i64;
        if offset >= 0 {
            self.seconds <= high - offset && self.seconds >= low - offset
        } else {
            self.seconds >= low - offset && self.seconds <= high - offset
        }
    }
}

/// A page of the site.
#[derive(Debug)]
pub struct Page {
    pub title: String,
    pub timestamp: Timestamp,
    /// The name under which the page is published.
    pub slug: String,
    /// The body as HTML.
    pub body: String,
}

/// The mathematical model of a [`Page`].
pub struct PageModel {
    pub title: Seq<char>,
    pub timestamp: Timestamp,
    pub slug: Seq<char>,
    pub body: Seq<char>,
}

impl View for Page {
    type V = PageModel;

    open spec fn view(&self) -> PageModel {
        PageModel {
            title: self.title@,
            timestamp: self.timestamp,
            slug: self.slug@,
            body: self.body@,
        }
    }
}

/// The page that a source, given by its lines, and a slug make: the title
/// and the timestamp of the front matter, and the lines after it converted
/// from Markdown.
pub open spec fn page_of(lines: Seq<Seq<char>>, slug: Seq<char>) -> Result<PageModel, PageError> {
    match front_matter(lines) {
        Err(e) => Err(e),
        Ok(front) => match rfc2822_instant(front.timestamp) {
            None => Err(PageError::InvalidTimestamp),
            Some(instant) => Ok(
                PageModel {
                    title: front.title,
                    timestamp: Timestamp {
                        seconds: instant.0 as i64,
                        nanos: instant.1 as u32,
                        offset: instant.2 as i32,
                    },
                    slug,
                    body: markdown_html(
                        joined_lines(lines, front.body_from, lines.len()),
                        true,
                        true,
                        true,
                        true,
                    ),
                },
            ),
        },
    }
}

/// The models of a list of pages.
pub open spec fn pages_model(pages: Seq<Page>) -> Seq<PageModel> {
    pages.map_values(|page: Page| page@)
}

impl Page {
    /// Makes a page of its source, given by its lines, and its slug.
    pub fn load(lines: &Vec<String>, slug: String) -> (r: Result<Page, PageError>)
        ensures
            match page_of(lines_view(lines@), slug@) {
                Ok(model) => r matches Ok(page) && page@ == model,
                Err(e) => r matches Err(f) && f == e,
            },
    {
        let front = match parse_front_matter(lines) {
            Ok(front) => front,
            Err(e) => {
                return Err(e);
            },
        };
        let timestamp = match Timestamp::parse_from_rfc2822(front.timestamp.as_str()) {
            Some(timestamp) => timestamp,
            None => {
                return Err(PageError::InvalidTimestamp);
            },
        };
        let source = join_lines(lines, front.body_from);
        let body = comrak_markdown_to_html(source.as_str(), &page_options());
        Ok(Page { title: front.title, timestamp, slug, body })
    }
}

} // verus!
