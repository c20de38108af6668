//! Errors that the assembler reports with their place in the source.
use vstd::prelude::*;
use crate::symbol_table::{texts, utf8_len, utf8_length};
use crate::text::{chars_of, string_from, string_of, trim, trimmed};

verus! {

/// An error of the assembler: its message, the line (counted from 1), the
/// column where it was found, and a tip.
#[derive(Debug)]
pub enum Error<'a> {
    InvalidSyntax(String, usize, Option<usize>, Option<String>),
    ExpectedArgument(&'a str, usize, Option<usize>, Option<String>),
    NonexistentData(&'a str, usize, Option<usize>, Option<String>),
    UnknownCharacter(String, usize, Option<usize>, Option<String>),
    OtherError(&'a str, usize, Option<usize>, Option<String>),
    LineLessError(&'a str),
}

/// The result of an assembler step that can fail with an `Error`.
pub type AssemblerError<'a> = Result<(), Error<'a>>;

/// The tip of an error that has a line, or nothing.
pub open spec fn tip_of(e: &Error) -> Seq<char> {
    match e {
        Error::InvalidSyntax(_, _, _, t) => opt_text(*t),
        Error::ExpectedArgument(_, _, _, t) => opt_text(*t),
        Error::NonexistentData(_, _, _, t) => opt_text(*t),
        Error::UnknownCharacter(_, _, _, t) => opt_text(*t),
        Error::OtherError(_, _, _, t) => opt_text(*t),
        Error::LineLessError(_) => Seq::empty(),
    }
}

pub open spec fn opt_text(t: Option<String>) -> Seq<char> {
    match t {
        Some(s) => s@,
        None => Seq::empty(),
    }
}

impl<'a> Error<'a> {
    /// The message of an error without a line; empty for the others, whose
    /// message comes with their place.
    pub fn message(&self) -> (m: String)
        ensures
            m@ == match self {
                Error::LineLessError(s) => s@,
                _ => Seq::empty(),
            },
    {
        match self {
            Error::LineLessError(s) => string_from(s),
            _ => String::new(),
        }
    }

    /// The tip of an error that has a line (empty when it has none).
    pub fn get_tip(&self) -> (t: String)
        requires
            !(self is LineLessError),
        ensures
            t@ == tip_of(self),
    {
        match self {
            Error::InvalidSyntax(_, _, _, s)
            | Error::ExpectedArgument(_, _, _, s)
            | Error::NonexistentData(_, _, _, s)
            | Error::UnknownCharacter(_, _, _, s)
            | Error::OtherError(_, _, _, s) => {
                if let Some(v) = s {
                    v.clone()
                } else {
                    String::new()
                }
            },
            Error::LineLessError(_) => String::new(),
        }
    }
}

/// The index of the first `;` of `t`, from `i` on, that stands outside
/// double quotes; `inq` tells whether `t[i..]` starts inside quotes.
pub open spec fn comment_from(t: Seq<char>, i: int, inq: bool) -> Option<int>
    decreases t.len() - i,
{
    if i < 0 || i >= t.len() {
        None
    } else if t[i] == '"' {
        comment_from(t, i + 1, !inq)
    } else if t[i] == ';' && !inq {
        Some(i)
    } else {
        comment_from(t, i + 1, inq)
    }
}

proof fn lemma_comment_bounds(t: Seq<char>, i: int, inq: bool)
    requires
        0 <= i,
    ensures
        comment_from(t, i, inq) matches Some(k) ==> i <= k < t.len(),
    decreases t.len() - i,
{
    if i < t.len() {
        lemma_comment_bounds(t, i + 1, !inq);
        lemma_comment_bounds(t, i + 1, inq);
    }
}

/// The index of the `;` that starts the comment of a line, if any.
pub open spec fn comment_start(t: Seq<char>) -> Option<int> {
    comment_from(t, 0, false)
}

/// A line without surrounding white space split into its code and its
/// comment, each without surrounding white space, as a source line is
/// shown under an error.
pub open spec fn split_spec(t: Seq<char>) -> (Seq<char>, Seq<char>) {
    match comment_start(t) {
        Some(k) => (trimmed(t.take(k)), trimmed(t.skip(k))),
        None => (t, Seq::empty()),
    }
}

/// The number of characters of `t`, counted from `j` on, whose UTF-8 bytes
/// come to `b`, if `b` falls between two characters.
pub open spec fn boundary_from(t: Seq<char>, b: int, j: int) -> Option<int>
    decreases t.len() - j,
{
    if j < 0 || j > t.len() {
        None
    } else if utf8_len(t.take(j)) == b {
        Some(j)
    } else if j == t.len() {
        None
    } else {
        boundary_from(t, b, j + 1)
    }
}

/// The number of spaces that a line starts with.
pub open spec fn leading_spaces(s: Seq<char>) -> nat
    decreases s.len(),
{
    if s.len() > 0 && s[0] == ' ' {
        1 + leading_spaces(s.drop_first())
    } else {
        0
    }
}

/// The line (counted from 1) and column of an error that has them.
pub open spec fn place_of(e: Error) -> (usize, Option<usize>) {
    match e {
        Error::InvalidSyntax(_, l, p, _) => (l, p),
        Error::ExpectedArgument(_, l, p, _) => (l, p),
        Error::NonexistentData(_, l, p, _) => (l, p),
        Error::UnknownCharacter(_, l, p, _) => (l, p),
        Error::OtherError(_, l, p, _) => (l, p),
        Error::LineLessError(_) => (0, None),
    }
}

/// The headline of an error.
pub open spec fn headline(e: Error) -> Seq<char> {
    match e {
        Error::InvalidSyntax(s, _, _, _) => "invalid syntax: "@ + s@,
        Error::ExpectedArgument(s, _, _, _) => "expected argument: "@ + s@,
        Error::NonexistentData(s, _, _, _) => "nonexistent data: "@ + s@,
        Error::UnknownCharacter(s, _, _, _) => "unknown character: "@ + s@,
        Error::OtherError(s, _, _, _) => s@,
        Error::LineLessError(s) => s@,
    }
}

/// The source line an error points at, when it has a column and the line
/// exists.
pub open spec fn pointed_line(e: Error, lines: Seq<Seq<char>>) -> Option<Seq<char>> {
    let (l, p) = place_of(e);
    if !(e is LineLessError) && p is Some && 1 <= l <= lines.len() {
        Some(lines[l - 1])
    } else {
        None
    }
}

/// Where the code of a shown line ends: the `;` that starts its comment is
/// found by its character index, which is then taken as a byte offset.
pub open spec fn code_end(t: Seq<char>) -> int {
    match comment_start(t) {
        Some(k) => match boundary_from(t, k, 0) {
            Some(j) => j,
            None => t.len() as int,
        },
        None => t.len() as int,
    }
}

/// Whether an error can be shown: its column is at least 2 and the shown
/// line can be cut where its comment starts, and the numbers fit in memory.
pub open spec fn reportable(e: Error, lines: Seq<Seq<char>>) -> bool {
    &&& place_of(e).1 matches Some(p) ==> 2 <= p && p + 6 <= usize::MAX
    &&& pointed_line(e, lines) matches Some(raw) ==> {
        let t = trimmed(raw);
        &&& raw.len() <= usize::MAX / 8
        &&& comment_start(t) matches Some(k) ==> boundary_from(t, k, 0) is Some
    }
}

/// What is shown of an error: its headline, the file, the line it points
/// at (number, code and comment), the column (`None` when the place lies
/// past the line), the byte offset of the marked character in the line
/// without surrounding white space, how far the caret is indented, and
/// the tip.
pub struct ErrorReport {
    pub message: String,
    pub source: String,
    pub line: Option<(usize, String, String)>,
    pub column: Option<usize>,
    pub highlight: Option<usize>,
    pub caret_indent: Option<usize>,
    pub tip: String,
}

/// The mathematical model of an `ErrorReport`.
pub struct ReportView {
    pub message: Seq<char>,
    pub source: Seq<char>,
    pub line: Option<(usize, Seq<char>, Seq<char>)>,
    pub column: Option<usize>,
    pub highlight: Option<usize>,
    pub caret_indent: Option<usize>,
    pub tip: Seq<char>,
}

impl View for ErrorReport {
    type V = ReportView;

    open spec fn view(&self) -> ReportView {
        ReportView {
            message: self.message@,
            source: self.source@,
            line: match self.line {
                Some((n, c, m)) => Some((n, c@, m@)),
                None => None,
            },
            column: self.column,
            highlight: self.highlight,
            caret_indent: self.caret_indent,
            tip: self.tip@,
        }
    }
}

/// What is shown of an error (see `ErrorReport`): for an error with a
/// column whose line exists, the line is split at its comment; the column
/// is the place less 2 plus the line's leading spaces plus 1, when the place
/// less 2 lies within the line; the caret is indented by the place plus 6.
pub open spec fn error_report_spec(e: Error, source: Seq<char>, lines: Seq<Seq<char>>) -> ReportView {
    let (l, p) = place_of(e);
    let shown = match pointed_line(e, lines) {
        Some(raw) => {
            let t = trimmed(raw);
            let j = code_end(t);
            let off = p.unwrap() - 2;
            let inside = off < utf8_len(t);
            (
                Some((l, t.take(j), t.skip(j))),
                if inside { Some((off + leading_spaces(raw) + 1) as usize) } else { None },
                if inside { Some(off as usize) } else { None },
            )
        },
        None => (None, None, None),
    };
    ReportView {
        message: headline(e),
        source,
        line: shown.0,
        column: shown.1,
        highlight: shown.2,
        caret_indent: match p {
            Some(v) => Some((v + 6) as usize),
            None => None,
        },
        tip: tip_of(&e),
    }
}

fn comment_index(t: &[char]) -> (r: Option<usize>)
    ensures
        match r {
            Some(k) => comment_start(t@) == Some(k as int) && k < t@.len(),
            None => comment_start(t@) is None,
        },
{
    proof {
        lemma_comment_bounds(t@, 0, false);
    }
    let mut inq = false;
    let mut i: usize = 0;
    while i < t.len()
        invariant
            i <= t@.len(),
            comment_from(t@, 0, false) == comment_from(t@, i as int, inq),
        decreases t@.len() - i,
    {
        if t[i] == '"' {
            inq = !inq;
        } else if t[i] == ';' && !inq {
            return Some(i);
        }
        i = i + 1;
    }
    None
}

fn boundary(t: &[char], b: usize) -> (r: Option<usize>)
    ensures
        match r {
            Some(j) => boundary_from(t@, b as int, 0) == Some(j as int),
            None => boundary_from(t@, b as int, 0) is None,
        },
{
    let mut acc: u128 = 0;
    let mut j: usize = 0;
    loop
        invariant
            j <= t@.len(),
            acc == utf8_len(t@.take(j as int)),
            acc <= 4 * j,
            boundary_from(t@, b as int, 0) == boundary_from(t@, b as int, j as int),
        decreases t@.len() - j,
    {
        if acc == b as u128 {
            return Some(j);
        }
        if j == t.len() {
            return None;
        }
        let u = t[j] as u32;
        let w: u128 = if u < 0x80 {
            1
        } else if u < 0x800 {
            2
        } else if u < 0x10000 {
            3
        } else {
            4
        };
        assert(t@.take(j + 1).drop_last() =~= t@.take(j as int));
        acc = acc + w;
        j = j + 1;
    }
}

fn count_leading_spaces(s: &[char]) -> (n: usize)
    ensures
        n == leading_spaces(s@),
        n <= s@.len(),
{
    let mut i: usize = 0;
    assert(s@.skip(0) =~= s@);
    while i < s.len() && s[i] == ' '
        invariant
            i <= s@.len(),
            leading_spaces(s@) == i + leading_spaces(s@.skip(i as int)),
        decreases s@.len() - i,
    {
        assert(s@.skip(i as int).drop_first() =~= s@.skip(i + 1));
        i = i + 1;
    }
    i
}

/// The code and the comment of a source line, each without surrounding
/// white space (see `split_spec`).
pub fn split_code_comment(line: &str) -> (r: (String, String))
    ensures
        (r.0@, r.1@) == split_spec(trimmed(line@)),
{
    let cs = chars_of(line);
    let t = trim(cs.as_slice());
    match comment_index(t.as_slice()) {
        Some(k) => {
            let code = trim(crate::text::sub_vec(t.as_slice(), 0, k).as_slice());
            let comment = trim(crate::text::sub_vec(t.as_slice(), k, t.len()).as_slice());
            assert(t@.subrange(0, k as int) =~= t@.take(k as int));
            assert(t@.subrange(k as int, t@.len() as int) =~= t@.skip(k as int));
            (string_of(code.as_slice(), 0, code.len()), string_of(comment.as_slice(), 0, comment.len()))
        },
        None => (string_of(t.as_slice(), 0, t.len()), String::new()),
    }
}

fn headline_of(e: &Error) -> (m: String)
    ensures
        m@ == headline(*e),
{
    match e {
        Error::InvalidSyntax(s, _, _, _) => string_from("invalid syntax: ").concat(s.as_str()),
        Error::ExpectedArgument(s, _, _, _) => string_from("expected argument: ").concat(s),
        Error::NonexistentData(s, _, _, _) => string_from("nonexistent data: ").concat(s),
        Error::UnknownCharacter(s, _, _, _) => string_from("unknown character: ").concat(s.as_str()),
        Error::OtherError(s, _, _, _) => string_from(s),
        Error::LineLessError(s) => string_from(s),
    }
}

fn place_exec(e: &Error) -> (r: (usize, Option<usize>))
    ensures
        r == place_of(*e),
{
    match e {
        Error::InvalidSyntax(_, l, p, _)
        | Error::ExpectedArgument(_, l, p, _)
        | Error::NonexistentData(_, l, p, _)
        | Error::UnknownCharacter(_, l, p, _)
        | Error::OtherError(_, l, p, _) => (*l, *p),
        Error::LineLessError(_) => (0, None),
    }
}

/// What is shown of an error pointing into the source `lines` of the file
/// `source_path` (see `error_report_spec`).
pub fn error_report(e: &Error, source_path: &str, lines: &Vec<String>) -> (r: ErrorReport)
    requires
        reportable(*e, texts(lines@)),
    ensures
        r@ == error_report_spec(*e, source_path@, texts(lines@)),
{
    let ghost ls = texts(lines@);
    let message = headline_of(e);
    let source = string_from(source_path);
    let (l, p) = place_exec(e);
    let tip = match e {
        Error::LineLessError(_) => String::new(),
        _ => e.get_tip(),
    };
    let caret_indent = match p {
        Some(v) => Some(v + 6),
        None => None,
    };
    let mut line: Option<(usize, String, String)> = None;
    let mut column: Option<usize> = None;
    let mut highlight: Option<usize> = None;
    let has_line = match e {
        Error::LineLessError(_) => false,
        _ => p.is_some() && 1 <= l && l <= lines.len(),
    };
    if has_line {
        let place = p.unwrap();
        let raw = chars_of(lines[l - 1].as_str());
        assert(ls[l - 1] == lines@[l - 1]@);
        let t = trim(raw.as_slice());
        let j = match comment_index(t.as_slice()) {
            Some(k) => match boundary(t.as_slice(), k) {
                Some(j) => j,
                None => t.len(),
            },
            None => t.len(),
        };
        proof {
            if comment_start(t@) is Some {
                lemma_boundary_bounds(t@, comment_start(t@).unwrap(), 0);
            }
        }
        let code = string_of(t.as_slice(), 0, j);
        let comment = string_of(t.as_slice(), j, t.len());
        assert(t@.subrange(0, j as int) =~= t@.take(j as int));
        assert(t@.subrange(j as int, t@.len() as int) =~= t@.skip(j as int));
        line = Some((l, code, comment));
        let off = place - 2;
        let len = utf8_length(t.as_slice(), 0, t.len());
        assert(t@.subrange(0, t@.len() as int) =~= t@);
        if (off as u128) < len {
            let spaces = count_leading_spaces(raw.as_slice());
            proof {
                lemma_utf8_len_bound(t@);
            }
            column = Some(off + spaces + 1);
            highlight = Some(off);
        }
    }
    ErrorReport { message, source, line, column, highlight, caret_indent, tip }
}

proof fn lemma_boundary_bounds(t: Seq<char>, b: int, j: int)
    requires
        0 <= j,
    ensures
        boundary_from(t, b, j) matches Some(k) ==> j <= k <= t.len(),
    decreases t.len() - j,
{
    if j < t.len() {
        lemma_boundary_bounds(t, b, j + 1);
    }
}

proof fn lemma_utf8_len_bound(t: Seq<char>)
    ensures
        utf8_len(t) <= 4 * t.len(),
    decreases t.len(),
{
    if t.len() > 0 {
        lemma_utf8_len_bound(t.drop_last());
    }
}

/// Whether an error can be shown (see `reportable`).
pub fn can_report(e: &Error, lines: &Vec<String>) -> (b: bool)
    ensures
        b == reportable(*e, texts(lines@)),
{
    let ghost ls = texts(lines@);
    let (l, p) = place_exec(e);
    if let Some(v) = p {
        if v < 2 || v > usize::MAX - 6 {
            return false;
        }
    }
    let has_line = match e {
        Error::LineLessError(_) => false,
        _ => p.is_some() && 1 <= l && l <= lines.len(),
    };
    if has_line {
        let raw = chars_of(lines[l - 1].as_str());
        assert(ls[l - 1] == lines@[l - 1]@);
        if raw.len() > usize::MAX / 8 {
            return false;
        }
        let t = trim(raw.as_slice());
        if let Some(k) = comment_index(t.as_slice()) {
            if boundary(t.as_slice(), k).is_none() {
                return false;
            }
        }
    }
    true
}

} // verus!
