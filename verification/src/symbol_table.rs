//! The passes of the assembler over the source that fill the symbol table:
//! the start address, the variables and the labels.
use vstd::prelude::*;
use crate::numbers::{parse_i32, parse_i32_spec, parse_usize, parse_usize_spec};
use crate::symbols::{SymbolTable, label_of, variable_of};
use crate::text::{before_char, chars_of, contains_char, find_char, first_index, second_word, second_word_spec, split_first, starts_with, sub_vec, trim, trimmed};

verus! {

/// The texts of the source lines.
pub open spec fn texts(lines: Seq<String>) -> Seq<Seq<char>> {
    lines.map_values(|s: String| s@)
}

/// Whether `s` begins with the text `p`.
pub open spec fn has_prefix(s: Seq<char>, p: Seq<char>) -> bool {
    p.len() <= s.len() && s.take(p.len() as int) == p
}

/// The code of a line: the trimmed line up to its first `;`, or `None` for
/// a blank line or a line that is all comment.
pub open spec fn code_of(line: Seq<char>) -> Option<Seq<char>> {
    let t = trimmed(line);
    if t.len() == 0 || t[0] == ';' {
        None
    } else {
        Some(before_char(t, ';'))
    }
}

/// The number of bytes of a character in UTF-8.
pub open spec fn utf8_width(c: char) -> nat {
    let u = c as u32;
    if u < 0x80 {
        1
    } else if u < 0x800 {
        2
    } else if u < 0x10000 {
        3
    } else {
        4
    }
}

/// The number of bytes of a text in UTF-8 (`str::len`).
pub open spec fn utf8_len(s: Seq<char>) -> nat
    decreases s.len(),
{
    if s.len() == 0 {
        0
    } else {
        utf8_len(s.drop_last()) + utf8_width(s.last())
    }
}

/// The start address that a `.start` line gives: its second word, without a
/// leading `[` or `$` and a trailing `]`, read as a number.
pub open spec fn start_value(code: Seq<char>) -> Option<i32> {
    match second_word_spec(code) {
        None => None,
        Some((a, b)) => {
            let w = code.subrange(a, b);
            let s1 = if w.len() > 0 && (w[0] == '[' || w[0] == '$') {
                w.drop_first()
            } else {
                w
            };
            let s2 = if s1.len() > 0 && s1.last() == ']' {
                s1.drop_last()
            } else {
                s1
            };
            parse_i32_spec(s2)
        },
    }
}

/// The last `.start` line among the first `n` lines, and what it gives.
pub open spec fn start_scan(lines: Seq<Seq<char>>, n: int) -> (usize, Option<i32>)
    decreases n,
{
    if n <= 0 {
        (1, None)
    } else {
        match code_of(lines[n - 1]) {
            Some(c) => if has_prefix(c, ".start"@) {
                ((n - 1) as usize, start_value(c))
            } else {
                start_scan(lines, n - 1)
            },
            None => start_scan(lines, n - 1),
        }
    }
}

/// The code bounds of a line: `code_of` as a subrange of the characters.
fn code_bounds(line: &[char]) -> (r: Option<Vec<char>>)
    ensures
        match r {
            Some(c) => code_of(line@) == Some(c@) && c@.len() <= line@.len(),
            None => code_of(line@) is None,
        },
{
    let t = trim(line);
    if t.len() == 0 || t[0] == ';' {
        return None;
    }
    Some(split_first(t.as_slice(), ';'))
}

fn start_value_exec(code: &[char]) -> (r: Option<i32>)
    ensures
        r == start_value(code@),
{
    match second_word(code) {
        None => None,
        Some((a, b)) => {
            let ghost w = code@.subrange(a as int, b as int);
            let mut from = a;
            if code[a] == '[' || code[a] == '$' {
                from = a + 1;
            }
            let mut to = b;
            if from < to && code[to - 1] == ']' {
                to = to - 1;
            }
            proof {
                let s1 = if w.len() > 0 && (w[0] == '[' || w[0] == '$') {
                    w.drop_first()
                } else {
                    w
                };
                assert(s1 =~= code@.subrange(from as int, b as int));
                let s2 = if s1.len() > 0 && s1.last() == ']' {
                    s1.drop_last()
                } else {
                    s1
                };
                assert(s2 =~= code@.subrange(from as int, to as int));
            }
            parse_i32(code, from, to)
        },
    }
}

/// The message when the start address is out of range.
pub open spec fn start_too_large() -> Seq<char> {
    "Start location must not exceed 511"@
}

pub open spec fn start_rejected(value: Option<i32>) -> bool {
    match value {
        Some(v) => v > 511,
        None => false,
    }
}

pub open spec fn start_or_default(value: Option<i32>) -> i32 {
    match value {
        Some(v) => v,
        None => 100,
    }
}

/// Reads the start address of a program from its `.start` directive (the
/// last one counts; 100 without one). A start above 511 is an error on the
/// line of the directive, and leaves the table as it was.
pub fn process_start(lines: &[String], symbols: &mut SymbolTable) -> (r: Result<(), (usize, String)>)
    ensures
        ({
            let (line, value) = start_scan(texts(lines@), lines@.len() as int);
            &&& start_rejected(value) ==> (r matches Err((l, m)) && l == line && m@
                == start_too_large())
            &&& start_rejected(value) ==> *final(symbols) == *old(symbols)
            &&& !start_rejected(value) ==> r is Ok
            &&& !start_rejected(value) ==> final(symbols).start == start_or_default(value)
            &&& !start_rejected(value) ==> final(symbols).labels == old(symbols).labels
            &&& !start_rejected(value) ==> final(symbols).variables == old(symbols).variables
        }),
{
    let mut start_number: Option<i32> = None;
    let mut start_line: usize = 1;
    let mut index: usize = 0;
    while index < lines.len()
        invariant
            index <= lines@.len(),
            (start_line, start_number) == start_scan(texts(lines@), index as int),
        decreases lines@.len() - index,
    {
        let line = chars_of(lines[index].as_str());
        assert(texts(lines@)[index as int] == lines@[index as int]@);
        match code_bounds(line.as_slice()) {
            Some(code) => {
                if starts_with(code.as_slice(), ".start") {
                    start_line = index;
                    start_number = start_value_exec(code.as_slice());
                }
            },
            None => {},
        }
        index = index + 1;
    }
    if let Some(val) = start_number {
        if val > 511 {
            return Err((start_line, String::from_str("Start location must not exceed 511")));
        }
    }
    symbols.start = match start_number {
        Some(v) => v,
        None => 100,
    };
    Ok(())
}

/// What a line says of a variable: nothing (`None`), a value that does
/// not parse (`Some(None)`), or a name and its value.
pub open spec fn variable_line(line: Seq<char>) -> Option<Option<(Seq<char>, i32)>> {
    match code_of(line) {
        None => None,
        Some(c) => match first_index(c, '=') {
            None => None,
            Some(eq) => match parse_i32_spec(trimmed(c.subrange(eq + 1, c.len() as int))) {
                Some(v) => Some(Some((trimmed(c.take(eq)), v))),
                None => Some(None),
            },
        },
    }
}

/// The variable definitions of the first `n` lines, in order, as (name,
/// line, value); or the first line whose value does not parse.
pub open spec fn variable_defs(lines: Seq<Seq<char>>, n: int) -> Result<Seq<(Seq<char>, usize, i32)>, usize>
    decreases n,
{
    if n <= 0 {
        Ok(Seq::empty())
    } else {
        match variable_defs(lines, n - 1) {
            Err(e) => Err(e),
            Ok(d) => match variable_line(lines[n - 1]) {
                None => Ok(d),
                Some(None) => Err((n - 1) as usize),
                Some(Some((name, v))) => Ok(d.push((name, (n - 1) as usize, v))),
            },
        }
    }
}

/// The last of `defs` for `name`.
pub open spec fn latest<T>(defs: Seq<(Seq<char>, usize, T)>, name: Seq<char>) -> Option<(usize, T)>
    decreases defs.len(),
{
    if defs.len() == 0 {
        None
    } else if defs.last().0 == name {
        Some((defs.last().1, defs.last().2))
    } else {
        latest(defs.drop_last(), name)
    }
}

/// The message when a variable's value does not parse.
pub open spec fn bad_value() -> Seq<char> {
    "Could not parse variable value"@
}

/// Whether every line is at most half as long as the address space.
pub open spec fn lines_fit(lines: Seq<String>) -> bool {
    forall|i: int| 0 <= i < lines.len() ==> (#[trigger] lines[i])@.len() <= usize::MAX / 2
}

/// The variable definitions before the first line whose value does not
/// parse, among the first `n` lines.
pub open spec fn defs_before(lines: Seq<Seq<char>>, n: int) -> Seq<(Seq<char>, usize, i32)>
    decreases n,
{
    if n <= 0 {
        Seq::empty()
    } else {
        match variable_defs(lines, n) {
            Ok(d) => d,
            Err(_) => defs_before(lines, n - 1),
        }
    }
}

/// The variables after defining `defs` on top of `old_vars`.
pub open spec fn vars_after(old_vars: Seq<crate::symbols::Variable>, defs: Seq<(Seq<char>, usize, i32)>, n: Seq<char>) -> Option<(usize, i32)> {
    match latest(defs, n) {
        Some(d) => Some(d),
        None => variable_of(old_vars, n),
    }
}

/// Once a line's value does not parse, the definitions before it are all
/// there are.
proof fn lemma_defs_stop(lines: Seq<Seq<char>>, k: int)
    requires
        0 <= k < lines.len(),
        variable_defs(lines, k) is Ok,
        variable_line(lines[k]) == Some(None::<(Seq<char>, i32)>),
    ensures
        defs_before(lines, lines.len() as int) == variable_defs(lines, k)->Ok_0,
        variable_defs(lines, lines.len() as int) == Err::<Seq<(Seq<char>, usize, i32)>, usize>(k as usize),
{
    lemma_defs_stop_from(lines, k, lines.len() as int);
}

proof fn lemma_defs_stop_from(lines: Seq<Seq<char>>, k: int, n: int)
    requires
        0 <= k < n <= lines.len(),
        variable_defs(lines, k) is Ok,
        variable_line(lines[k]) == Some(None::<(Seq<char>, i32)>),
    ensures
        defs_before(lines, n) == variable_defs(lines, k)->Ok_0,
        variable_defs(lines, n) == Err::<Seq<(Seq<char>, usize, i32)>, usize>(k as usize),
    decreases n,
{
    if n == k + 1 {
        if k > 0 {
            assert(defs_before(lines, k) == variable_defs(lines, k)->Ok_0);
        } else {
            assert(variable_defs(lines, 0) == Ok::<Seq<(Seq<char>, usize, i32)>, usize>(Seq::empty()));
        }
    } else {
        lemma_defs_stop_from(lines, k, n - 1);
    }
}

fn define_variable(symbols: &mut SymbolTable, name: &Vec<char>, index: usize, v: i32, Ghost(old_vars): Ghost<Seq<crate::symbols::Variable>>, Ghost(defs): Ghost<Seq<(Seq<char>, usize, i32)>>)
    requires
        old(symbols).wf(),
        name@.len() <= usize::MAX / 2,
        index < usize::MAX,
        forall|n: Seq<char>|
            #[trigger] variable_of(old(symbols).variables@, n) == vars_after(old_vars, defs, n),
    ensures
        final(symbols).wf(),
        final(symbols).labels@ == old(symbols).labels@,
        final(symbols).start == old(symbols).start,
        forall|n: Seq<char>|
            #[trigger] variable_of(final(symbols).variables@, n) == vars_after(
                old_vars,
                defs.push((name@, index, v)),
                n,
            ),
{
    let name_string = crate::text::string_of(name.as_slice(), 0, name.len());
    assert(name@.subrange(0, name@.len() as int) =~= name@);
    symbols.insert_variable(name_string, index, v);
    proof {
        let d = defs.push((name@, index, v));
        assert forall|n: Seq<char>|
            #[trigger] variable_of(symbols.variables@, n) == vars_after(old_vars, d, n) by {
            assert(d.drop_last() =~= defs);
        }
    }
}

/// What a line says of a variable (see `variable_line`).
fn variable_step(line: &[char]) -> (r: Option<Option<(Vec<char>, i32)>>)
    ensures
        match r {
            None => variable_line(line@) is None,
            Some(None) => variable_line(line@) == Some(None::<(Seq<char>, i32)>),
            Some(Some((name, v))) => variable_line(line@) == Some(Some((name@, v))) && name@.len()
                <= line@.len(),
        },
{
    let code = match code_bounds(line) {
        Some(c) => c,
        None => return None,
    };
    let eq = match find_char(code.as_slice(), '=') {
        Some(eq) => eq,
        None => return None,
    };
    let n = code.len();
    let left = sub_vec(code.as_slice(), 0, eq);
    let right = sub_vec(code.as_slice(), eq + 1, n);
    let name = trim(left.as_slice());
    let value = trim(right.as_slice());
    assert(left@ =~= code@.take(eq as int));
    assert(value@.subrange(0, value@.len() as int) =~= value@);
    match parse_i32(value.as_slice(), 0, value.len()) {
        Some(v) => Some(Some((name, v))),
        None => Some(None),
    }
}

/// Reads the variables (`name = value`) of a program into the table; a
/// later definition of a name replaces an earlier one. A value that does
/// not parse is an error on its line, after the definitions before it.
pub fn process_variables(lines: &[String], symbols: &mut SymbolTable) -> (r: Result<(), (usize, String)>)
    requires
        old(symbols).wf(),
        lines_fit(lines@),
    ensures
        final(symbols).wf(),
        final(symbols).labels@ == old(symbols).labels@,
        final(symbols).start == old(symbols).start,
        match variable_defs(texts(lines@), lines@.len() as int) {
            Ok(defs) => r is Ok,
            Err(k) => r matches Err((l, m)) && l == k && m@ == bad_value(),
        },
        forall|n: Seq<char>|
            #[trigger] variable_of(final(symbols).variables@, n) == vars_after(
                old(symbols).variables@,
                defs_before(texts(lines@), lines@.len() as int),
                n,
            ),
{
    let ghost old_vars = symbols.variables@;
    let ghost ls = texts(lines@);
    let mut index: usize = 0;
    let ghost mut defs: Seq<(Seq<char>, usize, i32)> = Seq::empty();
    while index < lines.len()
        invariant
            index <= lines@.len(),
            ls == texts(lines@),
            old_vars == old(symbols).variables@,
            lines_fit(lines@),
            symbols.wf(),
            symbols.labels@ == old(symbols).labels@,
            symbols.start == old(symbols).start,
            variable_defs(ls, index as int) == Ok::<_, usize>(defs),
            forall|n: Seq<char>|
                #[trigger] variable_of(symbols.variables@, n) == vars_after(old_vars, defs, n),
        decreases lines@.len() - index,
    {
        let line = chars_of(lines[index].as_str());
        assert(ls[index as int] == lines@[index as int]@);
        match variable_step(line.as_slice()) {
            None => {},
            Some(None) => {
                assert(defs_before(ls, lines@.len() as int) == defs && variable_defs(
                    ls,
                    lines@.len() as int,
                ) == Err::<Seq<(Seq<char>, usize, i32)>, usize>(index)) by {
                    lemma_defs_stop(ls, index as int);
                }
                return Err((index, String::from_str("Could not parse variable value")));
            },
            Some(Some((name, v))) => {
                assert(lines@[index as int]@.len() <= usize::MAX / 2);
                define_variable(symbols, &name, index, v, Ghost(old_vars), Ghost(defs));
                proof {
                    defs = defs.push((name@, index, v));
                }
            },
        }
        index = index + 1;
    }
    proof {
        assert(defs_before(ls, lines@.len() as int) == defs);
    }
    Ok(())
}

/// `s` without its trailing colons (`trim_end_matches(':')`).
pub open spec fn trim_colons(s: Seq<char>) -> Seq<char>
    decreases s.len(),
{
    if s.len() > 0 && s.last() == ':' {
        trim_colons(s.drop_last())
    } else {
        s
    }
}

/// The number of bytes between the first two double quotes of a line.
pub open spec fn asciiz_len(t: Seq<char>) -> nat {
    match first_index(t, '"') {
        None => 0,
        Some(a) => match first_index(t.subrange(a + 1, t.len() as int), '"') {
            None => 0,
            Some(e) => utf8_len(t.subrange(a + 1, a + 1 + e)),
        },
    }
}

/// The amount of a `.pad` line: its second word (0 without one).
pub open spec fn pad_amount(code: Seq<char>) -> Option<usize> {
    match second_word_spec(code) {
        Some((a, b)) => parse_usize_spec(code.subrange(a, b)),
        None => Some(0),
    }
}

/// What a line adds to the address counter, and the label it defines (at
/// the address before it); `Err` when a `.pad` amount does not parse.
#[verifier::opaque]
pub open spec fn label_line(line: Seq<char>) -> Result<(nat, Option<Seq<char>>), ()> {
    let t = trimmed(line);
    if t.len() == 0 || t[0] == ';' || has_prefix(t, ".start"@) {
        Ok((0, None))
    } else {
        let code = before_char(t, ';');
        let tc = trimmed(code);
        if tc.len() > 0 && tc.last() == ':' && !tc.contains(' ') {
            Ok((0, Some(trimmed(trimmed(trim_colons(tc))))))
        } else if has_prefix(code, ".asciiz"@) {
            Ok((asciiz_len(t), None))
        } else if has_prefix(code, ".word"@) {
            Ok((1, None))
        } else if has_prefix(code, ".pad"@) {
            match pad_amount(code) {
                Some(v) => Ok((v as nat, None)),
                None => Err(()),
            }
        } else if !(tc.contains('=') || has_prefix(tc, ".data"@)) {
            Ok((1, None))
        } else {
            Ok((0, None))
        }
    }
}

/// The address counter after the first `n` lines (a `.pad` whose amount
/// does not parse adds nothing).
pub open spec fn label_total(lines: Seq<Seq<char>>, n: int, start: int) -> int
    decreases n,
{
    if n <= 0 {
        start
    } else {
        label_total(lines, n - 1, start) + match label_line(lines[n - 1]) {
            Ok((d, _)) => d as int,
            Err(_) => 0,
        }
    }
}

/// The label definitions of the first `n` lines, in order, as (name, line,
/// address); `Err` once a `.pad` amount does not parse.
pub open spec fn label_scan(lines: Seq<Seq<char>>, n: int, start: int) -> Result<Seq<(Seq<char>, usize, usize)>, ()>
    decreases n,
{
    if n <= 0 {
        Ok(Seq::empty())
    } else {
        match label_scan(lines, n - 1, start) {
            Err(()) => Err(()),
            Ok(d) => match label_line(lines[n - 1]) {
                Err(()) => Err(()),
                Ok((_, None)) => Ok(d),
                Ok((_, Some(name))) => Ok(
                    d.push((name, (n - 1) as usize, label_total(lines, n - 1, start) as usize)),
                ),
            },
        }
    }
}

/// The label definitions before the first line whose `.pad` amount does
/// not parse, among the first `n` lines.
pub open spec fn label_defs_before(lines: Seq<Seq<char>>, n: int, start: int) -> Seq<(Seq<char>, usize, usize)>
    decreases n,
{
    if n <= 0 {
        Seq::empty()
    } else {
        match label_scan(lines, n, start) {
            Ok(d) => d,
            Err(_) => label_defs_before(lines, n - 1, start),
        }
    }
}

/// The labels after defining `defs` on top of `old_labels`.
pub open spec fn labels_after(old_labels: Seq<crate::symbols::Label>, defs: Seq<(Seq<char>, usize, usize)>, n: Seq<char>) -> Option<(usize, usize)> {
    match latest(defs, n) {
        Some(d) => Some(d),
        None => label_of(old_labels, n),
    }
}

proof fn lemma_total_monotone(lines: Seq<Seq<char>>, i: int, j: int, start: int)
    requires
        0 <= i <= j,
    ensures
        label_total(lines, i, start) <= label_total(lines, j, start),
    decreases j,
{
    if j > i {
        lemma_total_monotone(lines, i, j - 1, start);
    }
}

proof fn lemma_labels_stop(lines: Seq<Seq<char>>, k: int, n: int, start: int)
    requires
        0 <= k < n <= lines.len(),
        label_scan(lines, k, start) is Ok,
        label_line(lines[k]) is Err,
    ensures
        label_defs_before(lines, n, start) == label_scan(lines, k, start)->Ok_0,
        label_scan(lines, n, start) is Err,
    decreases n,
{
    if n == k + 1 {
        if k > 0 {
            assert(label_defs_before(lines, k, start) == label_scan(lines, k, start)->Ok_0);
        } else {
            assert(label_scan(lines, 0, start) == Ok::<Seq<(Seq<char>, usize, usize)>, ()>(Seq::empty()));
        }
    } else {
        lemma_labels_stop(lines, k, n - 1, start);
    }
}

fn trim_colons_exec(s: &[char]) -> (r: Vec<char>)
    ensures
        r@ == trim_colons(s@),
        r@.len() <= s@.len(),
{
    let mut n = s.len();
    assert(s@.take(n as int) =~= s@);
    while n > 0 && s[n - 1] == ':'
        invariant
            n <= s@.len(),
            trim_colons(s@) == trim_colons(s@.take(n as int)),
        decreases n,
    {
        assert(s@.take(n as int).drop_last() =~= s@.take(n - 1));
        n = n - 1;
    }
    assert(s@.take(n as int) =~= s@.subrange(0, n as int));
    sub_vec(s, 0, n)
}

pub(crate) fn utf8_length(s: &[char], from: usize, to: usize) -> (r: u128)
    requires
        from <= to <= s@.len(),
    ensures
        r == utf8_len(s@.subrange(from as int, to as int)),
{
    let mut acc: u128 = 0;
    let mut i = from;
    while i < to
        invariant
            from <= i <= to <= s@.len(),
            acc == utf8_len(s@.subrange(from as int, i as int)),
            acc <= 4 * (i - from),
        decreases to - i,
    {
        let u = s[i] as u32;
        let w: u128 = if u < 0x80 {
            1
        } else if u < 0x800 {
            2
        } else if u < 0x10000 {
            3
        } else {
            4
        };
        assert(s@.subrange(from as int, i + 1).drop_last() =~= s@.subrange(from as int, i as int));
        acc = acc + w;
        i = i + 1;
    }
    acc
}

/// What a line does to the labels (see `label_line`).
fn label_step(line: &[char]) -> (r: Result<(u128, Option<Vec<char>>), ()>)
    ensures
        match r {
            Ok((d, None)) => label_line(line@) == Ok::<(nat, Option<Seq<char>>), ()>((d as nat, None)),
            Ok((d, Some(name))) => label_line(line@) == Ok::<(nat, Option<Seq<char>>), ()>((d as nat, Some(name@)))
                && name@.len() <= line@.len(),
            Err(()) => label_line(line@) is Err,
        },
{
    reveal(label_line);
    let t = trim(line);
    if t.len() == 0 || t[0] == ';' || starts_with(t.as_slice(), ".start") {
        return Ok((0, None));
    }
    let code = split_first(t.as_slice(), ';');
    let tc = trim(code.as_slice());
    if tc.len() > 0 && tc[tc.len() - 1] == ':' && !contains_char(tc.as_slice(), ' ') {
        let stripped = trim_colons_exec(tc.as_slice());
        let once = trim(stripped.as_slice());
        let name = trim(once.as_slice());
        return Ok((0, Some(name)));
    }
    if starts_with(code.as_slice(), ".asciiz") {
        let n = t.len();
        let d: u128 = match find_char(t.as_slice(), '"') {
            None => 0,
            Some(a) => {
                let rest = sub_vec(t.as_slice(), a + 1, n);
                match find_char(rest.as_slice(), '"') {
                    None => 0,
                    Some(e) => {
                        assert(rest@.take(e as int) =~= t@.subrange(a + 1, a + 1 + e));
                        assert(t@.subrange(a + 1, a + 1 + e) =~= rest@.subrange(0, e as int));
                        utf8_length(rest.as_slice(), 0, e)
                    },
                }
            },
        };
        return Ok((d, None));
    }
    if starts_with(code.as_slice(), ".word") {
        return Ok((1, None));
    }
    if starts_with(code.as_slice(), ".pad") {
        let amount = match second_word(code.as_slice()) {
            Some((a, b)) => parse_usize(code.as_slice(), a, b),
            None => Some(0),
        };
        return match amount {
            Some(v) => Ok((v as u128, None)),
            None => Err(()),
        };
    }
    if !(contains_char(tc.as_slice(), '=') || starts_with(tc.as_slice(), ".data")) {
        return Ok((1, None));
    }
    Ok((0, None))
}

fn define_label(symbols: &mut SymbolTable, name: &Vec<char>, index: usize, address: usize, Ghost(old_labels): Ghost<Seq<crate::symbols::Label>>, Ghost(defs): Ghost<Seq<(Seq<char>, usize, usize)>>)
    requires
        old(symbols).wf(),
        name@.len() <= usize::MAX / 2,
        index < usize::MAX,
        forall|n: Seq<char>|
            #[trigger] label_of(old(symbols).labels@, n) == labels_after(old_labels, defs, n),
    ensures
        final(symbols).wf(),
        final(symbols).variables@ == old(symbols).variables@,
        final(symbols).start == old(symbols).start,
        forall|n: Seq<char>|
            #[trigger] label_of(final(symbols).labels@, n) == labels_after(
                old_labels,
                defs.push((name@, index, address)),
                n,
            ),
{
    let name_string = crate::text::string_of(name.as_slice(), 0, name.len());
    assert(name@.subrange(0, name@.len() as int) =~= name@);
    symbols.insert_label(name_string, index, address);
    proof {
        let d = defs.push((name@, index, address));
        assert forall|n: Seq<char>|
            #[trigger] label_of(symbols.labels@, n) == labels_after(old_labels, d, n) by {
            assert(d.drop_last() =~= defs);
        }
    }
}

/// Gives each label the address of the word that follows it: the count of
/// words before it, from the start address on (`.asciiz` counts the bytes
/// of its string, `.word` one, `.pad` its amount, `.data` lines and
/// variable lines nothing, any other line one). A `.pad` amount that does
/// not parse is an error, after the labels before it.
pub fn load_labels(lines: &[String], symbols: &mut SymbolTable) -> (r: Result<(), String>)
    requires
        old(symbols).wf(),
        old(symbols).start >= 0,
        lines_fit(lines@),
        label_total(texts(lines@), lines@.len() as int, old(symbols).start as int) <= usize::MAX,
    ensures
        final(symbols).wf(),
        final(symbols).variables@ == old(symbols).variables@,
        final(symbols).start == old(symbols).start,
        match label_scan(texts(lines@), lines@.len() as int, old(symbols).start as int) {
            Ok(_) => r is Ok,
            Err(_) => r matches Err(m) && m@ == bad_value(),
        },
        forall|n: Seq<char>|
            #[trigger] label_of(final(symbols).labels@, n) == labels_after(
                old(symbols).labels@,
                label_defs_before(texts(lines@), lines@.len() as int, old(symbols).start as int),
                n,
            ),
{
    let ghost old_labels = symbols.labels@;
    let ghost ls = texts(lines@);
    let ghost start = symbols.start as int;
    let mut counter: usize = symbols.start as usize;
    let mut index: usize = 0;
    let ghost mut defs: Seq<(Seq<char>, usize, usize)> = Seq::empty();
    while index < lines.len()
        invariant
            index <= lines@.len(),
            ls == texts(lines@),
            old_labels == old(symbols).labels@,
            start == old(symbols).start,
            start >= 0,
            lines_fit(lines@),
            label_total(ls, lines@.len() as int, start) <= usize::MAX,
            symbols.wf(),
            symbols.variables@ == old(symbols).variables@,
            symbols.start == old(symbols).start,
            counter == label_total(ls, index as int, start),
            label_scan(ls, index as int, start) == Ok::<_, ()>(defs),
            forall|n: Seq<char>|
                #[trigger] label_of(symbols.labels@, n) == labels_after(old_labels, defs, n),
        decreases lines@.len() - index,
    {
        let line = chars_of(lines[index].as_str());
        assert(ls[index as int] == lines@[index as int]@);
        assert(label_total(ls, index + 1, start) <= usize::MAX) by {
            lemma_total_monotone(ls, index + 1, lines@.len() as int, start);
        }
        match label_step(line.as_slice()) {
            Err(()) => {
                assert(label_defs_before(ls, lines@.len() as int, start) == defs && label_scan(
                    ls,
                    lines@.len() as int,
                    start,
                ) is Err) by {
                    lemma_labels_stop(ls, index as int, lines@.len() as int, start);
                }
                return Err(String::from_str("Could not parse variable value"));
            },
            Ok((d, label)) => {
                if let Some(name) = label {
                    assert(lines@[index as int]@.len() <= usize::MAX / 2);
                    define_label(symbols, &name, index, counter, Ghost(old_labels), Ghost(defs));
                    proof {
                        defs = defs.push((name@, index, counter));
                    }
                }
                counter = counter + (d as usize);
            },
        }
        index = index + 1;
    }
    proof {
        assert(label_defs_before(ls, lines@.len() as int, start) == defs);
    }
    Ok(())
}

/// Whether the address counter of `load_labels` stays within `usize` over
/// all the lines (see `label_total`).
pub fn labels_fit(lines: &[String], start: i32) -> (b: bool)
    requires
        start >= 0,
    ensures
        b == (label_total(texts(lines@), lines@.len() as int, start as int) <= usize::MAX),
{
    let ghost ls = texts(lines@);
    let mut total: u128 = start as u128;
    let mut index: usize = 0;
    while index < lines.len()
        invariant
            index <= lines@.len(),
            ls == texts(lines@),
            start >= 0,
            total <= usize::MAX,
            total == label_total(ls, index as int, start as int),
        decreases lines@.len() - index,
    {
        let line = chars_of(lines[index].as_str());
        assert(ls[index as int] == lines@[index as int]@);
        match label_step(line.as_slice()) {
            Err(()) => {},
            Ok((d, _)) => {
                if d > (usize::MAX as u128) - total {
                    proof {
                        lemma_total_monotone(ls, index + 1, lines@.len() as int, start as int);
                    }
                    return false;
                }
                total = total + d;
            },
        }
        index = index + 1;
    }
    true
}

} // verus!
