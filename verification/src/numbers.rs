//! Number syntax of the assembly language (decimal, `0x` hexadecimal and
//! `0b` binary, in the manner of `from_str_radix`) and decimal formatting.
use vstd::prelude::*;
use crate::text::push_char;

verus! {

/// The value of a digit character in the given radix.
pub open spec fn digit_value(c: char, radix: int) -> Option<int> {
    let d = if '0' <= c <= '9' {
        (c as u32) - ('0' as u32)
    } else if 'a' <= c <= 'z' {
        (c as u32) - ('a' as u32) + 10
    } else if 'A' <= c <= 'Z' {
        (c as u32) - ('A' as u32) + 10
    } else {
        99
    };
    if d < radix {
        Some(d as int)
    } else {
        None
    }
}

pub open spec fn all_digits(s: Seq<char>, radix: int) -> bool {
    forall|i: int| 0 <= i < s.len() ==> (#[trigger] digit_value(s[i], radix)) is Some
}

/// The value of a string of digits, most significant first.
pub open spec fn digits_value(s: Seq<char>, radix: int) -> int
    decreases s.len(),
{
    if s.len() == 0 {
        0
    } else {
        digits_value(s.drop_last(), radix) * radix + digit_value(s.last(), radix).unwrap()
    }
}

pub open spec fn unsigned_number(s: Seq<char>, radix: int) -> Option<int> {
    if s.len() > 0 && all_digits(s, radix) {
        Some(digits_value(s, radix))
    } else {
        None
    }
}

/// The integer that `from_str_radix` reads from `s` before its range check:
/// digits with an optional `+` sign, or a `-` sign where the type is signed.
pub open spec fn radix_number(s: Seq<char>, radix: int, signed: bool) -> Option<int> {
    if s.len() > 0 && s[0] == '+' {
        unsigned_number(s.drop_first(), radix)
    } else if s.len() > 0 && s[0] == '-' && signed {
        match unsigned_number(s.drop_first(), radix) {
            Some(v) => Some(-v),
            None => None,
        }
    } else {
        unsigned_number(s, radix)
    }
}

/// A number as the assembler writes it: `0x` introduces hexadecimal, `0b`
/// binary, anything else is decimal.
pub open spec fn number_syntax(s: Seq<char>, signed: bool) -> Option<int> {
    if s.len() >= 2 && s[0] == '0' && s[1] == 'x' {
        radix_number(s.skip(2), 16, signed)
    } else if s.len() >= 2 && s[0] == '0' && s[1] == 'b' {
        radix_number(s.skip(2), 2, signed)
    } else {
        radix_number(s, 10, signed)
    }
}

/// The `i32` that `parse_number::<i32>` reads from `s`, if any.
pub open spec fn parse_i32_spec(s: Seq<char>) -> Option<i32> {
    match number_syntax(s, true) {
        Some(v) => if i32::MIN <= v <= i32::MAX {
            Some(v as i32)
        } else {
            None
        },
        None => None,
    }
}

/// The `usize` that `parse_number::<usize>` reads from `s`, if any.
pub open spec fn parse_usize_spec(s: Seq<char>) -> Option<usize> {
    match number_syntax(s, false) {
        Some(v) => if 0 <= v <= usize::MAX {
            Some(v as usize)
        } else {
            None
        },
        None => None,
    }
}

/// The `i16` that `str::parse::<i16>` reads from `s`, if any.
pub open spec fn parse_i16_spec(s: Seq<char>) -> Option<i16> {
    match radix_number(s, 10, true) {
        Some(v) => if i16::MIN <= v <= i16::MAX {
            Some(v as i16)
        } else {
            None
        },
        None => None,
    }
}

/// A bound above every value the parsers accept.
pub open spec fn cap() -> int {
    0x1_0000_0000_0000_0000
}

proof fn lemma_digits_nonneg(s: Seq<char>, radix: int)
    requires
        2 <= radix <= 16,
        all_digits(s, radix),
    ensures
        digits_value(s, radix) >= 0,
    decreases s.len(),
{
    if s.len() > 0 {
        assert(digit_value(s[s.len() - 1], radix) is Some);
        assert(all_digits(s.drop_last(), radix)) by {
            assert forall|i: int| 0 <= i < s.drop_last().len() implies (#[trigger] digit_value(
                s.drop_last()[i],
                radix,
            )) is Some by {
                assert(s.drop_last()[i] == s[i]);
            }
        }
        lemma_digits_nonneg(s.drop_last(), radix);
        let v = digits_value(s.drop_last(), radix);
        assert(v * radix >= 0) by (nonlinear_arith)
            requires
                v >= 0,
                radix >= 2,
        ;
    }
}

fn digit_of(c: char, radix: u32) -> (r: Option<u32>)
    requires
        2 <= radix <= 16,
    ensures
        match r {
            Some(d) => digit_value(c, radix as int) == Some(d as int),
            None => digit_value(c, radix as int) is None,
        },
{
    let d: u32 = if '0' <= c && c <= '9' {
        (c as u32) - ('0' as u32)
    } else if 'a' <= c && c <= 'z' {
        (c as u32) - ('a' as u32) + 10
    } else if 'A' <= c && c <= 'Z' {
        (c as u32) - ('A' as u32) + 10
    } else {
        99
    };
    if d < radix {
        Some(d)
    } else {
        None
    }
}

/// Reads the digits `s[from..to]`; the value is capped at `cap()`.
fn read_digits(s: &[char], from: usize, to: usize, radix: u32) -> (r: Option<u128>)
    requires
        from <= to <= s@.len(),
        2 <= radix <= 16,
    ensures
        ({
            let t = s@.subrange(from as int, to as int);
            match r {
                Some(v) => unsigned_number(t, radix as int) is Some && v as int == (if unsigned_number(
                    t,
                    radix as int,
                ).unwrap() < cap() {
                    unsigned_number(t, radix as int).unwrap()
                } else {
                    cap()
                }),
                None => unsigned_number(t, radix as int) is None,
            }
        }),
{
    if from == to {
        return None;
    }
    let ghost r = radix as int;
    let mut acc: u128 = 0;
    let mut i = from;
    while i < to
        invariant
            from <= i <= to <= s@.len(),
            2 <= radix <= 16,
            r == radix as int,
            all_digits(s@.subrange(from as int, i as int), r),
            acc as int == (if digits_value(s@.subrange(from as int, i as int), r) < cap() {
                digits_value(s@.subrange(from as int, i as int), r)
            } else {
                cap()
            }),
        decreases to - i,
    {
        let ghost prev = s@.subrange(from as int, i as int);
        let ghost next = s@.subrange(from as int, i + 1);
        assert(next.drop_last() =~= prev);
        match digit_of(s[i], radix) {
            None => {
                assert(s@.subrange(from as int, to as int)[i - from] == s@[i as int]);
                return None;
            },
            Some(d) => {
                proof {
                    assert forall|k: int| 0 <= k < next.len() implies (#[trigger] digit_value(
                        next[k],
                        r,
                    )) is Some by {
                        if k < prev.len() {
                            assert(next[k] == prev[k]);
                        }
                    }
                    lemma_digits_nonneg(prev, r);
                    let v = digits_value(prev, r);
                    assert(digits_value(next, r) == v * r + d);
                    if v >= cap() {
                        assert(v * r + d >= cap()) by (nonlinear_arith)
                            requires
                                v >= cap(),
                                r >= 2,
                                d >= 0,
                        ;
                    }
                    assert(acc * radix + d <= cap() * 16 + 16) by (nonlinear_arith)
                        requires
                            acc <= cap(),
                            radix <= 16,
                            d < 16,
                    ;
                }
                let big = acc * (radix as u128) + (d as u128);
                proof {
                    let v = digits_value(prev, r);
                    if v < cap() {
                        assert(acc == v);
                        assert(big == v * r + d);
                    } else {
                        assert(acc == cap());
                        assert(big >= cap()) by (nonlinear_arith)
                            requires
                                big == acc * radix + d,
                                acc == cap(),
                                radix >= 2,
                        ;
                    }
                }
                acc = if big < 0x1_0000_0000_0000_0000 {
                    big
                } else {
                    0x1_0000_0000_0000_0000
                };
                assert(s@.subrange(from as int, i + 1) == next);
            },
        }
        i = i + 1;
    }
    Some(acc)
}

/// Reads `s[from..to]` as `from_str_radix` does; the magnitude is capped at `cap()`.
fn read_radix(s: &[char], from: usize, to: usize, radix: u32, signed: bool) -> (r: Option<(
    bool,
    u128,
)>)
    requires
        from <= to <= s@.len(),
        2 <= radix <= 16,
    ensures
        ({
            let t = s@.subrange(from as int, to as int);
            match r {
                Some((neg, v)) => radix_number(t, radix as int, signed) is Some && ({
                    let n = radix_number(t, radix as int, signed).unwrap();
                    let m = if n < 0 { -n } else { n };
                    &&& v as int == (if m < cap() { m } else { cap() })
                    &&& (neg <==> n < 0 || (n == 0 && neg))
                    &&& (neg ==> n <= 0)
                    &&& (!neg ==> n >= 0)
                }),
                None => radix_number(t, radix as int, signed) is None,
            }
        }),
        r matches Some((neg, _)) ==> (neg ==> signed),
{
    let ghost t = s@.subrange(from as int, to as int);
    if from < to && s[from] == '+' {
        assert(t.drop_first() =~= s@.subrange(from + 1, to as int));
        let r = read_digits(s, from + 1, to, radix);
        proof {
            if r is Some {
                lemma_digits_nonneg(t.drop_first(), radix as int);
            }
        }
        match r {
            Some(v) => Some((false, v)),
            None => None,
        }
    } else if from < to && s[from] == '-' && signed {
        assert(t.drop_first() =~= s@.subrange(from + 1, to as int));
        let r = read_digits(s, from + 1, to, radix);
        proof {
            if r is Some {
                lemma_digits_nonneg(t.drop_first(), radix as int);
            }
        }
        match r {
            Some(v) => Some((true, v)),
            None => None,
        }
    } else {
        let r = read_digits(s, from, to, radix);
        proof {
            if r is Some {
                lemma_digits_nonneg(t, radix as int);
            }
        }
        match r {
            Some(v) => Some((false, v)),
            None => None,
        }
    }
}

/// Reads a number in the assembler's syntax from `s[from..to]`.
fn read_number(s: &[char], from: usize, to: usize, signed: bool) -> (r: Option<(bool, u128)>)
    requires
        from <= to <= s@.len(),
    ensures
        ({
            let t = s@.subrange(from as int, to as int);
            match r {
                Some((neg, v)) => number_syntax(t, signed) is Some && ({
                    let n = number_syntax(t, signed).unwrap();
                    let m = if n < 0 { -n } else { n };
                    &&& v as int == (if m < cap() { m } else { cap() })
                    &&& (neg ==> n <= 0)
                    &&& (!neg ==> n >= 0)
                }),
                None => number_syntax(t, signed) is None,
            }
        }),
        r matches Some((neg, _)) ==> (neg ==> signed),
{
    let ghost t = s@.subrange(from as int, to as int);
    if to - from >= 2 && s[from] == '0' && s[from + 1] == 'x' {
        assert(t.skip(2) =~= s@.subrange(from + 2, to as int));
        read_radix(s, from + 2, to, 16, signed)
    } else if to - from >= 2 && s[from] == '0' && s[from + 1] == 'b' {
        assert(t.skip(2) =~= s@.subrange(from + 2, to as int));
        read_radix(s, from + 2, to, 2, signed)
    } else {
        read_radix(s, from, to, 10, signed)
    }
}

/// `parse_number::<i32>` on `s[from..to]`.
pub fn parse_i32(s: &[char], from: usize, to: usize) -> (r: Option<i32>)
    requires
        from <= to <= s@.len(),
    ensures
        r == parse_i32_spec(s@.subrange(from as int, to as int)),
{
    match read_number(s, from, to, true) {
        Some((neg, v)) => {
            if neg {
                if v <= 0x8000_0000 {
                    Some((0 - (v as i64)) as i32)
                } else {
                    None
                }
            } else if v <= 0x7fff_ffff {
                Some(v as i32)
            } else {
                None
            }
        },
        None => None,
    }
}

/// `parse_number::<usize>` on `s[from..to]`.
pub fn parse_usize(s: &[char], from: usize, to: usize) -> (r: Option<usize>)
    requires
        from <= to <= s@.len(),
    ensures
        r == parse_usize_spec(s@.subrange(from as int, to as int)),
{
    match read_number(s, from, to, false) {
        Some((_, v)) => {
            if v <= usize::MAX as u128 {
                Some(v as usize)
            } else {
                None
            }
        },
        None => None,
    }
}

/// `str::parse::<i16>` on `s[from..to]`.
pub fn parse_i16(s: &[char], from: usize, to: usize) -> (r: Option<i16>)
    requires
        from <= to <= s@.len(),
    ensures
        r == parse_i16_spec(s@.subrange(from as int, to as int)),
{
    match read_radix(s, from, to, 10, true) {
        Some((neg, v)) => {
            if neg {
                if v <= 0x8000 {
                    Some((0 - (v as i32)) as i16)
                } else {
                    None
                }
            } else if v <= 0x7fff {
                Some(v as i16)
            } else {
                None
            }
        },
        None => None,
    }
}

/// The `u32` that `str::parse::<u32>` reads from `s`, if any.
pub open spec fn parse_u32_spec(s: Seq<char>) -> Option<u32> {
    match radix_number(s, 10, false) {
        Some(v) => if 0 <= v <= u32::MAX {
            Some(v as u32)
        } else {
            None
        },
        None => None,
    }
}

/// `str::parse::<u32>` on `s[from..to]`.
pub fn parse_u32(s: &[char], from: usize, to: usize) -> (r: Option<u32>)
    requires
        from <= to <= s@.len(),
    ensures
        r == parse_u32_spec(s@.subrange(from as int, to as int)),
{
    match read_radix(s, from, to, 10, false) {
        Some((_, v)) => {
            if v <= 0xffff_ffff {
                Some(v as u32)
            } else {
                None
            }
        },
        None => None,
    }
}

/// The `u16` that `parse_number::<u16>` reads from `s`, if any.
pub open spec fn parse_u16_spec(s: Seq<char>) -> Option<u16> {
    match number_syntax(s, false) {
        Some(v) => if 0 <= v <= u16::MAX {
            Some(v as u16)
        } else {
            None
        },
        None => None,
    }
}

/// The `u16` that `u16::from_str_radix(s, 16)` reads from `s`, if any.
pub open spec fn parse_u16_hex_spec(s: Seq<char>) -> Option<u16> {
    match radix_number(s, 16, false) {
        Some(v) => if 0 <= v <= u16::MAX {
            Some(v as u16)
        } else {
            None
        },
        None => None,
    }
}

/// `parse_number::<u16>` on `s[from..to]`.
pub fn parse_u16(s: &[char], from: usize, to: usize) -> (r: Option<u16>)
    requires
        from <= to <= s@.len(),
    ensures
        r == parse_u16_spec(s@.subrange(from as int, to as int)),
{
    match read_number(s, from, to, false) {
        Some((_, v)) => {
            if v <= 0xffff {
                Some(v as u16)
            } else {
                None
            }
        },
        None => None,
    }
}

/// `u16::from_str_radix(.., 16)` on `s[from..to]`.
pub fn parse_u16_hex(s: &[char], from: usize, to: usize) -> (r: Option<u16>)
    requires
        from <= to <= s@.len(),
    ensures
        r == parse_u16_hex_spec(s@.subrange(from as int, to as int)),
{
    match read_radix(s, from, to, 16, false) {
        Some((_, v)) => {
            if v <= 0xffff {
                Some(v as u16)
            } else {
                None
            }
        },
        None => None,
    }
}

/// The decimal digits of a natural number.
pub open spec fn nat_decimal(n: nat) -> Seq<char>
    decreases n,
{
    if n < 10 {
        seq![(n + 48) as char]
    } else {
        nat_decimal(n / 10).push(((n % 10) + 48) as char)
    }
}

/// The decimal text of an integer, as `to_string` writes it.
pub open spec fn decimal(n: int) -> Seq<char> {
    if n < 0 {
        seq!['-'] + nat_decimal((-n) as nat)
    } else {
        nat_decimal(n as nat)
    }
}

fn push_nat_decimal(out: &mut String, n: u64)
    ensures
        final(out)@ == old(out)@ + nat_decimal(n as nat),
    decreases n,
{
    if n >= 10 {
        push_nat_decimal(out, n / 10);
    }
    let d = (n % 10) as u8 + 48;
    push_char(out, d as char);
    assert(final(out)@ =~= old(out)@ + nat_decimal(n as nat));
}

/// The decimal text of an `i16` (`i16::to_string`).
pub fn i16_to_string(n: i16) -> (s: String)
    ensures
        s@ == decimal(n as int),
{
    let mut s = String::new();
    if n < 0 {
        push_char(&mut s, '-');
        let m = (0 - (n as i32)) as u32;
        push_nat_decimal(&mut s, m as u64);
    } else {
        push_nat_decimal(&mut s, n as u64);
    }
    assert(s@ =~= decimal(n as int));
    s
}

/// The decimal text of a `usize` (`usize::to_string`).
pub fn usize_to_string(n: usize) -> (s: String)
    ensures
        s@ == decimal(n as int),
{
    let mut s = String::new();
    push_nat_decimal(&mut s, n as u64);
    assert(s@ =~= decimal(n as int));
    s
}

} // verus!
