//! What the lexer of the assembly language reads from a line: the tokens
//! and the errors, and the inputs on which it cannot finish.
use vstd::prelude::*;
use crate::diagnostics::Error;
use crate::numbers::{decimal, parse_i16_spec, parse_i32_spec};
use crate::symbol_table::utf8_len;
use crate::symbols::{Variable, variable_of};
use crate::text::{is_alnum, is_ascii_digit, trimmed};
use crate::tokens::Token;

verus! {

/// The mathematical model of a token.
pub enum Lexeme {
    Ident(Seq<char>),
    Register(i16),
    Comma,
    Literal(i16),
    NewLine,
    Eol,
    SRCall(Seq<char>),
    MemAddr(i16),
    Directive(Seq<char>),
    RegPointer(i16),
    MemPointer(i16),
    EqualSign,
    Asciiz(Seq<char>),
}

pub open spec fn lexeme(t: Token) -> Lexeme {
    match t {
        Token::Ident(s) => Lexeme::Ident(s@),
        Token::Register(n) => Lexeme::Register(n),
        Token::Comma => Lexeme::Comma,
        Token::Literal(n) => Lexeme::Literal(n),
        Token::NewLine => Lexeme::NewLine,
        Token::Eol => Lexeme::Eol,
        Token::SRCall(s) => Lexeme::SRCall(s@),
        Token::MemAddr(n) => Lexeme::MemAddr(n),
        Token::Directive(s) => Lexeme::Directive(s@),
        Token::RegPointer(n) => Lexeme::RegPointer(n),
        Token::MemPointer(n) => Lexeme::MemPointer(n),
        Token::EqualSign => Lexeme::EqualSign,
        Token::Asciiz(s) => Lexeme::Asciiz(s@),
    }
}

/// The mathematical model of a lexer error: whether it is an unknown
/// character (else invalid syntax), its message, line, column and tip.
pub struct Fault {
    pub unknown: bool,
    pub message: Seq<char>,
    pub line: usize,
    pub place: Option<usize>,
    pub tip: Option<Seq<char>>,
}

pub open spec fn opt_view(t: Option<String>) -> Option<Seq<char>> {
    match t {
        Some(s) => Some(s@),
        None => None,
    }
}

pub open spec fn fault_of(e: Error) -> Fault {
    match e {
        Error::UnknownCharacter(m, l, p, t) => Fault { unknown: true, message: m@, line: l, place: p, tip: opt_view(t) },
        Error::InvalidSyntax(m, l, p, t) => Fault { unknown: false, message: m@, line: l, place: p, tip: opt_view(t) },
        Error::ExpectedArgument(m, l, p, t) => Fault { unknown: false, message: m@, line: l, place: p, tip: opt_view(t) },
        Error::NonexistentData(m, l, p, t) => Fault { unknown: false, message: m@, line: l, place: p, tip: opt_view(t) },
        Error::OtherError(m, l, p, t) => Fault { unknown: false, message: m@, line: l, place: p, tip: opt_view(t) },
        Error::LineLessError(m) => Fault { unknown: false, message: m@, line: 0, place: None, tip: None },
    }
}

/// An invalid-syntax fault.
pub open spec fn syntax(message: Seq<char>, line: usize, place: int, tip: Option<Seq<char>>) -> Fault {
    Fault { unknown: false, message, line, place: Some(place as usize), tip }
}

/// What a part of the lexer does: where it leaves the cursor and the
/// column, the tokens and faults it adds, and whether it cannot finish.
pub struct Step {
    pub next: int,
    pub pos: int,
    pub tokens: Seq<Lexeme>,
    pub faults: Seq<Fault>,
    pub abort: bool,
}

pub open spec fn moved(next: int, pos: int) -> Step {
    Step { next, pos, tokens: Seq::empty(), faults: Seq::empty(), abort: false }
}

pub open spec fn emit(next: int, pos: int, t: Lexeme) -> Step {
    Step { next, pos, tokens: seq![t], faults: Seq::empty(), abort: false }
}

pub open spec fn flag(next: int, pos: int, f: Fault) -> Step {
    Step { next, pos, tokens: Seq::empty(), faults: seq![f], abort: false }
}

pub open spec fn aborted(next: int, pos: int) -> Step {
    Step { next, pos, tokens: Seq::empty(), faults: Seq::empty(), abort: true }
}

/// Which characters a run of characters is made of.
#[derive(Clone, Copy)]
pub enum RunKind {
    /// Alphanumeric characters.
    Alnum,
    /// Alphanumeric characters and `_`.
    Word,
    /// ASCII digits.
    Digit,
}

pub open spec fn in_run(c: char, kind: RunKind) -> bool {
    match kind {
        RunKind::Alnum => is_alnum(c),
        RunKind::Word => is_alnum(c) || c == '_',
        RunKind::Digit => is_ascii_digit(c),
    }
}

/// The end of the run of `kind` characters that starts at `i`.
pub open spec fn run_end(cs: Seq<char>, i: int, kind: RunKind) -> int
    decreases cs.len() - i,
{
    if 0 <= i < cs.len() && in_run(cs[i], kind) {
        run_end(cs, i + 1, kind)
    } else {
        i
    }
}

pub open spec fn valid_registers() -> Option<Seq<char>> {
    Some("valid registers are r0-r9"@)
}

/// What `handle_invalid_character` does with a text that is not a number:
/// it looks the text up as a variable (after a leading `#`, `&`, or
/// between brackets) and makes a literal, memory indirect or address of it.
pub open spec fn invalid_char_step(input: Seq<char>, next: int, pos: int, line: usize, vars: Seq<Variable>) -> Step {
    if input.len() > 0 && input[0] == '[' && !(utf8_len(input) - 1 > 1) {
        flag(next, pos, syntax("variable couldn't be parsed \""@ + trimmed(input) + "\""@, line, pos, None))
    } else if input.len() > 0 && input[0] == '[' && utf8_len(seq![input.last()]) != 1 {
        aborted(next, pos)
    } else {
        let variable = if input.len() > 0 && (input[0] == '#' || input[0] == '&') {
            input.drop_first()
        } else if input.len() > 0 && input[0] == '[' {
            input.subrange(1, input.len() - 1)
        } else {
            input
        };
        match variable_of(vars, trimmed(variable)) {
            Some((_, v)) => if input.len() > 0 && input[0] == '[' {
                emit(next, pos, Lexeme::MemAddr(v as i16))
            } else if input.len() > 0 && input[0] == '#' {
                emit(next, pos, Lexeme::Literal(v as i16))
            } else if input.len() > 0 && input[0] == '&' {
                emit(next, pos, Lexeme::MemPointer(v as i16))
            } else {
                moved(next, pos)
            },
            None => flag(next, pos, syntax("could not find variable \""@ + trimmed(variable) + "\""@, line, pos, None)),
        }
    }
}

/// A number as `lex_number` reads it: trimmed, then decimal, `0x` or `0b`.
pub open spec fn lex_number(s: Seq<char>) -> Option<i32> {
    parse_i32_spec(trimmed(s))
}

/// How a literal is stored: a negative value keeps its low seven bits with
/// bit 7 set, a non-negative one is truncated to 16 bits.
pub open spec fn stored_literal(v: i32) -> i16 {
    if v < 0 {
        (((-(v as int)) % 128) + 128) as i16
    } else {
        v as i16
    }
}

/// An identifier that starts with `c`, or a label definition (`name:`).
pub open spec fn ident_step(cs: Seq<char>, j: int, pos: int, c: char) -> Step {
    let k = run_end(cs, j, RunKind::Word);
    let pos2 = pos + (k - j);
    if k < cs.len() && cs[k] == ':' {
        moved(k + 1, pos2 + 1)
    } else {
        emit(k, pos2, Lexeme::Ident(seq![c] + cs.subrange(j, k)))
    }
}

/// A register: `c` followed by the digits at `j`.
pub open spec fn register_step(cs: Seq<char>, j: int, pos: int, c: char, line: usize) -> Step {
    let k = run_end(cs, j, RunKind::Digit);
    let pos2 = pos + (k - j);
    match parse_i16_spec(cs.subrange(j, k)) {
        Some(n) => Step {
            next: k,
            pos: pos2,
            tokens: seq![Lexeme::Register(n)],
            faults: if 0 <= n <= 9 {
                Seq::empty()
            } else {
                seq![syntax("register number "@ + decimal(n as int) + " invalid"@, line, pos2, valid_registers())]
            },
            abort: false,
        },
        None => flag(k, pos2, syntax("register "@ + seq![c] + cs.subrange(j, k) + " invalid"@, line, pos2, valid_registers())),
    }
}

/// A directive: the word after the `.`.
pub open spec fn directive_step(cs: Seq<char>, j: int, pos: int) -> Step {
    let k = run_end(cs, j, RunKind::Word);
    emit(k, pos + (k - j), Lexeme::Directive(cs.subrange(j, k)))
}

/// A number literal that starts with `c` (a digit or `-`).
pub open spec fn literal_step(cs: Seq<char>, j: int, pos: int, c: char, line: usize, vars: Seq<Variable>) -> Step {
    let j2 = if j < cs.len() && cs[j] == '-' {
        j + 1
    } else {
        j
    };
    let k = run_end(cs, j2, RunKind::Word);
    let pos2 = pos + (k - j);
    let number = seq![c] + cs.subrange(j, k);
    match lex_number(number) {
        Some(v) => emit(k, pos2, Lexeme::Literal(stored_literal(v))),
        None => invalid_char_step(number, k, pos2, line, vars),
    }
}

/// A quoted character: every closing quote adds the first character seen
/// so far; the lexer reads on to the end of the line, where the quote is
/// reported as missing.
pub open spec fn ascii_scan(cs: Seq<char>, i: int, acc: Seq<char>, pos: int, line: usize) -> Step
    decreases cs.len() - i,
{
    let tip = Some("try a correct ASCII character, like 'a'"@);
    if i < 0 || i >= cs.len() {
        flag(cs.len() as int, pos, syntax("ASCII character '"@ + acc + "' is missing closing quote"@, line, pos, None))
    } else if cs[i] == '\'' {
        let pos1 = pos + 1;
        if acc.len() == 0 {
            Step {
                next: i + 1,
                pos: pos1,
                tokens: Seq::empty(),
                faults: seq![
                    syntax("ASCII character is empty"@, line, pos1, tip),
                    syntax("ASCII character '"@ + acc + "' invalid"@, line, pos1, tip),
                ],
                abort: false,
            }
        } else {
            let rest = ascii_scan(cs, i + 1, acc, pos1, line);
            Step {
                next: rest.next,
                pos: rest.pos,
                tokens: seq![Lexeme::Literal((acc[0] as u32) as i16)] + rest.tokens,
                faults: (if utf8_len(acc) > 1 {
                    seq![syntax("ASCII character '"@ + acc + "' has more than one character"@, line, pos1, tip)]
                } else {
                    Seq::empty()
                }) + rest.faults,
                abort: rest.abort,
            }
        }
    } else {
        ascii_scan(cs, i + 1, acc.push(cs[i]), pos + 1, line)
    }
}

/// A string in double quotes: ASCII characters up to the closing quote,
/// which is left for the next token; a character outside ASCII keeps the
/// lexer from finishing.
pub open spec fn asciiz_scan(cs: Seq<char>, i: int, acc: Seq<char>, pos: int) -> Step
    decreases cs.len() - i,
{
    if i < 0 || i >= cs.len() {
        moved(cs.len() as int, pos)
    } else if cs[i] == '"' {
        emit(i, pos, Lexeme::Asciiz(acc))
    } else if (cs[i] as u32) < 128 {
        asciiz_scan(cs, i + 1, acc.push(cs[i]), pos + 1)
    } else {
        aborted(i, pos)
    }
}

/// The characters of a memory address after its `[`: alphanumeric ones up
/// to an optional `]`; `None` when another character comes first (where
/// it stops).
pub open spec fn bracket_scan(cs: Seq<char>, i: int) -> (int, bool)
    decreases cs.len() - i,
{
    if i < 0 || i >= cs.len() {
        (cs.len() as int, true)
    } else if is_alnum(cs[i]) {
        bracket_scan(cs, i + 1)
    } else if cs[i] == ']' {
        (i + 1, true)
    } else {
        (i, false)
    }
}

/// A memory address in brackets.
pub open spec fn memaddr_step(cs: Seq<char>, j: int, pos: int, line: usize, vars: Seq<Variable>) -> Step {
    let (k, closed) = bracket_scan(cs, j);
    let addr = seq!['['] + cs.subrange(j, k);
    let pos2 = pos + (k - j);
    if !closed {
        flag(k, pos2, syntax("did not find closing bracket"@, line, pos2, Some("close the bracket of "@ + addr)))
    } else if utf8_len(addr) < 3 {
        invalid_char_step(addr, k, pos2, line, vars)
    } else if utf8_len(seq![addr.last()]) != 1 {
        aborted(k, pos2)
    } else {
        match lex_number(addr.subrange(1, addr.len() - 1)) {
            None => invalid_char_step(addr, k, pos2, line, vars),
            Some(a) => emit(k, pos2, Lexeme::MemAddr(a as i16)),
        }
    }
}

/// A register indirect (`&r..`).
pub open spec fn register_pointer(p: Seq<char>, next: int, pos: int, line: usize) -> Step {
    if p.len() > 2 {
        let pos1 = pos + 1;
        let t = trimmed(p);
        let s = t.subrange(2, t.len() as int);
        match parse_i16_spec(s) {
            Some(reg) => Step {
                next,
                pos: pos1,
                tokens: seq![Lexeme::RegPointer(reg)],
                faults: if 0 <= reg <= 9 {
                    Seq::empty()
                } else {
                    seq![syntax("register indirect "@ + decimal(reg as int) + " is invalid"@, line, pos1, valid_registers())]
                },
                abort: false,
            },
            None => flag(next, pos1, syntax("register number "@ + s + " is invalid"@, line, pos1, valid_registers())),
        }
    } else {
        flag(next, pos, syntax("register indirect "@ + p + " must have a number"@, line, pos, valid_registers()))
    }
}

/// A memory indirect (`&` followed by an address).
pub open spec fn memory_pointer(p: Seq<char>, next: int, pos: int, line: usize, vars: Seq<Variable>) -> Step {
    let t = trimmed(p);
    let t1 = if t.len() > 0 && t[0] == '[' {
        t.drop_first()
    } else {
        t
    };
    let t2 = if t1.len() > 0 && t1.last() == ']' {
        t1.drop_last()
    } else {
        t1
    };
    if utf8_len(t2) > 1 {
        match lex_number(t2) {
            Some(m) => emit(next, pos, Lexeme::MemPointer(m as i16)),
            None => invalid_char_step(t2, next, pos, line, vars),
        }
    } else {
        flag(
            next,
            pos,
            syntax(
                "memory indirect "@ + t + " must have a number"@,
                line,
                pos,
                Some("valid addresses range from &[0x0] to &[0xFFFF]"@),
            ),
        )
    }
}

/// A pointer after `&`: a register indirect when `r` follows, else a
/// memory indirect; a `&` at the end of the line keeps the lexer from
/// finishing.
pub open spec fn pointer_step(cs: Seq<char>, j: int, pos: int, line: usize, vars: Seq<Variable>) -> Step {
    if j >= cs.len() {
        aborted(j, pos)
    } else {
        let d = cs[j];
        let k = run_end(cs, j + 1, RunKind::Alnum);
        let pos2 = pos + 1 + (k - (j + 1));
        let p = seq!['&'] + cs.subrange(j, k);
        if d == 'r' || d == 'R' {
            register_pointer(p, k, pos2, line)
        } else {
            memory_pointer(p.drop_first(), k, pos2, line, vars)
        }
    }
}

pub open spec fn is_ascii_letter(c: char) -> bool {
    ('a' <= c <= 'z') || ('A' <= c <= 'Z')
}

/// What the lexer does with the character at `i`.
pub open spec fn main_step(cs: Seq<char>, i: int, pos: int, line: usize, vars: Seq<Variable>) -> Step {
    let c = cs[i];
    let j = i + 1;
    if c == ' ' || c == ']' {
        moved(j, pos + 1)
    } else if c == '\t' {
        moved(j, pos + 3)
    } else if c == '\n' {
        emit(j, pos, Lexeme::NewLine)
    } else if c == ',' {
        emit(j, pos + 1, Lexeme::Comma)
    } else if c == '&' {
        pointer_step(cs, j, pos + 1, line, vars)
    } else if c == 'r' || c == 'R' {
        if j < cs.len() && is_ascii_digit(cs[j]) {
            register_step(cs, j, pos, c, line)
        } else {
            ident_step(cs, j, pos + 1, c)
        }
    } else if is_ascii_letter(c) {
        ident_step(cs, j, pos + 1, c)
    } else if c == '.' {
        directive_step(cs, j, pos + 1)
    } else if c == '\'' {
        ascii_scan(cs, j, Seq::empty(), pos + 1, line)
    } else if c == '-' || is_ascii_digit(c) {
        literal_step(cs, j, pos + 1, c, line, vars)
    } else if c == '[' {
        memaddr_step(cs, j, pos + 1, line, vars)
    } else if c == '"' {
        asciiz_scan(cs, j, Seq::empty(), pos + 1)
    } else if c == '=' {
        emit(j, pos + 1, Lexeme::EqualSign)
    } else {
        flag(
            j,
            pos + 1,
            Fault {
                unknown: true,
                message: "character '"@ + seq![c] + "' not recognized"@,
                line,
                place: Some((pos + 1) as usize),
                tip: None,
            },
        )
    }
}

/// The lexer from the character at `i` with column `pos` to the end of the
/// line or a `;`: the tokens and faults it adds, the column it ends with,
/// and whether it cannot finish.
pub open spec fn lex_run(cs: Seq<char>, i: int, pos: int, line: usize, vars: Seq<Variable>) -> Step
    decreases cs.len() - i,
{
    if i < 0 || i >= cs.len() || cs[i] == ';' {
        moved(i, pos)
    } else {
        let s = main_step(cs, i, pos, line, vars);
        if s.abort || s.next <= i || s.next > cs.len() {
            aborted(s.next, s.pos)
        } else {
            let rest = lex_run(cs, s.next, s.pos, line, vars);
            Step {
                next: rest.next,
                pos: rest.pos,
                tokens: s.tokens + rest.tokens,
                faults: s.faults + rest.faults,
                abort: rest.abort,
            }
        }
    }
}

} // verus!
