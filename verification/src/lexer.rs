//! The lexer of the assembly language (see `lexing` for what it reads).
use vstd::prelude::*;
use crate::diagnostics::Error;
use crate::lexing::{Fault, Lexeme, RunKind, Step, ascii_scan, asciiz_scan, bracket_scan, directive_step, emit, fault_of, flag, ident_step, in_run, invalid_char_step, lex_number, lex_run, lexeme, literal_step, main_step, memaddr_step, memory_pointer, moved, pointer_step, register_pointer, register_step, run_end, stored_literal, syntax};
use crate::numbers::{decimal, i16_to_string, parse_i16, parse_i32};
use crate::symbol_table::{utf8_len, utf8_length};
use crate::symbols::SymbolTable;
use crate::text::{chars_of, is_alphanumeric, push_char, string_from, string_of, sub_vec, trim, trimmed};
use crate::tokens::Token;

verus! {

/// What a part of the lexer produced.
pub struct StepOut<'a> {
    pub next: usize,
    pub pos: usize,
    pub tokens: Vec<Token>,
    pub errors: Vec<Error<'a>>,
    pub abort: bool,
}

pub open spec fn tokens_view(ts: Seq<Token>) -> Seq<Lexeme> {
    ts.map_values(|t: Token| lexeme(t))
}

pub open spec fn faults_view(es: Seq<Error>) -> Seq<Fault> {
    es.map_values(|e: Error| fault_of(e))
}

/// The `Step` a `StepOut` stands for.
pub open spec fn out_view(o: StepOut) -> Step {
    Step {
        next: o.next as int,
        pos: o.pos as int,
        tokens: tokens_view(o.tokens@),
        faults: faults_view(o.errors@),
        abort: o.abort,
    }
}

/// `o` stands for `s`, or both cannot finish.
pub open spec fn matches_step(o: StepOut, s: Step) -> bool {
    &&& o.abort == s.abort
    &&& !o.abort ==> out_view(o) == s
}

fn out_moved<'a>(next: usize, pos: usize) -> (o: StepOut<'a>)
    ensures
        out_view(o) == moved(next as int, pos as int),
{
    let o = StepOut { next, pos, tokens: Vec::new(), errors: Vec::new(), abort: false };
    assert(tokens_view(o.tokens@) =~= Seq::empty());
    assert(faults_view(o.errors@) =~= Seq::empty());
    o
}

fn out_emit<'a>(next: usize, pos: usize, t: Token) -> (o: StepOut<'a>)
    ensures
        out_view(o) == emit(next as int, pos as int, lexeme(t)),
{
    let ghost l = lexeme(t);
    let mut tokens: Vec<Token> = Vec::new();
    tokens.push(t);
    let o = StepOut { next, pos, tokens, errors: Vec::new(), abort: false };
    assert(tokens_view(o.tokens@) =~= seq![l]);
    assert(faults_view(o.errors@) =~= Seq::empty());
    o
}

fn out_flag<'a>(next: usize, pos: usize, e: Error<'a>) -> (o: StepOut<'a>)
    ensures
        out_view(o) == flag(next as int, pos as int, fault_of(e)),
{
    let ghost f = fault_of(e);
    let mut errors: Vec<Error<'a>> = Vec::new();
    errors.push(e);
    let o = StepOut { next, pos, tokens: Vec::new(), errors, abort: false };
    assert(tokens_view(o.tokens@) =~= Seq::empty());
    assert(faults_view(o.errors@) =~= seq![f]);
    o
}

fn out_abort<'a>(next: usize, pos: usize) -> (o: StepOut<'a>)
    ensures
        o.abort,
{
    StepOut { next, pos, tokens: Vec::new(), errors: Vec::new(), abort: true }
}

/// `a` + `b` + `c` as a string.
fn wrap(a: &str, b: &[char], c: &str) -> (s: String)
    ensures
        s@ == a@ + b@ + c@,
{
    let mut s = String::from_str(a);
    let mut i: usize = 0;
    let ghost s0 = s@;
    while i < b.len()
        invariant
            i <= b@.len(),
            s@ == s0 + b@.take(i as int),
        decreases b@.len() - i,
    {
        push_char(&mut s, b[i]);
        i = i + 1;
        assert(s@ =~= s0 + b@.take(i as int));
    }
    assert(b@.take(b@.len() as int) =~= b@);
    s.concat(c)
}

/// The syntax error with a message and an optional tip.
fn syntax_error<'a>(message: String, line: usize, place: usize, tip: Option<String>) -> (e: Error<'a>)
    ensures
        fault_of(e) == syntax(message@, line, place as int, match tip {
            Some(t) => Some(t@),
            None => None,
        }),
{
    Error::InvalidSyntax(message, line, Some(place), tip)
}

fn in_run_exec(c: char, kind: RunKind) -> (r: bool)
    ensures
        r == in_run(c, kind),
{
    match kind {
        RunKind::Alnum => is_alphanumeric(c),
        RunKind::Word => is_alphanumeric(c) || c == '_',
        RunKind::Digit => '0' <= c && c <= '9',
    }
}

/// The end of the run of `kind` characters from `i`.
fn scan(cs: &[char], i: usize, kind: RunKind) -> (k: usize)
    requires
        i <= cs@.len(),
    ensures
        k == run_end(cs@, i as int, kind),
        i <= k <= cs@.len(),
{
    let mut k = i;
    while k < cs.len() && in_run_exec(cs[k], kind)
        invariant
            i <= k <= cs@.len(),
            run_end(cs@, i as int, kind) == run_end(cs@, k as int, kind),
        decreases cs@.len() - k,
    {
        k = k + 1;
    }
    k
}

/// `c` followed by `cs[from..to]`, as a string.
fn string_with(c: char, cs: &[char], from: usize, to: usize) -> (s: String)
    requires
        from <= to <= cs@.len(),
    ensures
        s@ == seq![c] + cs@.subrange(from as int, to as int),
{
    let mut s = String::new();
    push_char(&mut s, c);
    let rest = string_of(cs, from, to);
    let s = s.concat(rest.as_str());
    assert(s@ =~= seq![c] + cs@.subrange(from as int, to as int));
    s
}

/// A number as `lex_number` reads it.
fn lex_number_exec(s: &[char]) -> (r: Option<i32>)
    ensures
        r == lex_number(s@),
{
    let t = trim(s);
    assert(t@.subrange(0, t@.len() as int) =~= t@);
    parse_i32(t.as_slice(), 0, t.len())
}

/// `a` + `b` as a string.
fn prefixed(a: &str, b: &[char]) -> (s: String)
    ensures
        s@ == a@ + b@,
{
    let mut s = String::from_str(a);
    let mut i: usize = 0;
    let ghost s0 = s@;
    while i < b.len()
        invariant
            i <= b@.len(),
            s@ == s0 + b@.take(i as int),
        decreases b@.len() - i,
    {
        push_char(&mut s, b[i]);
        i = i + 1;
        assert(s@ =~= s0 + b@.take(i as int));
    }
    assert(b@.take(b@.len() as int) =~= b@);
    s
}

pub open spec fn fault_opt(e: Option<Error>) -> Seq<Fault> {
    match e {
        Some(e) => seq![fault_of(e)],
        None => Seq::empty(),
    }
}

/// A step with one token and possibly one fault.
fn out_both<'a>(next: usize, pos: usize, t: Token, e: Option<Error<'a>>) -> (o: StepOut<'a>)
    ensures
        out_view(o) == (Step {
            next: next as int,
            pos: pos as int,
            tokens: seq![lexeme(t)],
            faults: fault_opt(e),
            abort: false,
        }),
{
    let ghost l = lexeme(t);
    let ghost fs = fault_opt(e);
    let mut tokens: Vec<Token> = Vec::new();
    tokens.push(t);
    let mut errors: Vec<Error<'a>> = Vec::new();
    if let Some(e) = e {
        errors.push(e);
    }
    let o = StepOut { next, pos, tokens, errors, abort: false };
    assert(tokens_view(o.tokens@) =~= seq![l]);
    assert(faults_view(o.errors@) =~= fs);
    o
}

/// What `handle_invalid_character` does (see `invalid_char_step`).
fn invalid_char<'a>(input: &[char], next: usize, pos: usize, line: usize, symbols: &SymbolTable) -> (o: StepOut<'a>)
    ensures
        matches_step(o, invalid_char_step(input@, next as int, pos as int, line, symbols.variables@)),
        !o.abort ==> o.next == next && o.pos == pos,
{
    let n = input.len();
    let bracket = n > 0 && input[0] == '[';
    if bracket {
        let bytes = utf8_length(input, 0, n);
        assert(input@.subrange(0, n as int) =~= input@);
        proof {
            lemma_utf8_len_pos(input@);
        }
        if !(bytes - 1 > 1) {
            let t = trim(input);
            let m = wrap("variable couldn't be parsed \"", t.as_slice(), "\"");
            return out_flag(next, pos, syntax_error(m, line, pos, None));
        }
        let last = utf8_length(input, n - 1, n);
        assert(input@.subrange(n - 1, n as int) =~= seq![input@.last()]);
        if last != 1 {
            return out_abort(next, pos);
        }
    }
    let variable = if n > 0 && (input[0] == '#' || input[0] == '&') {
        sub_vec(input, 1, n)
    } else if bracket {
        sub_vec(input, 1, n - 1)
    } else {
        sub_vec(input, 0, n)
    };
    assert(input@.subrange(1, n as int) =~= input@.drop_first() || !(n > 0));
    assert(input@.subrange(0, n as int) =~= input@);
    let tv = trim(variable.as_slice());
    match symbols.lookup_variable(tv.as_slice()) {
        Some((_, v)) => {
            if bracket {
                out_emit(next, pos, Token::MemAddr(v as i16))
            } else if n > 0 && input[0] == '#' {
                out_emit(next, pos, Token::Literal(v as i16))
            } else if n > 0 && input[0] == '&' {
                out_emit(next, pos, Token::MemPointer(v as i16))
            } else {
                out_moved(next, pos)
            }
        },
        None => {
            let m = wrap("could not find variable \"", tv.as_slice(), "\"");
            out_flag(next, pos, syntax_error(m, line, pos, None))
        },
    }
}

proof fn lemma_utf8_len_pos(s: Seq<char>)
    ensures
        s.len() > 0 ==> utf8_len(s) >= 1,
        utf8_len(s) >= s.len(),
    decreases s.len(),
{
    if s.len() > 0 {
        lemma_utf8_len_pos(s.drop_last());
    }
}

/// The bounds every step keeps: it reads at least the character at `i`,
/// stays in the line, and moves the column by at most three per character.
pub open spec fn step_bounds(o: StepOut, len: int, i: int, pos: int) -> bool {
    !o.abort ==> i < o.next <= len && o.pos <= pos + 3 * (o.next - i)
}

/// The lexer bound: the column cannot overflow while the line lasts.
pub open spec fn room(len: int, i: int, pos: int) -> bool {
    &&& pos + 3 * (len - i) + 3 <= usize::MAX
    &&& len < usize::MAX
}

fn lex_identifier<'a>(cs: &[char], i: usize, pos: usize) -> (o: StepOut<'a>)
    requires
        i < cs@.len(),
        room(cs@.len() as int, i as int, pos as int),
    ensures
        matches_step(o, ident_step(cs@, i + 1, pos + 1, cs@[i as int])),
        step_bounds(o, cs@.len() as int, i as int, pos as int),
{
    let c = cs[i];
    let j = i + 1;
    let k = scan(cs, j, RunKind::Word);
    let pos2 = pos + 1 + (k - j);
    if k < cs.len() && cs[k] == ':' {
        out_moved(k + 1, pos2 + 1)
    } else {
        out_emit(k, pos2, Token::Ident(string_with(c, cs, j, k)))
    }
}

fn lex_register<'a>(cs: &[char], i: usize, pos: usize, line: usize) -> (o: StepOut<'a>)
    requires
        i + 1 < cs@.len(),
        room(cs@.len() as int, i as int, pos as int),
    ensures
        matches_step(o, register_step(cs@, i + 1, pos as int, cs@[i as int], line)),
        step_bounds(o, cs@.len() as int, i as int, pos as int),
{
    let c = cs[i];
    let j = i + 1;
    let k = scan(cs, j, RunKind::Digit);
    let pos2 = pos + (k - j);
    match parse_i16(cs, j, k) {
        Some(n) => {
            let e = if 0 <= n && n <= 9 {
                None
            } else {
                let d = i16_to_string(n);
                let m = String::from_str("register number ").concat(d.as_str()).concat(" invalid");
                assert(m@ =~= "register number "@ + decimal(n as int) + " invalid"@);
                Some(syntax_error(m, line, pos2, Some(string_from("valid registers are r0-r9"))))
            };
            out_both(k, pos2, Token::Register(n), e)
        },
        None => {
            let r = string_with(c, cs, j, k);
            let m = String::from_str("register ").concat(r.as_str()).concat(" invalid");
            assert(m@ =~= "register "@ + seq![c] + cs@.subrange(j as int, k as int) + " invalid"@);
            out_flag(k, pos2, syntax_error(m, line, pos2, Some(string_from("valid registers are r0-r9"))))
        },
    }
}

fn lex_directive<'a>(cs: &[char], i: usize, pos: usize) -> (o: StepOut<'a>)
    requires
        i < cs@.len(),
        room(cs@.len() as int, i as int, pos as int),
    ensures
        matches_step(o, directive_step(cs@, i + 1, pos + 1)),
        step_bounds(o, cs@.len() as int, i as int, pos as int),
{
    let j = i + 1;
    let k = scan(cs, j, RunKind::Word);
    out_emit(k, pos + 1 + (k - j), Token::Directive(string_of(cs, j, k)))
}

fn stored_literal_exec(v: i32) -> (r: i16)
    ensures
        r == stored_literal(v),
{
    if v < 0 {
        let a: i64 = 0 - (v as i64);
        ((a % 128) + 128) as i16
    } else {
        v as i16
    }
}

fn lex_literal<'a>(cs: &[char], i: usize, pos: usize, line: usize, symbols: &SymbolTable) -> (o: StepOut<'a>)
    requires
        i < cs@.len(),
        room(cs@.len() as int, i as int, pos as int),
    ensures
        matches_step(o, literal_step(cs@, i + 1, pos + 1, cs@[i as int], line, symbols.variables@)),
        step_bounds(o, cs@.len() as int, i as int, pos as int),
{
    let c = cs[i];
    let j = i + 1;
    let j2 = if j < cs.len() && cs[j] == '-' {
        j + 1
    } else {
        j
    };
    let k = scan(cs, j2, RunKind::Word);
    let pos2 = pos + 1 + (k - j);
    let mut number: Vec<char> = Vec::new();
    number.push(c);
    let rest = sub_vec(cs, j, k);
    let mut m: usize = 0;
    while m < rest.len()
        invariant
            m <= rest@.len(),
            number@ == seq![c] + rest@.take(m as int),
        decreases rest@.len() - m,
    {
        number.push(rest[m]);
        m = m + 1;
        assert(number@ =~= seq![c] + rest@.take(m as int));
    }
    assert(rest@.take(rest@.len() as int) =~= rest@);
    match lex_number_exec(number.as_slice()) {
        Some(v) => out_emit(k, pos2, Token::Literal(stored_literal_exec(v))),
        None => invalid_char(number.as_slice(), k, pos2, line, symbols),
    }
}

fn lex_memory_address<'a>(cs: &[char], i: usize, pos: usize, line: usize, symbols: &SymbolTable) -> (o: StepOut<'a>)
    requires
        i < cs@.len(),
        room(cs@.len() as int, i as int, pos as int),
    ensures
        matches_step(o, memaddr_step(cs@, i + 1, pos + 1, line, symbols.variables@)),
        step_bounds(o, cs@.len() as int, i as int, pos as int),
{
    let j = i + 1;
    let mut k = j;
    let mut closed = true;
    let mut done = false;
    while !done && k < cs.len()
        invariant
            j <= k <= cs@.len(),
            !done ==> bracket_scan(cs@, j as int) == bracket_scan(cs@, k as int),
            !done ==> closed,
            done ==> bracket_scan(cs@, j as int) == (k as int, closed),
        decreases cs@.len() - k + if done { 0int } else { 1int },
    {
        if is_alphanumeric(cs[k]) {
            k = k + 1;
        } else if cs[k] == ']' {
            k = k + 1;
            done = true;
        } else {
            closed = false;
            done = true;
        }
    }
    assert(bracket_scan(cs@, j as int) == (k as int, closed));
    let mut addr: Vec<char> = Vec::new();
    addr.push('[');
    let rest = sub_vec(cs, j, k);
    let mut m: usize = 0;
    while m < rest.len()
        invariant
            m <= rest@.len(),
            addr@ == seq!['['] + rest@.take(m as int),
        decreases rest@.len() - m,
    {
        addr.push(rest[m]);
        m = m + 1;
        assert(addr@ =~= seq!['['] + rest@.take(m as int));
    }
    assert(rest@.take(rest@.len() as int) =~= rest@);
    let pos2 = pos + 1 + (k - j);
    if !closed {
        let tip = prefixed("close the bracket of ", addr.as_slice());
        return out_flag(k, pos2, syntax_error(string_from("did not find closing bracket"), line, pos2, Some(tip)));
    }
    let n = addr.len();
    let bytes = utf8_length(addr.as_slice(), 0, n);
    assert(addr@.subrange(0, n as int) =~= addr@);
    if bytes < 3 {
        return invalid_char(addr.as_slice(), k, pos2, line, symbols);
    }
    proof {
        lemma_utf8_len_pos(addr@);
    }
    let last = utf8_length(addr.as_slice(), n - 1, n);
    assert(addr@.subrange(n - 1, n as int) =~= seq![addr@.last()]);
    if last != 1 {
        return out_abort(k, pos2);
    }
    let inner = sub_vec(addr.as_slice(), 1, n - 1);
    match lex_number_exec(inner.as_slice()) {
        None => invalid_char(addr.as_slice(), k, pos2, line, symbols),
        Some(a) => out_emit(k, pos2, Token::MemAddr(a as i16)),
    }
}

fn lex_asciiz<'a>(cs: &[char], i: usize, pos: usize) -> (o: StepOut<'a>)
    requires
        i < cs@.len(),
        room(cs@.len() as int, i as int, pos as int),
    ensures
        matches_step(o, asciiz_scan(cs@, i + 1, Seq::empty(), pos + 1)),
        step_bounds(o, cs@.len() as int, i as int, pos as int),
{
    let j = i + 1;
    let mut k = j;
    let mut p = pos + 1;
    let mut acc = String::new();
    while k < cs.len()
        invariant
            j == i + 1,
            j <= k <= cs@.len(),
            p == pos + 1 + (k - j),
            room(cs@.len() as int, i as int, pos as int),
            asciiz_scan(cs@, j as int, Seq::empty(), pos + 1) == asciiz_scan(cs@, k as int, acc@, p as int),
        decreases cs@.len() - k,
    {
        let c = cs[k];
        if c == '"' {
            return out_emit(k, p, Token::Asciiz(acc));
        }
        if (c as u32) < 128 {
            push_char(&mut acc, c);
            k = k + 1;
            p = p + 1;
        } else {
            return out_abort(k, p);
        }
    }
    out_moved(cs.len(), p)
}

/// A step with tokens and faults put in front of another.
pub open spec fn prepend(ts: Seq<Lexeme>, fs: Seq<Fault>, s: Step) -> Step {
    Step { next: s.next, pos: s.pos, tokens: ts + s.tokens, faults: fs + s.faults, abort: s.abort }
}

fn ascii_tip() -> (t: Option<String>)
    ensures
        match t {
            Some(s) => s@ == "try a correct ASCII character, like 'a'"@,
            None => false,
        },
{
    Some(string_from("try a correct ASCII character, like 'a'"))
}

fn lex_ascii<'a>(cs: &[char], i: usize, pos: usize, line: usize) -> (o: StepOut<'a>)
    requires
        i < cs@.len(),
        room(cs@.len() as int, i as int, pos as int),
    ensures
        matches_step(o, ascii_scan(cs@, i + 1, Seq::empty(), pos + 1, line)),
        step_bounds(o, cs@.len() as int, i as int, pos as int),
{
    let j = i + 1;
    let mut k = j;
    let mut p = pos + 1;
    let mut acc: Vec<char> = Vec::new();
    let mut tokens: Vec<Token> = Vec::new();
    let mut errors: Vec<Error<'a>> = Vec::new();
    assert(tokens_view(tokens@) =~= Seq::empty());
    assert(faults_view(errors@) =~= Seq::empty());
    while k < cs.len()
        invariant
            j == i + 1,
            j <= k <= cs@.len(),
            p == pos + 1 + (k - j),
            room(cs@.len() as int, i as int, pos as int),
            ascii_scan(cs@, j as int, Seq::empty(), pos + 1, line) == prepend(
                tokens_view(tokens@),
                faults_view(errors@),
                ascii_scan(cs@, k as int, acc@, p as int, line),
            ),
        decreases cs@.len() - k,
    {
        let c = cs[k];
        let ghost before_t = tokens_view(tokens@);
        let ghost before_f = faults_view(errors@);
        if c == '\'' {
            let p1 = p + 1;
            if acc.len() == 0 {
                let e1 = syntax_error(string_from("ASCII character is empty"), line, p1, ascii_tip());
                let m2 = wrap("ASCII character '", acc.as_slice(), "' invalid");
                let e2 = syntax_error(m2, line, p1, ascii_tip());
                let ghost f1 = fault_of(e1);
                let ghost f2 = fault_of(e2);
                errors.push(e1);
                errors.push(e2);
                let o = StepOut { next: k + 1, pos: p1, tokens, errors, abort: false };
                assert(faults_view(o.errors@) =~= before_f + seq![f1, f2]);
                assert(out_view(o) =~= prepend(before_t, before_f, ascii_scan(cs@, k as int, acc@, p as int, line)));
                return o;
            }
            let t = Token::Literal((acc[0] as u32) as i16);
            let ghost l = lexeme(t);
            tokens.push(t);
            assert(tokens_view(tokens@) =~= before_t.push(l));
            let w = utf8_length(acc.as_slice(), 0, acc.len());
            assert(acc@.subrange(0, acc@.len() as int) =~= acc@);
            let ghost more: Seq<Fault> = Seq::empty();
            if w > 1 {
                let m = wrap("ASCII character '", acc.as_slice(), "' has more than one character");
                let e = syntax_error(m, line, p1, ascii_tip());
                proof {
                    more = seq![fault_of(e)];
                }
                errors.push(e);
            }
            assert(faults_view(errors@) =~= before_f + more);
            proof {
                let rest = ascii_scan(cs@, k + 1, acc@, p1 as int, line);
                assert(before_t + (seq![l] + rest.tokens) =~= before_t.push(l) + rest.tokens);
                assert(before_f + (more + rest.faults) =~= (before_f + more) + rest.faults);
            }
            k = k + 1;
            p = p1;
        } else {
            acc.push(c);
            k = k + 1;
            p = p + 1;
        }
    }
    let m = wrap("ASCII character '", acc.as_slice(), "' is missing closing quote");
    let e = syntax_error(m, line, p, None);
    let ghost f = fault_of(e);
    let ghost before_f = faults_view(errors@);
    errors.push(e);
    let o = StepOut { next: cs.len(), pos: p, tokens, errors, abort: false };
    assert(faults_view(o.errors@) =~= before_f + seq![f]);
    assert(tokens_view(o.tokens@) =~= tokens_view(o.tokens@) + Seq::empty());
    o
}

proof fn lemma_trim_keeps_two(p: Seq<char>)
    requires
        p.len() >= 2,
        !crate::text::is_white_space(p[0]),
        !crate::text::is_white_space(p[1]),
    ensures
        trimmed(p).len() >= 2,
{
    assert(crate::text::trim_start(p) == p);
    lemma_trim_end_two(p);
}

proof fn lemma_trim_end_two(p: Seq<char>)
    requires
        p.len() >= 2,
        !crate::text::is_white_space(p[1]),
    ensures
        crate::text::trim_end(p).len() >= 2,
    decreases p.len(),
{
    if p.len() > 2 && crate::text::is_white_space(p.last()) {
        lemma_trim_end_two(p.drop_last());
    }
}

fn register_pointer_exec<'a>(p: &[char], next: usize, pos: usize, line: usize) -> (o: StepOut<'a>)
    requires
        p@.len() >= 2,
        p@[0] == '&',
        p@[1] == 'r' || p@[1] == 'R',
        pos < usize::MAX,
    ensures
        matches_step(o, register_pointer(p@, next as int, pos as int, line)),
        !o.abort,
        o.next == next,
        o.pos <= pos + 1,
{
    if p.len() > 2 {
        let pos1 = pos + 1;
        let t = trim(p);
        proof {
            lemma_trim_keeps_two(p@);
        }
        let sv = sub_vec(t.as_slice(), 2, t.len());
        assert(sv@.subrange(0, sv@.len() as int) =~= sv@);
        match parse_i16(sv.as_slice(), 0, sv.len()) {
            Some(reg) => {
                let e = if 0 <= reg && reg <= 9 {
                    None
                } else {
                    let d = i16_to_string(reg);
                    let m = String::from_str("register indirect ").concat(d.as_str()).concat(" is invalid");
                    assert(m@ =~= "register indirect "@ + decimal(reg as int) + " is invalid"@);
                    Some(syntax_error(m, line, pos1, Some(string_from("valid registers are r0-r9"))))
                };
                out_both(next, pos1, Token::RegPointer(reg), e)
            },
            None => {
                let m = wrap("register number ", sv.as_slice(), " is invalid");
                out_flag(next, pos1, syntax_error(m, line, pos1, Some(string_from("valid registers are r0-r9"))))
            },
        }
    } else {
        let m = wrap("register indirect ", p, " must have a number");
        out_flag(next, pos, syntax_error(m, line, pos, Some(string_from("valid registers are r0-r9"))))
    }
}

fn memory_pointer_exec<'a>(p: &[char], next: usize, pos: usize, line: usize, symbols: &SymbolTable) -> (o: StepOut<'a>)
    ensures
        matches_step(o, memory_pointer(p@, next as int, pos as int, line, symbols.variables@)),
        !o.abort ==> o.next == next && o.pos == pos,
{
    let t = trim(p);
    let t1 = if t.len() > 0 && t[0] == '[' {
        sub_vec(t.as_slice(), 1, t.len())
    } else {
        sub_vec(t.as_slice(), 0, t.len())
    };
    assert(t@.subrange(0, t@.len() as int) =~= t@);
    assert(t@.len() > 0 ==> t@.subrange(1, t@.len() as int) =~= t@.drop_first());
    let t2 = if t1.len() > 0 && t1[t1.len() - 1] == ']' {
        sub_vec(t1.as_slice(), 0, t1.len() - 1)
    } else {
        sub_vec(t1.as_slice(), 0, t1.len())
    };
    assert(t1@.subrange(0, t1@.len() as int) =~= t1@);
    assert(t1@.len() > 0 ==> t1@.subrange(0, t1@.len() - 1) =~= t1@.drop_last());
    let bytes = utf8_length(t2.as_slice(), 0, t2.len());
    assert(t2@.subrange(0, t2@.len() as int) =~= t2@);
    if bytes > 1 {
        match lex_number_exec(t2.as_slice()) {
            Some(m) => out_emit(next, pos, Token::MemPointer(m as i16)),
            None => invalid_char(t2.as_slice(), next, pos, line, symbols),
        }
    } else {
        let m = wrap("memory indirect ", t.as_slice(), " must have a number");
        out_flag(next, pos, syntax_error(m, line, pos, Some(string_from("valid addresses range from &[0x0] to &[0xFFFF]"))))
    }
}

fn lex_pointer<'a>(cs: &[char], i: usize, pos: usize, line: usize, symbols: &SymbolTable) -> (o: StepOut<'a>)
    requires
        i < cs@.len(),
        room(cs@.len() as int, i as int, pos as int),
    ensures
        matches_step(o, pointer_step(cs@, i + 1, pos + 1, line, symbols.variables@)),
        step_bounds(o, cs@.len() as int, i as int, pos as int),
{
    let j = i + 1;
    if j >= cs.len() {
        return out_abort(j, pos + 1);
    }
    let d = cs[j];
    let k = scan(cs, j + 1, RunKind::Alnum);
    let pos2 = pos + 1 + 1 + (k - (j + 1));
    let mut ptr: Vec<char> = Vec::new();
    ptr.push('&');
    let rest = sub_vec(cs, j, k);
    let mut m: usize = 0;
    while m < rest.len()
        invariant
            m <= rest@.len(),
            ptr@ == seq!['&'] + rest@.take(m as int),
        decreases rest@.len() - m,
    {
        ptr.push(rest[m]);
        m = m + 1;
        assert(ptr@ =~= seq!['&'] + rest@.take(m as int));
    }
    assert(rest@.take(rest@.len() as int) =~= rest@);
    if d == 'r' || d == 'R' {
        register_pointer_exec(ptr.as_slice(), k, pos2, line)
    } else {
        let q = sub_vec(ptr.as_slice(), 1, ptr.len());
        assert(q@ =~= ptr@.drop_first());
        memory_pointer_exec(q.as_slice(), k, pos2, line, symbols)
    }
}

fn lex_char<'a>(cs: &[char], i: usize, pos: usize, line: usize, symbols: &SymbolTable) -> (o: StepOut<'a>)
    requires
        i < cs@.len(),
        room(cs@.len() as int, i as int, pos as int),
    ensures
        matches_step(o, main_step(cs@, i as int, pos as int, line, symbols.variables@)),
        step_bounds(o, cs@.len() as int, i as int, pos as int),
{
    let c = cs[i];
    if c == ' ' || c == ']' {
        out_moved(i + 1, pos + 1)
    } else if c == '\t' {
        out_moved(i + 1, pos + 3)
    } else if c == '\n' {
        out_emit(i + 1, pos, Token::NewLine)
    } else if c == ',' {
        out_emit(i + 1, pos + 1, Token::Comma)
    } else if c == '&' {
        lex_pointer(cs, i, pos, line, symbols)
    } else if c == 'r' || c == 'R' {
        if i + 1 < cs.len() && '0' <= cs[i + 1] && cs[i + 1] <= '9' {
            lex_register(cs, i, pos, line)
        } else {
            lex_identifier(cs, i, pos)
        }
    } else if ('a' <= c && c <= 'z') || ('A' <= c && c <= 'Z') {
        lex_identifier(cs, i, pos)
    } else if c == '.' {
        lex_directive(cs, i, pos)
    } else if c == '\'' {
        lex_ascii(cs, i, pos, line)
    } else if c == '-' || ('0' <= c && c <= '9') {
        lex_literal(cs, i, pos, line, symbols)
    } else if c == '[' {
        lex_memory_address(cs, i, pos, line, symbols)
    } else if c == '"' {
        lex_asciiz(cs, i, pos)
    } else if c == '=' {
        out_emit(i + 1, pos + 1, Token::EqualSign)
    } else {
        let mut m = String::from_str("character '");
        push_char(&mut m, c);
        let m = m.concat("' not recognized");
        assert(m@ =~= "character '"@ + seq![c] + "' not recognized"@);
        out_flag(i + 1, pos + 1, Error::UnknownCharacter(m, line, Some(pos + 1), None))
    }
}

/// Runs the lexer over `cs` from the character at `i0` with column `pos0`
/// (see `lex_run`).
fn run<'a>(cs: &[char], i0: usize, pos0: usize, line: usize, symbols: &SymbolTable) -> (o: StepOut<'a>)
    requires
        i0 <= cs@.len(),
        room(cs@.len() as int, i0 as int, pos0 as int),
    ensures
        matches_step(o, lex_run(cs@, i0 as int, pos0 as int, line, symbols.variables@)),
{
    let mut i = i0;
    let mut pos = pos0;
    let mut tokens: Vec<Token> = Vec::new();
    let mut errors: Vec<Error<'a>> = Vec::new();
    assert(tokens_view(tokens@) =~= Seq::empty());
    assert(faults_view(errors@) =~= Seq::empty());
    while i < cs.len() && cs[i] != ';'
        invariant
            i0 <= i <= cs@.len(),
            room(cs@.len() as int, i as int, pos as int),
            lex_run(cs@, i0 as int, pos0 as int, line, symbols.variables@) == prepend(
                tokens_view(tokens@),
                faults_view(errors@),
                lex_run(cs@, i as int, pos as int, line, symbols.variables@),
            ),
        decreases cs@.len() - i,
    {
        let mut s = lex_char(cs, i, pos, line, symbols);
        if s.abort {
            return out_abort(s.next, s.pos);
        }
        let ghost before_t = tokens_view(tokens@);
        let ghost before_f = faults_view(errors@);
        let ghost st = tokens_view(s.tokens@);
        let ghost sf = faults_view(s.errors@);
        tokens.append(&mut s.tokens);
        errors.append(&mut s.errors);
        assert(tokens_view(tokens@) =~= before_t + st);
        assert(faults_view(errors@) =~= before_f + sf);
        proof {
            let rest = lex_run(cs@, s.next as int, s.pos as int, line, symbols.variables@);
            assert(before_t + (st + rest.tokens) =~= (before_t + st) + rest.tokens);
            assert(before_f + (sf + rest.faults) =~= (before_f + sf) + rest.faults);
        }
        i = s.next;
        pos = s.pos;
    }
    let o = StepOut { next: i, pos, tokens, errors, abort: false };
    assert(tokens_view(o.tokens@) =~= tokens_view(o.tokens@) + Seq::empty());
    assert(faults_view(o.errors@) =~= faults_view(o.errors@) + Seq::empty());
    o
}

/// The lexer of one source line.
pub struct Lexer<'a> {
    /// The column of the lexer (counted from 1).
    pub position: usize,
    pub line_number: usize,
    pub tokens: Vec<Token>,
    /// The characters of the line.
    pub chars: Vec<char>,
    /// The index of the next character to read.
    pub cursor: usize,
    pub errors: Vec<Error<'a>>,
}

/// Whether the lexer cannot finish a line from the character at `i` with
/// column `pos`: a `&` at the end of the line, a character outside ASCII in
/// a string, or a bracketed address ending in one.
pub open spec fn lex_aborts(cs: Seq<char>, i: int, pos: int, line: usize, vars: Seq<crate::symbols::Variable>) -> bool {
    lex_run(cs, i, pos, line, vars).abort
}

impl<'a> Lexer<'a> {
    /// A lexer at the start of `line`.
    pub fn new(line: &'a str, line_number: usize) -> (l: Self)
        ensures
            l.position == 1,
            l.line_number == line_number,
            l.tokens@.len() == 0,
            l.errors@.len() == 0,
            l.chars@ == line@,
            l.cursor == 0,
    {
        Lexer {
            position: 1,
            line_number,
            tokens: Vec::new(),
            chars: chars_of(line),
            cursor: 0,
            errors: Vec::new(),
        }
    }

    /// Reads the tokens of the rest of the line, up to its end or a `;`
    /// (see `lex_run`), looking variables up in `symbols`. Gives the tokens
    /// when there are no errors, else the errors.
    pub fn lex(&mut self, symbols: &SymbolTable) -> (r: Result<&Vec<Token>, &Vec<Error<'a>>>)
        requires
            old(self).cursor <= old(self).chars@.len(),
            room(old(self).chars@.len() as int, old(self).cursor as int, old(self).position as int),
            !lex_aborts(old(self).chars@, old(self).cursor as int, old(self).position as int, old(self).line_number, symbols.variables@),
        ensures
            ({
                let s = lex_run(old(self).chars@, old(self).cursor as int, old(self).position as int, old(self).line_number, symbols.variables@);
                &&& tokens_view(final(self).tokens@) == tokens_view(old(self).tokens@) + s.tokens
                &&& faults_view(final(self).errors@) == faults_view(old(self).errors@) + s.faults
                &&& final(self).position == s.pos
                &&& final(self).cursor == s.next
            }),
            final(self).chars == old(self).chars,
            final(self).line_number == old(self).line_number,
            r is Ok <==> final(self).errors@.len() == 0,
            r matches Ok(t) ==> t@ == final(self).tokens@,
            r matches Err(e) ==> e@ == final(self).errors@,
    {
        let mut o = run(self.chars.as_slice(), self.cursor, self.position, self.line_number, symbols);
        let ghost t0 = tokens_view(self.tokens@);
        let ghost e0 = faults_view(self.errors@);
        let ghost ot = tokens_view(o.tokens@);
        let ghost oe = faults_view(o.errors@);
        self.cursor = o.next;
        self.position = o.pos;
        self.tokens.append(&mut o.tokens);
        self.errors.append(&mut o.errors);
        assert(tokens_view(self.tokens@) =~= t0 + ot);
        assert(faults_view(self.errors@) =~= e0 + oe);
        if self.errors.len() != 0 {
            Err(&self.errors)
        } else {
            Ok(&self.tokens)
        }
    }
}

/// Whether lexing `line` from its start cannot finish (see `lex_aborts`).
pub fn lex_would_abort(line: &str, line_number: usize, symbols: &SymbolTable) -> (b: bool)
    requires
        room(line@.len() as int, 0, 1),
    ensures
        b == lex_aborts(line@, 0, 1, line_number, symbols.variables@),
{
    let cs = chars_of(line);
    let o: StepOut<'static> = run(cs.as_slice(), 0, 1, line_number, symbols);
    o.abort
}

} // verus!
