//! Operand checks of the assembler: which operands each instruction
//! accepts, and the ranges their numbers must keep.
use vstd::prelude::*;
use crate::codegen::opt_token;
use crate::symbols::{Label, SymbolTable, Variable};
use crate::text::{is_text, string_from, to_uppercase, upper};
use crate::tokens::{Token, num_spec, raw_spec};

verus! {

/// The error of a check: the line and the message.
pub type CheckError = (usize, String);

pub open spec fn check_view(r: Result<(), CheckError>) -> Result<(), (usize, Seq<char>)> {
    match r {
        Ok(()) => Ok(()),
        Err((l, m)) => Err((l, m@)),
    }
}

pub open spec fn mmafail() -> Seq<char> {
    "memory address or address of label too large"@
}

pub open spec fn litfail() -> Seq<char> {
    "literal value too large"@
}

pub open spec fn fail(line: usize, m: Seq<char>) -> Result<(), (usize, Seq<char>)> {
    Err((line, m))
}

pub open spec fn only_none_spec(r: Seq<char>, a1: Option<Token>, a2: Option<Token>, line: usize) -> Result<(), (usize, Seq<char>)> {
    if a1 is Some || a2 is Some {
        fail(line, r + " requires no arguments"@)
    } else {
        Ok(())
    }
}

pub open spec fn only_two_spec(r: Seq<char>, a1: Option<Token>, a2: Option<Token>, line: usize) -> Result<(), (usize, Seq<char>)> {
    if a1 is None || a2 is None {
        fail(line, r + " requires two arguments"@)
    } else {
        Ok(())
    }
}

pub open spec fn one_none_spec(r: Seq<char>, a1: Option<Token>, a2: Option<Token>, line: usize) -> Result<(), (usize, Seq<char>)> {
    if a1 is Some && a2 is Some {
        fail(line, r + " requires one or no arguments"@)
    } else {
        Ok(())
    }
}

pub open spec fn only_one_spec(r: Seq<char>, a1: Option<Token>, a2: Option<Token>, line: usize) -> Result<(), (usize, Seq<char>)> {
    if a1 is None || a2 is Some {
        fail(line, r + " requires one argument"@)
    } else {
        Ok(())
    }
}

pub open spec fn is_regorptr(t: Token) -> bool {
    t is Register || t is RegPointer
}

pub open spec fn is_srcall(t: Token) -> bool {
    t is SRCall || t is Ident
}

pub open spec fn is_literal(t: Token) -> bool {
    t is Literal || t is Ident
}

pub open spec fn ld_args_spec(r: Seq<char>, a1: Option<Token>, a2: Option<Token>, line: usize, ls: Seq<Label>, vs: Seq<Variable>) -> Result<(), (usize, Seq<char>)> {
    if !(a1 matches Some(t) && t is Register) {
        fail(line, r + " requires LHS to be a register"@)
    } else if !(a2 matches Some(t) && (t is MemAddr || is_srcall(t))) {
        fail(line, r + " requires RHS to be a memory address"@)
    } else if is_regorptr(a1.unwrap()) && num_spec(a1.unwrap(), ls, vs) > 7 {
        fail(line, r + " LHS register must be 7 or less"@)
    } else if num_spec(a2.unwrap(), ls, vs) > 511 {
        fail(line, mmafail())
    } else {
        Ok(())
    }
}

pub open spec fn st_args_spec(r: Seq<char>, a1: Option<Token>, a2: Option<Token>, line: usize, ls: Seq<Label>, vs: Seq<Variable>) -> Result<(), (usize, Seq<char>)> {
    if !(a1 matches Some(t) && (t is RegPointer || t is MemAddr || is_srcall(t))) {
        fail(line, r + " requires LHS to be a register indirect or memory address"@)
    } else if !(a2 matches Some(t) && t is Register) {
        fail(line, r + " requires RHS to be a register"@)
    } else if is_regorptr(a2.unwrap()) && num_spec(a2.unwrap(), ls, vs) > 7 {
        fail(line, r + " RHS register must be 7 or less"@)
    } else if num_spec(a1.unwrap(), ls, vs) > 255 {
        fail(line, mmafail())
    } else {
        Ok(())
    }
}

pub open spec fn mov_args_spec(r: Seq<char>, a1: Option<Token>, a2: Option<Token>, line: usize, ls: Seq<Label>, vs: Seq<Variable>) -> Result<(), (usize, Seq<char>)> {
    if !(a1 matches Some(t) && t is Register) {
        fail(line, r + " requires LHS to be a register"@)
    } else if is_regorptr(a1.unwrap()) && num_spec(a1.unwrap(), ls, vs) > 7 {
        fail(line, r + " LHS register must be 7 or less"@)
    } else if !(a2 matches Some(t) && (t is Register || is_literal(t) || t is RegPointer
        || t is MemPointer)) {
        fail(
            line,
            r
                + " requires RHS to be a register, literal, register indirect, or memory address indirect"@,
        )
    } else if is_regorptr(a2.unwrap()) && num_spec(a2.unwrap(), ls, vs) > 9 {
        fail(line, r + " RHS register must be 9 or less"@)
    } else if num_spec(a2.unwrap(), ls, vs) > 511 {
        if !(a2.unwrap() is MemPointer) {
            fail(line, litfail())
        } else {
            fail(line, mmafail())
        }
    } else {
        Ok(())
    }
}

pub open spec fn int_args_spec(r: Seq<char>, a1: Option<Token>, line: usize, ls: Seq<Label>, vs: Seq<Variable>) -> Result<(), (usize, Seq<char>)> {
    if !(a1 matches Some(t) && is_literal(t)) {
        fail(line, r + " requires SRC to be a Literal"@)
    } else if num_spec(a1.unwrap(), ls, vs) > 2047 || num_spec(a1.unwrap(), ls, vs) < -1 {
        fail(line, "invalid interrupt number"@)
    } else {
        Ok(())
    }
}

pub open spec fn push_args_spec(r: Seq<char>, a1: Option<Token>, line: usize, ls: Seq<Label>, vs: Seq<Variable>) -> Result<(), (usize, Seq<char>)> {
    if !(a1 matches Some(t) && (t is MemAddr || t is Register || is_literal(t))) {
        fail(line, r + " requires SRC to be a register or literal or memory address"@)
    } else if is_regorptr(a1.unwrap()) && num_spec(a1.unwrap(), ls, vs) > 9 {
        fail(line, r + " RHS register must be 9 or less"@)
    } else if is_literal(a1.unwrap()) && num_spec(a1.unwrap(), ls, vs) > 2047 {
        fail(line, litfail())
    } else {
        Ok(())
    }
}

pub open spec fn jump_args_spec(r: Seq<char>, a1: Option<Token>, line: usize, ls: Seq<Label>, vs: Seq<Variable>) -> Result<(), (usize, Seq<char>)> {
    if !(a1 matches Some(t) && (t is RegPointer || t is MemAddr || is_srcall(t))) {
        fail(line, r + " requires DEST to be a register indirect, memory address, or SRCall"@)
    } else if is_regorptr(a1.unwrap()) && num_spec(a1.unwrap(), ls, vs) > 9 {
        fail(line, r + " RHS register must be 9 or less"@)
    } else if num_spec(a1.unwrap(), ls, vs) > 1023 {
        fail(line, mmafail())
    } else {
        Ok(())
    }
}

pub open spec fn then_spec(first: Result<(), (usize, Seq<char>)>, second: Result<(), (usize, Seq<char>)>) -> Result<(), (usize, Seq<char>)> {
    match first {
        Ok(()) => second,
        Err(e) => Err(e),
    }
}

/// The checks of an instruction named `r` (uppercase).
pub open spec fn check_instruction_spec(r: Seq<char>, a1: Option<Token>, a2: Option<Token>, line: usize, ls: Seq<Label>, vs: Seq<Variable>) -> Result<(), (usize, Seq<char>)> {
    if r == "HLT"@ || r == "RET"@ {
        only_none_spec(r, a1, a2, line)
    } else if r == "LD"@ || r == "LEA"@ {
        then_spec(only_two_spec(r, a1, a2, line), ld_args_spec(r, a1, a2, line, ls, vs))
    } else if r == "ST"@ {
        then_spec(only_two_spec(r, a1, a2, line), st_args_spec(r, a1, a2, line, ls, vs))
    } else if r == "MOV"@ || r == "MUL"@ || r == "DIV"@ || r == "ADD"@ || r == "CMP"@ {
        then_spec(only_two_spec(r, a1, a2, line), mov_args_spec(r, a1, a2, line, ls, vs))
    } else if r == "INT"@ {
        then_spec(one_none_spec(r, a1, a2, line), int_args_spec(r, a1, line, ls, vs))
    } else if r.len() > 0 && (r[0] == 'j' || r[0] == 'b') {
        then_spec(only_one_spec(r, a1, a2, line), jump_args_spec(r, a1, line, ls, vs))
    } else if r == "PUSH"@ || r == "POP"@ {
        then_spec(only_one_spec(r, a1, a2, line), push_args_spec(r, a1, line, ls, vs))
    } else {
        Ok(())
    }
}

/// The mnemonics whose operands are checked.
pub open spec fn checked_names() -> Seq<Seq<char>> {
    seq![
        "ADD"@, "HLT"@, "BO"@, "POP"@, "DIV"@, "RET"@, "LD"@, "ST"@, "JMP"@, "BZ"@, "PUSH"@,
        "CMP"@, "NAND"@, "INT"@, "MOV"@, "LEA"@, "BE"@, "BNE"@, "BNZ"@, "BNO"@, "BG"@, "BL"@,
    ]
}

/// What `verify` says of a line: the checks of its instruction, when the
/// line starts with a known mnemonic.
pub open spec fn verify_spec(ins: Token, a1: Option<Token>, a2: Option<Token>, line: usize, ls: Seq<Label>, vs: Seq<Variable>) -> Result<(), (usize, Seq<char>)> {
    let r = upper(raw_spec(ins));
    if ins is Ident && checked_names().contains(r) {
        check_instruction_spec(r, a1, a2, line, ls, vs)
    } else {
        Ok(())
    }
}

fn err_with(line: usize, r: &[char], m: &str) -> (e: CheckError)
    ensures
        e.0 == line,
        e.1@ == r@ + m@,
{
    let mut s = String::new();
    let mut i: usize = 0;
    while i < r.len()
        invariant
            i <= r@.len(),
            s@ == r@.take(i as int),
        decreases r@.len() - i,
    {
        crate::text::push_char(&mut s, r[i]);
        i = i + 1;
        assert(s@ =~= r@.take(i as int));
    }
    assert(r@.take(r@.len() as int) =~= r@);
    (line, s.concat(m))
}

fn only_none(r: &[char], a1: Option<&Token>, a2: Option<&Token>, line: usize) -> (res: Result<(), CheckError>)
    ensures
        check_view(res) == only_none_spec(r@, opt_token(a1), opt_token(a2), line),
{
    if a1.is_some() || a2.is_some() {
        return Err(err_with(line, r, " requires no arguments"));
    }
    Ok(())
}

fn only_two(r: &[char], a1: Option<&Token>, a2: Option<&Token>, line: usize) -> (res: Result<(), CheckError>)
    ensures
        check_view(res) == only_two_spec(r@, opt_token(a1), opt_token(a2), line),
{
    if a1.is_none() || a2.is_none() {
        return Err(err_with(line, r, " requires two arguments"));
    }
    Ok(())
}

fn one_none(r: &[char], a1: Option<&Token>, a2: Option<&Token>, line: usize) -> (res: Result<(), CheckError>)
    ensures
        check_view(res) == one_none_spec(r@, opt_token(a1), opt_token(a2), line),
{
    if a1.is_some() && a2.is_some() {
        return Err(err_with(line, r, " requires one or no arguments"));
    }
    Ok(())
}

fn only_one(r: &[char], a1: Option<&Token>, a2: Option<&Token>, line: usize) -> (res: Result<(), CheckError>)
    ensures
        check_view(res) == only_one_spec(r@, opt_token(a1), opt_token(a2), line),
{
    if a1.is_none() || a2.is_some() {
        return Err(err_with(line, r, " requires one argument"));
    }
    Ok(())
}

fn ld_args(r: &[char], a1: Option<&Token>, a2: Option<&Token>, line: usize, symbols: &SymbolTable) -> (res: Result<(), CheckError>)
    ensures
        check_view(res) == ld_args_spec(r@, opt_token(a1), opt_token(a2), line, symbols.labels@, symbols.variables@),
{
    let t1 = match a1 {
        Some(t) if t.is_register() => t,
        _ => return Err(err_with(line, r, " requires LHS to be a register")),
    };
    let t2 = match a2 {
        Some(t) if t.is_memory_address() || t.is_srcall() => t,
        _ => return Err(err_with(line, r, " requires RHS to be a memory address")),
    };
    if t1.is_regorptr() && t1.get_num(symbols) > 7 {
        return Err(err_with(line, r, " LHS register must be 7 or less"));
    }
    if t2.get_num(symbols) > 511 {
        return Err((line, string_from("memory address or address of label too large")));
    }
    Ok(())
}

fn st_args(r: &[char], a1: Option<&Token>, a2: Option<&Token>, line: usize, symbols: &SymbolTable) -> (res: Result<(), CheckError>)
    ensures
        check_view(res) == st_args_spec(r@, opt_token(a1), opt_token(a2), line, symbols.labels@, symbols.variables@),
{
    let t1 = match a1 {
        Some(t) if t.is_register_indirect() || t.is_memory_address() || t.is_srcall() => t,
        _ => return Err(err_with(line, r, " requires LHS to be a register indirect or memory address")),
    };
    let t2 = match a2 {
        Some(t) if t.is_register() => t,
        _ => return Err(err_with(line, r, " requires RHS to be a register")),
    };
    if t2.is_regorptr() && t2.get_num(symbols) > 7 {
        return Err(err_with(line, r, " RHS register must be 7 or less"));
    }
    if t1.get_num(symbols) > 255 {
        return Err((line, string_from("memory address or address of label too large")));
    }
    Ok(())
}

fn mov_args(r: &[char], a1: Option<&Token>, a2: Option<&Token>, line: usize, symbols: &SymbolTable) -> (res: Result<(), CheckError>)
    ensures
        check_view(res) == mov_args_spec(r@, opt_token(a1), opt_token(a2), line, symbols.labels@, symbols.variables@),
{
    let t1 = match a1 {
        Some(t) if t.is_register() => t,
        _ => return Err(err_with(line, r, " requires LHS to be a register")),
    };
    if t1.is_regorptr() && t1.get_num(symbols) > 7 {
        return Err(err_with(line, r, " LHS register must be 7 or less"));
    }
    let t2 = match a2 {
        Some(t) if t.is_register() || t.is_literal() || t.is_register_indirect()
            || t.is_memory_address_indirect() => t,
        _ => return Err(err_with(line, r, " requires RHS to be a register, literal, register indirect, or memory address indirect")),
    };
    if t2.is_regorptr() && t2.get_num(symbols) > 9 {
        return Err(err_with(line, r, " RHS register must be 9 or less"));
    }
    if t2.get_num(symbols) > 511 {
        if !t2.is_memory_address_indirect() {
            return Err((line, string_from("literal value too large")));
        } else {
            return Err((line, string_from("memory address or address of label too large")));
        }
    }
    Ok(())
}

fn int_args(r: &[char], a1: Option<&Token>, line: usize, symbols: &SymbolTable) -> (res: Result<(), CheckError>)
    ensures
        check_view(res) == int_args_spec(r@, opt_token(a1), line, symbols.labels@, symbols.variables@),
{
    let t = match a1 {
        Some(t) if t.is_literal() => t,
        _ => return Err(err_with(line, r, " requires SRC to be a Literal")),
    };
    if t.get_num(symbols) > 2047 || t.get_num(symbols) < -1 {
        return Err((line, string_from("invalid interrupt number")));
    }
    Ok(())
}

fn push_args(r: &[char], a1: Option<&Token>, line: usize, symbols: &SymbolTable) -> (res: Result<(), CheckError>)
    ensures
        check_view(res) == push_args_spec(r@, opt_token(a1), line, symbols.labels@, symbols.variables@),
{
    let t = match a1 {
        Some(t) if t.is_memory_address() || t.is_register() || t.is_literal() => t,
        _ => return Err(err_with(line, r, " requires SRC to be a register or literal or memory address")),
    };
    if t.is_regorptr() && t.get_num(symbols) > 9 {
        return Err(err_with(line, r, " RHS register must be 9 or less"));
    }
    if t.is_literal() && t.get_num(symbols) > 2047 {
        return Err((line, string_from("literal value too large")));
    }
    Ok(())
}

fn jump_args(r: &[char], a1: Option<&Token>, line: usize, symbols: &SymbolTable) -> (res: Result<(), CheckError>)
    ensures
        check_view(res) == jump_args_spec(r@, opt_token(a1), line, symbols.labels@, symbols.variables@),
{
    let t = match a1 {
        Some(t) if t.is_register_indirect() || t.is_memory_address() || t.is_srcall() => t,
        _ => return Err(err_with(line, r, " requires DEST to be a register indirect, memory address, or SRCall")),
    };
    if t.is_regorptr() && t.get_num(symbols) > 9 {
        return Err(err_with(line, r, " RHS register must be 9 or less"));
    }
    if t.get_num(symbols) > 1023 {
        return Err((line, string_from("memory address or address of label too large")));
    }
    Ok(())
}

/// Checks the operands of an instruction whose mnemonic, in uppercase, is
/// `r` (see `check_instruction_spec`).
pub fn check_instruction(r: &[char], a1: Option<&Token>, a2: Option<&Token>, line: usize, symbols: &SymbolTable) -> (res: Result<(), CheckError>)
    ensures
        check_view(res) == check_instruction_spec(r@, opt_token(a1), opt_token(a2), line, symbols.labels@, symbols.variables@),
{
    if is_text(r, "HLT") || is_text(r, "RET") {
        only_none(r, a1, a2, line)
    } else if is_text(r, "LD") || is_text(r, "LEA") {
        only_two(r, a1, a2, line)?;
        ld_args(r, a1, a2, line, symbols)
    } else if is_text(r, "ST") {
        only_two(r, a1, a2, line)?;
        st_args(r, a1, a2, line, symbols)
    } else if is_text(r, "MOV") || is_text(r, "MUL") || is_text(r, "DIV") || is_text(r, "ADD")
        || is_text(r, "CMP") {
        only_two(r, a1, a2, line)?;
        mov_args(r, a1, a2, line, symbols)
    } else if is_text(r, "INT") {
        one_none(r, a1, a2, line)?;
        int_args(r, a1, line, symbols)
    } else if r.len() > 0 && (r[0] == 'j' || r[0] == 'b') {
        only_one(r, a1, a2, line)?;
        jump_args(r, a1, line, symbols)
    } else if is_text(r, "PUSH") || is_text(r, "POP") {
        only_one(r, a1, a2, line)?;
        push_args(r, a1, line, symbols)
    } else {
        Ok(())
    }
}

fn is_checked_name(r: &[char]) -> (b: bool)
    ensures
        b == checked_names().contains(r@),
{
    let b = is_text(r, "ADD") || is_text(r, "HLT") || is_text(r, "BO") || is_text(r, "POP")
        || is_text(r, "DIV") || is_text(r, "RET") || is_text(r, "LD") || is_text(r, "ST")
        || is_text(r, "JMP") || is_text(r, "BZ") || is_text(r, "PUSH") || is_text(r, "CMP")
        || is_text(r, "NAND") || is_text(r, "INT") || is_text(r, "MOV") || is_text(r, "LEA")
        || is_text(r, "BE") || is_text(r, "BNE") || is_text(r, "BNZ") || is_text(r, "BNO")
        || is_text(r, "BG") || is_text(r, "BL");
    proof {
        let names = checked_names();
        if b {
            assert(exists|i: int| 0 <= i < names.len() && names[i] == r@) by {
                if r@ == "ADD"@ { assert(names[0] == r@); }
                else if r@ == "HLT"@ { assert(names[1] == r@); }
                else if r@ == "BO"@ { assert(names[2] == r@); }
                else if r@ == "POP"@ { assert(names[3] == r@); }
                else if r@ == "DIV"@ { assert(names[4] == r@); }
                else if r@ == "RET"@ { assert(names[5] == r@); }
                else if r@ == "LD"@ { assert(names[6] == r@); }
                else if r@ == "ST"@ { assert(names[7] == r@); }
                else if r@ == "JMP"@ { assert(names[8] == r@); }
                else if r@ == "BZ"@ { assert(names[9] == r@); }
                else if r@ == "PUSH"@ { assert(names[10] == r@); }
                else if r@ == "CMP"@ { assert(names[11] == r@); }
                else if r@ == "NAND"@ { assert(names[12] == r@); }
                else if r@ == "INT"@ { assert(names[13] == r@); }
                else if r@ == "MOV"@ { assert(names[14] == r@); }
                else if r@ == "LEA"@ { assert(names[15] == r@); }
                else if r@ == "BE"@ { assert(names[16] == r@); }
                else if r@ == "BNE"@ { assert(names[17] == r@); }
                else if r@ == "BNZ"@ { assert(names[18] == r@); }
                else if r@ == "BNO"@ { assert(names[19] == r@); }
                else if r@ == "BG"@ { assert(names[20] == r@); }
                else { assert(names[21] == r@); }
            }
        } else {
            assert forall|i: int| 0 <= i < names.len() implies names[i] != r@ by {
                assert(0 <= i < 22);
            }
        }
    }
    b
}

/// Checks the operands of a line's instruction (see `verify_spec`).
pub fn verify(ins: &Token, arg1: Option<&Token>, arg2: Option<&Token>, line_num: usize, symbols: &SymbolTable) -> (r: Result<(), CheckError>)
    ensures
        check_view(r) == verify_spec(*ins, opt_token(arg1), opt_token(arg2), line_num, symbols.labels@, symbols.variables@),
{
    let raw = ins.get_raw();
    let raw_token = to_uppercase(raw.as_str());
    if let Token::Ident(_) = ins {
        if is_checked_name(raw_token.as_slice()) {
            return check_instruction(raw_token.as_slice(), arg1, arg2, line_num, symbols);
        }
    }
    Ok(())
}

} // verus!
