//! Encoding of a source line's instruction or directive into words.
use vstd::prelude::*;
use crate::codegen::{CodegenError, ErrorView, arg_fits, arg_spec, argument_to_binary, error_view, opt_token};
use crate::numbers::{parse_i16, parse_i16_spec};
use crate::suggest::{distance, levenshtein_distance};
use crate::symbols::{Label, SymbolTable, Variable};
use crate::text::{chars_of, is_text, string_from, to_uppercase, trim, trimmed, upper};
use crate::tokens::{
    ADD_OP, BG_OP, BL_OP, BNO_OP, BNZ_OP, BO_OP, BZ_OP, CMP_OP, DIV_OP, HLT_OP, INT_OP, JMP_OP,
    LD_OP, LEA_OP, MOV_OP, NAND_OP, POP_OP, PUSH_OP, RET_OP, ST_OP, Token, num_spec, raw_spec,
};

verus! {

/// How an instruction or directive is encoded.
#[derive(Clone, Copy, Debug, PartialEq, Eq, Structural)]
pub enum Form {
    /// Opcode at bit 12, first operand at bit 9, second operand below.
    Default,
    /// Five-bit opcode at bit 11, target below.
    Jump,
    /// A jump to a label, whose address must fit in ten bits.
    Call,
    /// A jump through a register (bit 10 set).
    Jwr,
    /// Opcode at bit 12, one operand below.
    OneArg,
    /// `POP` to a memory address (bit 11 set).
    PopMem,
    /// `LD` and `LEA`: both operands are required.
    Ld,
    /// `ST`: first operand at bit 3.
    St,
    /// `ST` through a register (bit 11 set, register at bit 7).
    Sti,
    /// `.asciiz`: one word per character.
    Ascii,
    /// `.word`: the number of the operand.
    Word,
    /// `.data`: one literal word per character.
    Data,
    /// `.dataword`: the number of the operand as a literal word.
    DataWord,
    /// `.pad`: as many zero words as the operand says.
    Pad,
    /// Any other directive.
    Directive,
}

/// `arg1.or(arg2)`.
pub open spec fn first_arg(a1: Option<Token>, a2: Option<Token>) -> Option<Token> {
    if a1 is Some {
        a1
    } else {
        a2
    }
}

/// The opcode of a jump or branch mnemonic (uppercase).
pub open spec fn jump_opcode(u: Seq<char>) -> Option<i16> {
    if u == "BO"@ {
        Some(BO_OP)
    } else if u == "BNO"@ {
        Some(BNO_OP)
    } else if u == "JMP"@ || u == "J"@ {
        Some(JMP_OP)
    } else if u == "BZ"@ || u == "BE"@ || u == "BEQ"@ {
        Some(BZ_OP)
    } else if u == "BNZ"@ || u == "BNE"@ {
        Some(BNZ_OP)
    } else if u == "BL"@ {
        Some(BL_OP)
    } else if u == "BG"@ {
        Some(BG_OP)
    } else {
        None
    }
}

/// The mnemonics of jumps and branches, in the order suggestions list them.
pub open spec fn jump_names() -> Seq<Seq<char>> {
    seq!["BO"@, "BNO"@, "JMP"@, "J"@, "BZ"@, "BE"@, "BEQ"@, "BNZ"@, "BNE"@, "BL"@, "BG"@]
}

/// All mnemonics, in the order suggestions list them.
pub open spec fn all_names() -> Seq<Seq<char>> {
    seq![
        "ADD"@, "HLT"@, "BO"@, "POP"@, "DIV"@, "RET"@, "LD"@, "ST"@, "JMP"@, "BZ"@, "PUSH"@,
        "CMP"@, "NAND"@, "INT"@, "MOV"@, "LEA"@, "BE"@, "BNE"@, "BNZ"@, "BNO"@, "BG"@, "BL"@,
    ]
}

/// The candidates within distance `k` of `u`, closest first, in list
/// order among equally close ones.
pub open spec fn by_distance(cands: Seq<Seq<char>>, u: Seq<char>, k: int) -> Seq<Seq<char>>
    decreases k + 1,
{
    if k < 0 {
        Seq::empty()
    } else {
        by_distance(cands, u, k - 1) + cands.filter_map(
            |c: Seq<char>|
                if distance(u, c) == k {
                    Some(c)
                } else {
                    None
                },
        )
    }
}

/// Texts joined by ", ".
pub open spec fn joined(ms: Seq<Seq<char>>) -> Seq<char>
    decreases ms.len(),
{
    if ms.len() == 0 {
        Seq::empty()
    } else if ms.len() == 1 {
        ms[0]
    } else {
        joined(ms.drop_last()) + ", "@ + ms.last()
    }
}

/// "maybe you meant: ..." with the candidates within distance `k`, or nothing.
pub open spec fn suggestion_tip(cands: Seq<Seq<char>>, u: Seq<char>, k: int) -> Seq<char> {
    let ms = by_distance(cands, u, k);
    if ms.len() == 0 || u.len() >= usize::MAX / 2 {
        Seq::empty()
    } else {
        "maybe you meant: "@ + joined(ms)
    }
}

/// How a token kind is named in messages.
pub open spec fn kind_name(t: Token) -> Seq<char> {
    match t {
        Token::EqualSign => "equals"@,
        Token::Ident(_) => "identifier"@,
        Token::Register(_) => "register"@,
        Token::Comma => "comma"@,
        Token::Literal(_) => "literal"@,
        Token::NewLine => "newline"@,
        Token::Eol => "eol"@,
        Token::SRCall(_) => "label reference"@,
        Token::MemAddr(_) => "memory address"@,
        Token::Directive(_) => "directive"@,
        Token::RegPointer(_) => "register indirect"@,
        Token::MemPointer(_) => "memory indirect"@,
        Token::Asciiz(_) => "ascii string"@,
    }
}

/// The opcode and form of an instruction mnemonic (uppercase `u`, as
/// written `name`), or the message and tip of the error.
pub open spec fn select_mnemonic(name: Seq<char>, u: Seq<char>, a1: Option<Token>, a2: Option<Token>) -> Result<(i16, Form), (Seq<char>, Seq<char>)> {
    if u == "HLT"@ {
        Ok((HLT_OP, Form::Default))
    } else if u == "ADD"@ {
        Ok((ADD_OP, Form::Default))
    } else if u.len() > 0 && (u[0] == 'J' || u[0] == 'B') {
        match jump_opcode(u) {
            Some(op) => Ok(
                (
                    op,
                    match first_arg(a1, a2) {
                        Some(Token::SRCall(_)) => Form::Call,
                        Some(Token::RegPointer(_)) => Form::Jwr,
                        _ => Form::Jump,
                    },
                ),
            ),
            None => Err(
                (
                    "invalid jump/branch instruction \""@ + u + "\""@,
                    suggestion_tip(jump_names(), u, 1),
                ),
            ),
        }
    } else if u == "POP"@ {
        Ok(
            (
                POP_OP,
                match a1 {
                    Some(Token::MemAddr(_)) => Form::PopMem,
                    _ => Form::OneArg,
                },
            ),
        )
    } else if u == "DIV"@ {
        Ok((DIV_OP, Form::Default))
    } else if u == "RET"@ || u == "ET"@ {
        Ok((RET_OP, Form::Default))
    } else if u == "LD"@ {
        Ok((LD_OP, Form::Ld))
    } else if u == "ST"@ {
        Ok(
            (
                ST_OP,
                match first_arg(a1, a2) {
                    Some(Token::RegPointer(_)) => Form::Sti,
                    _ => Form::St,
                },
            ),
        )
    } else if u == "CMP"@ {
        Ok((CMP_OP, Form::Default))
    } else if u == "NAND"@ {
        Ok((NAND_OP, Form::Default))
    } else if u == "PUSH"@ {
        Ok((PUSH_OP, Form::OneArg))
    } else if u == "INT"@ {
        Ok((INT_OP, Form::OneArg))
    } else if u == "LEA"@ {
        Ok((LEA_OP, Form::Ld))
    } else if u == "MOV"@ {
        Ok((MOV_OP, Form::Default))
    } else {
        Err(("instruction \""@ + name + "\" not recognized"@, suggestion_tip(all_names(), u, 2)))
    }
}

/// The form of a directive.
pub open spec fn directive_form(s: Seq<char>) -> Form {
    if s == "asciiz"@ {
        Form::Ascii
    } else if s == "word"@ {
        Form::Word
    } else if s == "data"@ {
        Form::Data
    } else if s == "dataword"@ {
        Form::DataWord
    } else if s == "pad"@ {
        Form::Pad
    } else {
        Form::Directive
    }
}

/// The opcode and form of the first token of a line, or the message and
/// tip of the error.
pub open spec fn select_spec(ins: Token, a1: Option<Token>, a2: Option<Token>) -> Result<(i16, Form), (Seq<char>, Seq<char>)> {
    match ins {
        Token::Ident(name) => select_mnemonic(name@, upper(name@), a1, a2),
        Token::Directive(s) => Ok((HLT_OP, directive_form(s@))),
        _ => Err(("expected ident, found "@ + kind_name(ins), "please provide a directive or identifier"@)),
    }
}

fn push_name(v: &mut Vec<Vec<char>>, s: &str)
    ensures
        final(v)@.map_values(|x: Vec<char>| x@) == old(v)@.map_values(|x: Vec<char>| x@).push(s@),
{
    let c = chars_of(s);
    v.push(c);
    assert(final(v)@.map_values(|x: Vec<char>| x@) =~= old(v)@.map_values(|x: Vec<char>| x@).push(s@));
}

fn jump_name_list() -> (v: Vec<Vec<char>>)
    ensures
        v@.map_values(|x: Vec<char>| x@) == jump_names(),
        forall|i: int| 0 <= i < v@.len() ==> (#[trigger] v@[i])@.len() <= 4,
{
    let mut v: Vec<Vec<char>> = Vec::new();
    assert(v@.map_values(|x: Vec<char>| x@) =~= Seq::<Seq<char>>::empty());
    push_name(&mut v, "BO");
    push_name(&mut v, "BNO");
    push_name(&mut v, "JMP");
    push_name(&mut v, "J");
    push_name(&mut v, "BZ");
    push_name(&mut v, "BE");
    push_name(&mut v, "BEQ");
    push_name(&mut v, "BNZ");
    push_name(&mut v, "BNE");
    push_name(&mut v, "BL");
    push_name(&mut v, "BG");
    assert(v@.map_values(|x: Vec<char>| x@) =~= jump_names());
    proof {
        reveal_strlit("BO");
        reveal_strlit("BNO");
        reveal_strlit("JMP");
        reveal_strlit("J");
        reveal_strlit("BZ");
        reveal_strlit("BE");
        reveal_strlit("BEQ");
        reveal_strlit("BNZ");
        reveal_strlit("BNE");
        reveal_strlit("BL");
        reveal_strlit("BG");
        assert forall|i: int| 0 <= i < v@.len() implies (#[trigger] v@[i])@.len() <= 4 by {
            assert(v@.map_values(|x: Vec<char>| x@)[i] == v@[i]@);
        }
    }
    v
}

fn all_name_list() -> (v: Vec<Vec<char>>)
    ensures
        v@.map_values(|x: Vec<char>| x@) == all_names(),
        forall|i: int| 0 <= i < v@.len() ==> (#[trigger] v@[i])@.len() <= 4,
{
    let mut v: Vec<Vec<char>> = Vec::new();
    assert(v@.map_values(|x: Vec<char>| x@) =~= Seq::<Seq<char>>::empty());
    push_name(&mut v, "ADD");
    push_name(&mut v, "HLT");
    push_name(&mut v, "BO");
    push_name(&mut v, "POP");
    push_name(&mut v, "DIV");
    push_name(&mut v, "RET");
    push_name(&mut v, "LD");
    push_name(&mut v, "ST");
    push_name(&mut v, "JMP");
    push_name(&mut v, "BZ");
    push_name(&mut v, "PUSH");
    push_name(&mut v, "CMP");
    push_name(&mut v, "NAND");
    push_name(&mut v, "INT");
    push_name(&mut v, "MOV");
    push_name(&mut v, "LEA");
    push_name(&mut v, "BE");
    push_name(&mut v, "BNE");
    push_name(&mut v, "BNZ");
    push_name(&mut v, "BNO");
    push_name(&mut v, "BG");
    push_name(&mut v, "BL");
    assert(v@.map_values(|x: Vec<char>| x@) =~= all_names());
    proof {
        reveal_strlit("ADD");
        reveal_strlit("HLT");
        reveal_strlit("BO");
        reveal_strlit("POP");
        reveal_strlit("DIV");
        reveal_strlit("RET");
        reveal_strlit("LD");
        reveal_strlit("ST");
        reveal_strlit("JMP");
        reveal_strlit("BZ");
        reveal_strlit("PUSH");
        reveal_strlit("CMP");
        reveal_strlit("NAND");
        reveal_strlit("INT");
        reveal_strlit("MOV");
        reveal_strlit("LEA");
        reveal_strlit("BE");
        reveal_strlit("BNE");
        reveal_strlit("BNZ");
        reveal_strlit("BNO");
        reveal_strlit("BG");
        reveal_strlit("BL");
        assert forall|i: int| 0 <= i < v@.len() implies (#[trigger] v@[i])@.len() <= 4 by {
            assert(v@.map_values(|x: Vec<char>| x@)[i] == v@[i]@);
        }
    }
    v
}

/// The tip suggesting candidates close to `u` (see `suggestion_tip`).
fn suggest(cands: &Vec<Vec<char>>, u: &[char], k: usize) -> (tip: String)
    requires
        k <= 2,
        forall|i: int| 0 <= i < cands@.len() ==> (#[trigger] cands@[i])@.len() <= 4,
    ensures
        tip@ == suggestion_tip(cands@.map_values(|x: Vec<char>| x@), u@, k as int),
{
    let ghost cv = cands@.map_values(|x: Vec<char>| x@);
    if u.len() >= usize::MAX / 2 {
        return String::new();
    }
    let mut ms: Vec<Vec<char>> = Vec::new();
    let mut d: usize = 0;
    assert(ms@.map_values(|x: Vec<char>| x@) =~= by_distance(cv, u@, -1));
    while d <= k
        invariant
            d <= k + 1,
            k <= 2,
            u@.len() < usize::MAX / 2,
            cv == cands@.map_values(|x: Vec<char>| x@),
            forall|i: int| 0 <= i < cands@.len() ==> (#[trigger] cands@[i])@.len() <= 4,
            ms@.map_values(|x: Vec<char>| x@) == by_distance(cv, u@, d - 1),
        decreases k + 1 - d,
    {
        let ghost before = ms@.map_values(|x: Vec<char>| x@);
        let ghost f = |c: Seq<char>|
            if distance(u@, c) == d {
                Some(c)
            } else {
                None
            };
        let mut i: usize = 0;
        while i < cands.len()
            invariant
                i <= cands@.len(),
                d <= k,
                u@.len() < usize::MAX / 2,
                cv == cands@.map_values(|x: Vec<char>| x@),
                forall|j: int| 0 <= j < cands@.len() ==> (#[trigger] cands@[j])@.len() <= 4,
                f == (|c: Seq<char>|
                    if distance(u@, c) == d {
                        Some(c)
                    } else {
                        None
                    }),
                ms@.map_values(|x: Vec<char>| x@) == before + cv.take(i as int).filter_map(f),
            decreases cands@.len() - i,
        {
            let c = &cands[i];
            let dist = levenshtein_distance(u, c.as_slice());
            let ghost prev = ms@.map_values(|x: Vec<char>| x@);
            proof {
                let t = cv.take(i + 1);
                assert(t.drop_last() =~= cv.take(i as int));
                assert(t.last() == c@);
                assert(t.filter_map(f) == cv.take(i as int).filter_map(f) + (if dist == d {
                    seq![c@]
                } else {
                    Seq::empty()
                }));
            }
            if dist == d {
                let copy = crate::text::sub_vec(c.as_slice(), 0, c.len());
                assert(copy@ =~= c@);
                ms.push(copy);
                assert(ms@.map_values(|x: Vec<char>| x@) =~= prev.push(c@));
            }
            proof {
                assert(ms@.map_values(|x: Vec<char>| x@) =~= before + cv.take(i + 1).filter_map(f));
            }
            i = i + 1;
        }
        assert(cv.take(cands@.len() as int) =~= cv);
        d = d + 1;
    }
    let ghost mv = ms@.map_values(|x: Vec<char>| x@);
    if ms.len() == 0 {
        return String::new();
    }
    let mut list = String::new();
    let mut i: usize = 0;
    while i < ms.len()
        invariant
            i <= ms@.len(),
            mv == ms@.map_values(|x: Vec<char>| x@),
            list@ == joined(mv.take(i as int)),
        decreases ms@.len() - i,
    {
        let ghost t = mv.take(i + 1);
        assert(t.drop_last() =~= mv.take(i as int));
        if i > 0 {
            list = list.concat(", ");
        }
        let mut j: usize = 0;
        let ghost l0 = list@;
        while j < ms[i].len()
            invariant
                i < ms@.len(),
                j <= ms@[i as int]@.len(),
                list@ == l0 + ms@[i as int]@.take(j as int),
            decreases ms@[i as int]@.len() - j,
        {
            crate::text::push_char(&mut list, ms[i][j]);
            j = j + 1;
            assert(list@ =~= l0 + ms@[i as int]@.take(j as int));
        }
        assert(ms@[i as int]@.take(ms@[i as int]@.len() as int) =~= ms@[i as int]@);
        i = i + 1;
        proof {
            if i == 1 {
                assert(t.len() == 1);
                assert(mv.take(0).len() == 0);
            }
            assert(list@ =~= joined(t));
        }
    }
    assert(mv.take(mv.len() as int) =~= mv);
    String::from_str("maybe you meant: ").concat(list.as_str())
}

pub open spec fn select_view(r: Result<(i16, Form), (String, String)>) -> Result<(i16, Form), (Seq<char>, Seq<char>)> {
    match r {
        Ok(v) => Ok(v),
        Err((m, t)) => Err((m@, t@)),
    }
}

fn jump_of(u: &[char]) -> (r: Option<i16>)
    ensures
        r == jump_opcode(u@),
{
    if is_text(u, "BO") {
        Some(BO_OP)
    } else if is_text(u, "BNO") {
        Some(BNO_OP)
    } else if is_text(u, "JMP") || is_text(u, "J") {
        Some(JMP_OP)
    } else if is_text(u, "BZ") || is_text(u, "BE") || is_text(u, "BEQ") {
        Some(BZ_OP)
    } else if is_text(u, "BNZ") || is_text(u, "BNE") {
        Some(BNZ_OP)
    } else if is_text(u, "BL") {
        Some(BL_OP)
    } else if is_text(u, "BG") {
        Some(BG_OP)
    } else {
        None
    }
}

fn with_text(a: &str, b: &[char], c: &str) -> (s: String)
    ensures
        s@ == a@ + b@ + c@,
{
    let mut s = String::from_str(a);
    let mut i: usize = 0;
    let ghost s0 = s@;
    while i < b.len()
        invariant
            i <= b@.len(),
            s@ == s0 + b@.take(i as int),
        decreases b@.len() - i,
    {
        crate::text::push_char(&mut s, b[i]);
        i = i + 1;
        assert(s@ =~= s0 + b@.take(i as int));
    }
    assert(b@.take(b@.len() as int) =~= b@);
    s.concat(c)
}

fn select_mnemonic_exec(name: &String, a1: Option<&Token>, a2: Option<&Token>) -> (r: Result<(i16, Form), (String, String)>)
    ensures
        select_view(r) == select_mnemonic(name@, upper(name@), opt_token(a1), opt_token(a2)),
{
    let u = to_uppercase(name.as_str());
    select_mnemonic_of(name, u.as_slice(), a1, a2)
}

/// The opcode and form that the mnemonic `name`, written `u` in uppercase,
/// selects with its operands, or the message and tip of the error (see
/// `select_mnemonic`).
pub fn select_mnemonic_of(name: &String, u: &[char], a1: Option<&Token>, a2: Option<&Token>) -> (r: Result<(i16, Form), (String, String)>)
    ensures
        select_view(r) == select_mnemonic(name@, u@, opt_token(a1), opt_token(a2)),
{
    if is_text(u, "HLT") {
        Ok((HLT_OP, Form::Default))
    } else if is_text(u, "ADD") {
        Ok((ADD_OP, Form::Default))
    } else if u.len() > 0 && (u[0] == 'J' || u[0] == 'B') {
        match jump_of(u) {
            Some(op) => {
                let first = if a1.is_some() {
                    a1
                } else {
                    a2
                };
                let form = match first {
                    Some(Token::SRCall(_)) => Form::Call,
                    Some(Token::RegPointer(_)) => Form::Jwr,
                    _ => Form::Jump,
                };
                Ok((op, form))
            },
            None => {
                let names = jump_name_list();
                let tip = suggest(&names, u, 1);
                Err((with_text("invalid jump/branch instruction \"", u, "\""), tip))
            },
        }
    } else if is_text(u, "POP") {
        let form = match a1 {
            Some(Token::MemAddr(_)) => Form::PopMem,
            _ => Form::OneArg,
        };
        Ok((POP_OP, form))
    } else if is_text(u, "DIV") {
        Ok((DIV_OP, Form::Default))
    } else if is_text(u, "RET") || is_text(u, "ET") {
        Ok((RET_OP, Form::Default))
    } else if is_text(u, "LD") {
        Ok((LD_OP, Form::Ld))
    } else if is_text(u, "ST") {
        let first = if a1.is_some() {
            a1
        } else {
            a2
        };
        let form = match first {
            Some(Token::RegPointer(_)) => Form::Sti,
            _ => Form::St,
        };
        Ok((ST_OP, form))
    } else if is_text(u, "CMP") {
        Ok((CMP_OP, Form::Default))
    } else if is_text(u, "NAND") {
        Ok((NAND_OP, Form::Default))
    } else if is_text(u, "PUSH") {
        Ok((PUSH_OP, Form::OneArg))
    } else if is_text(u, "INT") {
        Ok((INT_OP, Form::OneArg))
    } else if is_text(u, "LEA") {
        Ok((LEA_OP, Form::Ld))
    } else if is_text(u, "MOV") {
        Ok((MOV_OP, Form::Default))
    } else {
        let names = all_name_list();
        let tip = suggest(&names, u, 2);
        let n = chars_of(name.as_str());
        Err((with_text("instruction \"", n.as_slice(), "\" not recognized"), tip))
    }
}

fn kind_name_exec(t: &Token) -> (s: String)
    ensures
        s@ == kind_name(*t),
{
    match t {
        Token::EqualSign => string_from("equals"),
        Token::Ident(_) => string_from("identifier"),
        Token::Register(_) => string_from("register"),
        Token::Comma => string_from("comma"),
        Token::Literal(_) => string_from("literal"),
        Token::NewLine => string_from("newline"),
        Token::Eol => string_from("eol"),
        Token::SRCall(_) => string_from("label reference"),
        Token::MemAddr(_) => string_from("memory address"),
        Token::Directive(_) => string_from("directive"),
        Token::RegPointer(_) => string_from("register indirect"),
        Token::MemPointer(_) => string_from("memory indirect"),
        Token::Asciiz(_) => string_from("ascii string"),
    }
}

/// The opcode and form of the first token of a line (see `select_spec`).
fn select(ins: &Token, a1: Option<&Token>, a2: Option<&Token>) -> (r: Result<(i16, Form), (String, String)>)
    ensures
        select_view(r) == select_spec(*ins, opt_token(a1), opt_token(a2)),
{
    match ins {
        Token::Ident(name) => select_mnemonic_exec(name, a1, a2),
        Token::Directive(s) => {
            let d = chars_of(s.as_str());
            let d = d.as_slice();
            let form = if is_text(d, "asciiz") {
                Form::Ascii
            } else if is_text(d, "word") {
                Form::Word
            } else if is_text(d, "data") {
                Form::Data
            } else if is_text(d, "dataword") {
                Form::DataWord
            } else if is_text(d, "pad") {
                Form::Pad
            } else {
                Form::Directive
            };
            Ok((HLT_OP, form))
        },
        _ => {
            let kind = kind_name_exec(ins);
            Err((
                String::from_str("expected ident, found ").concat(kind.as_str()),
                string_from("please provide a directive or identifier"),
            ))
        },
    }
}

/// The error `(line, None, message, tip)`.
pub open spec fn plain_error(line: usize, message: Seq<char>, tip: Seq<char>) -> ErrorView {
    (line, None, message, tip)
}

/// Two operands encoded one after the other; the first error wins.
pub open spec fn pair_spec(x: Result<i16, ErrorView>, y: Result<i16, ErrorView>) -> Result<(i16, i16), ErrorView> {
    match x {
        Err(e) => Err(e),
        Ok(a) => match y {
            Err(e) => Err(e),
            Ok(b) => Ok((a, b)),
        },
    }
}

/// The words of a line with an instruction whose form takes operands.
pub open spec fn operand_words(form: Form, op: i16, ins: Token, a1: Option<Token>, a2: Option<Token>, line: usize, labels: Seq<Label>, variables: Seq<Variable>) -> Result<Option<Seq<i16>>, ErrorView> {
    let arg1 = arg_spec(a1, line, labels, variables);
    let arg2 = arg_spec(a2, line, labels, variables);
    match form {
        Form::OneArg => match arg1 {
            Ok(a) => Ok(Some(seq![(op << 12) | a])),
            Err(e) => Err(e),
        },
        Form::Jump => match arg1 {
            Ok(a) => Ok(Some(seq![(op << 11) | a])),
            Err(e) => Err(e),
        },
        Form::Call => match arg1 {
            Ok(a) => if a > 1023 {
                Err(plain_error(line, "label memory address too large on instruction on line"@, Seq::empty()))
            } else {
                Ok(Some(seq![(op << 11) | a]))
            },
            Err(e) => Err(e),
        },
        Form::Default => match pair_spec(arg1, arg2) {
            Ok((x, y)) => Ok(Some(seq![(op << 12) | (x << 9) | y])),
            Err(e) => Err(e),
        },
        Form::St => match pair_spec(arg1, arg2) {
            Ok((x, y)) => Ok(Some(seq![(op << 12) | (x << 3) | y])),
            Err(e) => Err(e),
        },
        Form::Ld => if a1 is None || a2 is None {
            Err(plain_error(line, "LEA/LD argument is empty"@, "please provide a register LHS and address RHS"@))
        } else {
            match pair_spec(arg2, arg1) {
                Ok((y, x)) => Ok(Some(seq![(op << 12) | (x << 9) | y])),
                Err(e) => Err(e),
            }
        },
        Form::PopMem => Ok(Some(seq![(op << 12) | 2048i16 | num_spec(a1.unwrap(), labels, variables)])),
        Form::Sti => match a1 {
            None => Err(plain_error(line, "missing argument for store indirect"@, "provide a memory address LHS and register indirect RHS"@)),
            Some(t) => match parse_i16_spec(trimmed(raw_spec(t))) {
                None => Err(plain_error(line, "failed to parse integer"@, "please provide a proper integer"@)),
                Some(p) => match pair_spec(arg_spec(Some(Token::Register(p)), line, labels, variables), arg2) {
                    Ok((x, y)) => Ok(Some(seq![(op << 12) | 2048i16 | (x << 7) | y])),
                    Err(e) => Err(e),
                },
            },
        },
        Form::Jwr => match a1 {
            None => Err(plain_error(line, "missing argument for indirect branch/jump"@, "please provide a register indirect argument"@)),
            Some(t) => match parse_i16_spec(trimmed(raw_spec(t))) {
                None => Err(plain_error(line, "failed to parse integer for indirect jump"@, "please provide a register indirect argument"@)),
                Some(p) => match arg_spec(Some(Token::Register(p)), line, labels, variables) {
                    Ok(x) => Ok(Some(seq![(op << 11) | 1024i16 | x])),
                    Err(e) => Err(e),
                },
            },
        },
        _ => match arg_spec(Some(ins), line, labels, variables) {
            Err(e) => Err(e),
            Ok(b) => if b != 1 {
                match arg1 {
                    Ok(a) => Ok(Some(seq![(op << 12) | (b << 9) | a])),
                    Err(e) => Err(e),
                }
            } else {
                Ok(None)
            },
        },
    }
}

/// The words of a line with a data directive.
pub open spec fn data_words(form: Form, a1: Option<Token>, line: usize, labels: Seq<Label>, variables: Seq<Variable>) -> Result<Option<Seq<i16>>, ErrorView> {
    match a1 {
        None => Err(
            match form {
                Form::Ascii => plain_error(line, "asciiz argument is empty"@, "please provide an ASCII string argument"@),
                Form::Word => plain_error(line, "word argument is empty"@, "please provide a 16-bit argument"@),
                Form::Data => plain_error(line, ".data argument is empty"@, "please provide an ASCII string argument"@),
                Form::Pad => plain_error(line, ".pad argument is empty"@, "please provide an argument"@),
                _ => plain_error(line, "dataword argument is empty"@, "please provide a 16-bit argument"@),
            },
        ),
        Some(t) => Ok(
            Some(
                match form {
                    Form::Ascii => raw_spec(t).map_values(|c: char| (c as u32) as i16),
                    Form::Word => seq![num_spec(t, labels, variables)],
                    Form::Data => raw_spec(t).map_values(|c: char| 256i16 | ((c as u32) as i16)),
                    Form::Pad => Seq::new(num_spec(t, labels, variables) as nat, |i: int| 0i16),
                    _ => seq![256i16 | num_spec(t, labels, variables)],
                },
            ),
        ),
    }
}

pub open spec fn is_data_form(form: Form) -> bool {
    form == Form::Ascii || form == Form::Word || form == Form::Data || form == Form::Pad || form
        == Form::DataWord
}

/// What `encode_instruction` gives for a line: `Ok(None)` for a line that
/// makes no words (`.start`), the words otherwise, or the error.
pub open spec fn encode_spec(ins: Token, a1: Option<Token>, a2: Option<Token>, line: usize, labels: Seq<Label>, variables: Seq<Variable>) -> Result<Option<Seq<i16>>, ErrorView> {
    match select_spec(ins, a1, a2) {
        Err((m, t)) => Err(plain_error(line, m, t)),
        Ok((op, form)) => if is_data_form(form) {
            data_words(form, a1, line, labels, variables)
        } else {
            operand_words(form, op, ins, a1, a2, line, labels, variables)
        },
    }
}

/// Whether encoding would ask for a padding of negative length, which
/// cannot be allocated.
pub open spec fn negative_pad(ins: Token, a1: Option<Token>, a2: Option<Token>, labels: Seq<Label>, variables: Seq<Variable>) -> bool {
    &&& select_spec(ins, a1, a2) matches Ok((_, Form::Pad))
    &&& a1 matches Some(t) && num_spec(t, labels, variables) < 0
}

pub open spec fn words_view(r: Result<Option<Vec<i16>>, CodegenError>) -> Result<Option<Seq<i16>>, ErrorView> {
    match r {
        Ok(Some(v)) => Ok(Some(v@)),
        Ok(None) => Ok(None),
        Err(e) => Err(error_view(e)),
    }
}

fn error_of(line: usize, message: &str, tip: &str) -> (e: CodegenError)
    ensures
        error_view(e) == plain_error(line, message@, tip@),
{
    (line, None, (string_from(message), string_from(tip)))
}

fn one_word(w: i16) -> (r: Result<Option<Vec<i16>>, CodegenError>)
    ensures
        words_view(r) == Ok::<Option<Seq<i16>>, ErrorView>(Some(seq![w])),
{
    let mut v: Vec<i16> = Vec::new();
    v.push(w);
    assert(v@ =~= seq![w]);
    Ok(Some(v))
}

/// The register number written after a pointer or address token, for the
/// indirect forms.
fn register_of(t: &Token) -> (r: Option<i16>)
    ensures
        r == parse_i16_spec(trimmed(raw_spec(*t))),
{
    let raw = t.get_raw();
    let cs = chars_of(raw.as_str());
    let tr = trim(cs.as_slice());
    assert(tr@.subrange(0, tr@.len() as int) =~= tr@);
    parse_i16(tr.as_slice(), 0, tr.len())
}

fn operand_words_exec(form: Form, op: i16, ins: &Token, a1: Option<&Token>, a2: Option<&Token>, line: usize, symbols: &SymbolTable) -> (r: Result<Option<Vec<i16>>, CodegenError>)
    requires
        !is_data_form(form),
        form == Form::PopMem ==> a1 is Some,
        symbols.wf(),
        arg_fits(a1),
        arg_fits(a2),
        arg_fits(Some(ins)),
    ensures
        words_view(r) == operand_words(form, op, *ins, opt_token(a1), opt_token(a2), line, symbols.labels@, symbols.variables@),
{
    match form {
        Form::OneArg => {
            let a = match argument_to_binary(a1, line, symbols) {
                Ok(a) => a,
                Err(e) => return Err(e),
            };
            one_word((op << 12) | a)
        },
        Form::Jump => {
            let a = match argument_to_binary(a1, line, symbols) {
                Ok(a) => a,
                Err(e) => return Err(e),
            };
            one_word((op << 11) | a)
        },
        Form::Call => {
            let a = match argument_to_binary(a1, line, symbols) {
                Ok(a) => a,
                Err(e) => return Err(e),
            };
            if a > 1023 {
                return Err((line, None, (string_from("label memory address too large on instruction on line"), String::new())));
            }
            one_word((op << 11) | a)
        },
        Form::Default | Form::St => {
            let x = match argument_to_binary(a1, line, symbols) {
                Ok(a) => a,
                Err(e) => return Err(e),
            };
            let y = match argument_to_binary(a2, line, symbols) {
                Ok(a) => a,
                Err(e) => return Err(e),
            };
            if form == Form::St {
                one_word((op << 12) | (x << 3) | y)
            } else {
                one_word((op << 12) | (x << 9) | y)
            }
        },
        Form::Ld => {
            if a1.is_none() || a2.is_none() {
                return Err(error_of(line, "LEA/LD argument is empty", "please provide a register LHS and address RHS"));
            }
            let y = match argument_to_binary(a2, line, symbols) {
                Ok(a) => a,
                Err(e) => return Err(e),
            };
            let x = match argument_to_binary(a1, line, symbols) {
                Ok(a) => a,
                Err(e) => return Err(e),
            };
            one_word((op << 12) | (x << 9) | y)
        },
        Form::PopMem => {
            let t = a1.unwrap();
            let n = t.get_num(symbols);
            one_word((op << 12) | 2048 | n)
        },
        Form::Sti => {
            let t = match a1 {
                Some(t) => t,
                None => return Err(error_of(line, "missing argument for store indirect", "provide a memory address LHS and register indirect RHS")),
            };
            let p = match register_of(t) {
                Some(p) => p,
                None => return Err(error_of(line, "failed to parse integer", "please provide a proper integer")),
            };
            let reg = Token::Register(p);
            let x = match argument_to_binary(Some(&reg), line, symbols) {
                Ok(a) => a,
                Err(e) => return Err(e),
            };
            let y = match argument_to_binary(a2, line, symbols) {
                Ok(a) => a,
                Err(e) => return Err(e),
            };
            one_word((op << 12) | 2048 | (x << 7) | y)
        },
        Form::Jwr => {
            let t = match a1 {
                Some(t) => t,
                None => return Err(error_of(line, "missing argument for indirect branch/jump", "please provide a register indirect argument")),
            };
            let p = match register_of(t) {
                Some(p) => p,
                None => return Err(error_of(line, "failed to parse integer for indirect jump", "please provide a register indirect argument")),
            };
            let reg = Token::Register(p);
            let x = match argument_to_binary(Some(&reg), line, symbols) {
                Ok(a) => a,
                Err(e) => return Err(e),
            };
            one_word((op << 11) | 1024 | x)
        },
        _ => {
            let b = match argument_to_binary(Some(ins), line, symbols) {
                Ok(b) => b,
                Err(e) => return Err(e),
            };
            if b != 1 {
                let a = match argument_to_binary(a1, line, symbols) {
                    Ok(a) => a,
                    Err(e) => return Err(e),
                };
                one_word((op << 12) | (b << 9) | a)
            } else {
                Ok(None)
            }
        },
    }
}

fn data_words_exec(form: Form, a1: Option<&Token>, line: usize, symbols: &SymbolTable) -> (r: Result<Option<Vec<i16>>, CodegenError>)
    requires
        is_data_form(form),
        form == Form::Pad && a1 is Some ==> num_spec(*a1.unwrap(), symbols.labels@, symbols.variables@) >= 0,
    ensures
        words_view(r) == data_words(form, opt_token(a1), line, symbols.labels@, symbols.variables@),
{
    let t = match a1 {
        Some(t) => t,
        None => {
            let e = match form {
                Form::Ascii => error_of(line, "asciiz argument is empty", "please provide an ASCII string argument"),
                Form::Word => error_of(line, "word argument is empty", "please provide a 16-bit argument"),
                Form::Data => error_of(line, ".data argument is empty", "please provide an ASCII string argument"),
                Form::Pad => error_of(line, ".pad argument is empty", "please provide an argument"),
                _ => error_of(line, "dataword argument is empty", "please provide a 16-bit argument"),
            };
            return Err(e);
        },
    };
    match form {
        Form::Ascii | Form::Data => {
            let raw = t.get_raw();
            let cs = chars_of(raw.as_str());
            let mut v: Vec<i16> = Vec::new();
            let mut i: usize = 0;
            while i < cs.len()
                invariant
                    i <= cs@.len(),
                    form == Form::Ascii || form == Form::Data,
                    v@ == cs@.take(i as int).map_values(|c: char|
                        if form == Form::Ascii {
                            (c as u32) as i16
                        } else {
                            256i16 | ((c as u32) as i16)
                        }),
                decreases cs@.len() - i,
            {
                let code = (cs[i] as u32) as i16;
                if form == Form::Ascii {
                    v.push(code);
                } else {
                    v.push(256 | code);
                }
                i = i + 1;
                assert(v@ =~= cs@.take(i as int).map_values(|c: char|
                    if form == Form::Ascii {
                        (c as u32) as i16
                    } else {
                        256i16 | ((c as u32) as i16)
                    }));
            }
            assert(cs@.take(cs@.len() as int) =~= cs@);
            if form == Form::Ascii {
                assert(v@ =~= raw_spec(*t).map_values(|c: char| (c as u32) as i16));
            } else {
                assert(v@ =~= raw_spec(*t).map_values(|c: char| 256i16 | ((c as u32) as i16)));
            }
            Ok(Some(v))
        },
        Form::Word => one_word(t.get_num(symbols)),
        Form::Pad => {
            let n = t.get_num(symbols);
            let mut v: Vec<i16> = Vec::new();
            let mut i: i16 = 0;
            while i < n
                invariant
                    0 <= i <= n,
                    v@ == Seq::new(i as nat, |k: int| 0i16),
                decreases n - i,
            {
                v.push(0);
                i = i + 1;
                assert(v@ =~= Seq::new(i as nat, |k: int| 0i16));
            }
            Ok(Some(v))
        },
        _ => one_word(256 | t.get_num(symbols)),
    }
}

/// Encodes the instruction or directive `ins` with its operands into
/// words (see `encode_spec`): `Ok(None)` for `.start`, the words of the
/// line, or the error with its line.
pub fn encode_instruction(ins: &Token, arg1: Option<&Token>, arg2: Option<&Token>, line_num: usize, symbols: &SymbolTable) -> (r: Result<Option<Vec<i16>>, CodegenError>)
    requires
        symbols.wf(),
        arg_fits(arg1),
        arg_fits(arg2),
        arg_fits(Some(ins)),
        !negative_pad(*ins, opt_token(arg1), opt_token(arg2), symbols.labels@, symbols.variables@),
    ensures
        words_view(r) == encode_spec(*ins, opt_token(arg1), opt_token(arg2), line_num, symbols.labels@, symbols.variables@),
{
    let (op, form) = match select(ins, arg1, arg2) {
        Ok(v) => v,
        Err((m, t)) => return Err((line_num, None, (m, t))),
    };
    if form == Form::Ascii || form == Form::Word || form == Form::Data || form == Form::Pad || form == Form::DataWord {
        data_words_exec(form, arg1, line_num, symbols)
    } else {
        operand_words_exec(form, op, ins, arg1, arg2, line_num, symbols)
    }
}

} // verus!
