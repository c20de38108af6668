//! Properties that span several operations of the machine and the
//! assembler.
use vstd::prelude::*;
use crate::assembler::image_header;
use crate::cpu::{CpuView, IoRequest};
use crate::rom::{RomVersion, bytes_of, lemma_words_bytes_roundtrip, rom_version_spec, words_of};
use crate::isa::{Argument, Instruction, decode_spec};
use crate::numbers::{all_digits, decimal, digit_value, digits_value, nat_decimal, parse_i16_spec, radix_number, unsigned_number};
use crate::codegen::arg_spec;
use crate::encode::{Form, encode_spec, select_spec, select_mnemonic};
use crate::text::{ascii_upper, before_char, first_index, is_white_space, trim_end, trim_start, trimmed, upper, upper_char};
use crate::symbol_table::{has_prefix, label_line, label_total, utf8_len, utf8_width};
use vstd::utf8::is_ascii_chars;
use crate::isa::{bit, field, is_jump_class, jump_target_of, opcode_of, dest_of, source_of, mode_of};
use crate::symbols::{Label, Variable};
use crate::tokens::{ADD_OP, INT_OP, LD_OP, LEA_OP, POP_OP, PUSH_OP, ST_OP, BG_OP, BL_OP, BNO_OP, BNZ_OP, BO_OP, BZ_OP, CMP_OP, DIV_OP, JMP_OP, MOV_OP, NAND_OP, Token};
use crate::semantics::{Outcome, as_word, drop_top, execute_spec, mem_word, operand, push_spec, sat_i16, write_register};

verus! {

/// Popping into a register right after pushing a register gives the
/// pushed value back and returns the stack pointer to where it was: on a
/// stack that grows down and has room, with the program counter two words
/// from the end of memory or further, and a value that fits the register
/// popped into (r0..r3 hold at most 32767).
pub proof fn lemma_push_then_pop(s: CpuView, src: i16, dst: i16)
    requires
        s.wf(),
        0 <= src <= 5,
        0 <= dst <= 5,
        !s.backward_stack,
        0 < s.sp <= s.bp,
        s.pc < 65534,
        dst <= 3 ==> s.int_reg[src as int] <= 32767,
    ensures
        ({
            let (s1, o1) = execute_spec(s, Instruction::PUSH(Argument::Register(src)));
            let (s2, o2) = execute_spec(s1, Instruction::POP(Argument::Register(dst)));
            &&& o1 is Done
            &&& o2 is Done
            &&& s2.int_reg[dst as int] == s.int_reg[src as int]
            &&& s2.sp == s.sp
            &&& s2.pc == s.pc + 2
        }),
{
    reveal(execute_spec);
    reveal(push_spec);
    reveal(drop_top);
    reveal(write_register);
    let v = s.int_reg[src as int];
    let (s1, o1) = execute_spec(s, Instruction::PUSH(Argument::Register(src)));
    assert(operand(s, Argument::Register(src)) == Some(v as int));
    assert(s1.sp == s.sp - 1);
    assert(s1.memory[s1.sp as int] == Some(v));
    assert(mem_word(s1, s1.sp as int) == v);
    assert(s1.int_reg.len() == 6);
}

/// Loading from an address right after storing a register there gives the
/// stored word back: the register's value clamped to a signed 16-bit
/// number, as a word.
pub proof fn lemma_store_then_load(s: CpuView, src: i16, dst: i16, addr: i16)
    requires
        s.wf(),
        0 <= src <= 5,
        0 <= dst <= 5,
        0 <= addr,
        s.pc < 65534,
    ensures
        ({
            let (s1, o1) = execute_spec(s, Instruction::ST(Argument::MemAddr(addr), Argument::Register(src)));
            let (s2, o2) = execute_spec(s1, Instruction::LD(Argument::Register(dst), Argument::MemAddr(addr)));
            &&& o1 is Done
            &&& o2 is Done
            &&& s2.int_reg[dst as int] == as_word(sat_i16(s.int_reg[src as int] as int))
            &&& s2.pc == s.pc + 2
        }),
{
    reveal(execute_spec);
    reveal(write_register);
    let v = s.int_reg[src as int] as int;
    let w = as_word(sat_i16(v));
    let (s1, o1) = execute_spec(s, Instruction::ST(Argument::MemAddr(addr), Argument::Register(src)));
    assert(s1.memory[addr as int] == Some(w as u16));
    assert(mem_word(s1, addr as int) == w);
    assert(0 <= w <= 65535);
}

proof fn lemma_nat_decimal(n: nat)
    ensures
        nat_decimal(n).len() > 0,
        all_digits(nat_decimal(n), 10),
        digits_value(nat_decimal(n), 10) == n,
        nat_decimal(n)[0] != '+' && nat_decimal(n)[0] != '-',
    decreases n,
{
    let s = nat_decimal(n);
    if n < 10 {
        assert(digit_value(s[0], 10) == Some(n as int));
        assert(s.drop_last() =~= Seq::<char>::empty());
        assert(digits_value(s.drop_last(), 10) == 0);
        assert(digits_value(s, 10) == digits_value(s.drop_last(), 10) * 10 + n);
    } else {
        lemma_nat_decimal(n / 10);
        let p = nat_decimal(n / 10);
        assert(s.drop_last() =~= p);
        assert(digit_value(s.last(), 10) == Some((n % 10) as int));
        assert forall|i: int| 0 <= i < s.len() implies (#[trigger] digit_value(s[i], 10)) is Some by {
            if i < p.len() {
                assert(s[i] == p[i]);
            }
        }
        assert(s[0] == p[0]);
        assert(digits_value(s, 10) == digits_value(p, 10) * 10 + (n % 10) as int);
        assert((n / 10) * 10 + n % 10 == n);
    }
}

/// The decimal text of every `i16` reads back as the same number (the
/// assembler writes numbers with `to_string` and reads them with `parse`).
pub proof fn lemma_decimal_parses_back(n: i16)
    ensures
        parse_i16_spec(decimal(n as int)) == Some(n),
{
    if n < 0 {
        let m = (-(n as int)) as nat;
        lemma_nat_decimal(m);
        let s = decimal(n as int);
        assert(s.drop_first() =~= nat_decimal(m));
        assert(radix_number(s, 10, true) == Some(-(m as int)));
    } else {
        lemma_nat_decimal(n as nat);
        assert(unsigned_number(decimal(n as int), 10) == Some(n as int));
    }
}

/// The instruction that a two-operand opcode of the assembler makes of a
/// destination and a source.
pub open spec fn two_operand(op: i16, d: Argument, src: Argument) -> Instruction {
    if op == ADD_OP {
        Instruction::ADD(d, src)
    } else if op == DIV_OP {
        Instruction::DIV(d, src)
    } else if op == CMP_OP {
        Instruction::CMP(d, src)
    } else if op == NAND_OP {
        Instruction::NAND(d, src)
    } else {
        Instruction::MOV(d, src)
    }
}

/// The operand that the emulator reads from an assembled source token: a
/// register, a literal (one from 128 up standing for the negative number
/// the lexer stores that way), a register indirect or a memory indirect.
pub open spec fn decoded_source(t: Token) -> Option<Argument> {
    match t {
        Token::Register(b) => if 0 <= b <= 9 {
            Some(Argument::Register(b))
        } else {
            None
        },
        Token::Literal(l) => if 0 <= l <= 127 {
            Some(Argument::Literal(l))
        } else if 128 <= l <= 255 {
            Some(Argument::Literal((128 - l) as i16))
        } else {
            None
        },
        Token::RegPointer(r) => if 0 <= r <= 9 {
            Some(Argument::RegPtr(r))
        } else {
            None
        },
        Token::MemPointer(m) => if 0 <= m <= 127 {
            Some(Argument::MemPtr(m))
        } else {
            None
        },
        _ => None,
    }
}

proof fn lemma_word_parts(op: i16, a: i16, bits: i16)
    requires
        0 <= op < 16,
        0 <= a < 8,
        0 <= bits < 512,
    ensures
        ({
            let w = ((op << 12) | (a << 9) | bits) as u16;
            &&& (w >> 12) & 0xf == op as u16
            &&& (w >> 9) & 0x7 == a as u16
            &&& (w >> 8) & 1 == ((bits as u16) >> 8) & 1
            &&& (w >> 7) & 1 == ((bits as u16) >> 7) & 1
            &&& (w >> 6) & 1 == ((bits as u16) >> 6) & 1
            &&& w & 0x7f == (bits as u16) & 0x7f
        }),
{
    assert({
        let w = ((op << 12) | (a << 9) | bits) as u16;
        &&& (w >> 12) & 0xf == op as u16
        &&& (w >> 9) & 0x7 == a as u16
        &&& (w >> 8) & 1 == ((bits as u16) >> 8) & 1
        &&& (w >> 7) & 1 == ((bits as u16) >> 7) & 1
        &&& (w >> 6) & 1 == ((bits as u16) >> 6) & 1
        &&& w & 0x7f == (bits as u16) & 0x7f
    }) by (bit_vector)
        requires
            0 <= op < 16,
            0 <= a < 8,
            0 <= bits < 512,
    ;
}

proof fn lemma_source_bits(t: Token, bits: i16)
    requires
        decoded_source(t) is Some,
        bits == match t {
            Token::Register(b) => b,
            Token::Literal(l) => 256i16 | l,
            Token::RegPointer(r) => 64i16 | r,
            Token::MemPointer(m) => 128i16 | m,
            _ => 0i16,
        },
    ensures
        0 <= bits < 512,
        ({
            let u = bits as u16;
            let b8 = (u >> 8) & 1 == 1;
            let b7 = (u >> 7) & 1 == 1;
            let b6 = (u >> 6) & 1 == 1;
            let low = u & 0x7f;
            match t {
                Token::Register(b) => !b8 && !b7 && !b6 && low as i16 & 0xf == b && low as i16 == b,
                Token::Literal(l) => b8 && (b7 <==> l >= 128) && (if l >= 128 {
                    low as int == l - 128
                } else {
                    low as int == l
                }),
                Token::RegPointer(r) => !b8 && !b7 && b6 && low as i16 & 0xf == r,
                Token::MemPointer(m) => !b8 && b7 && low as i16 & 0x7f == m,
                _ => true,
            }
        }),
{
    match t {
        Token::Register(b) => {
            assert(0 <= b < 512 && (b as u16 >> 8) & 1 == 0 && (b as u16 >> 7) & 1 == 0 && (b as u16 >> 6) & 1 == 0 && ((b as u16) & 0x7f) as i16 & 0xf == b && ((b as u16) & 0x7f) as i16 == b) by (bit_vector)
                requires
                    0 <= b <= 9,
            ;
        },
        Token::Literal(l) => {
            assert({
                let u = (256i16 | l) as u16;
                &&& 0 <= (256i16 | l) < 512
                &&& (u >> 8) & 1 == 1
                &&& ((u >> 7) & 1 == 1) == (l >= 128)
                &&& (l >= 128 ==> (u & 0x7f) as i16 == l - 128)
                &&& (l < 128 ==> (u & 0x7f) as i16 == l)
            }) by (bit_vector)
                requires
                    0 <= l <= 255,
            ;
        },
        Token::RegPointer(r) => {
            assert({
                let u = (64i16 | r) as u16;
                &&& 0 <= (64i16 | r) < 512
                &&& (u >> 8) & 1 == 0
                &&& (u >> 7) & 1 == 0
                &&& (u >> 6) & 1 == 1
                &&& (u & 0x7f) as i16 & 0xf == r
            }) by (bit_vector)
                requires
                    0 <= r <= 9,
            ;
        },
        Token::MemPointer(m) => {
            assert({
                let u = (128i16 | m) as u16;
                &&& 0 <= (128i16 | m) < 512
                &&& (u >> 8) & 1 == 0
                &&& (u >> 7) & 1 == 1
                &&& (u & 0x7f) as i16 & 0x7f == m
            }) by (bit_vector)
                requires
                    0 <= m <= 127,
            ;
        },
        _ => {},
    }
}

/// What the assembler writes for a two-operand instruction whose
/// destination is a register the emulator can name in three bits and whose
/// source is a register, a literal, a register indirect or a memory
/// indirect, the emulator decodes as that instruction with those operands.
pub proof fn lemma_assembled_instruction_decodes(ins: Token, a: i16, t: Token, op: i16, line: usize, labels: Seq<Label>, variables: Seq<Variable>)
    requires
        select_spec(ins, Some(Token::Register(a)), Some(t)) == Ok::<(i16, Form), (Seq<char>, Seq<char>)>((op, Form::Default)),
        op == ADD_OP || op == DIV_OP || op == CMP_OP || op == NAND_OP || op == MOV_OP,
        0 <= a <= 7,
        decoded_source(t) is Some,
    ensures
        encode_spec(ins, Some(Token::Register(a)), Some(t), line, labels, variables) matches Ok(Some(ws))
            && ws.len() == 1 && decode_spec(ws[0]) == two_operand(op, Argument::Register(a), decoded_source(t).unwrap()),
{
    reveal(decode_spec);
    let bits: i16 = match t {
        Token::Register(b) => b,
        Token::Literal(l) => 256i16 | l,
        Token::RegPointer(r) => 64i16 | r,
        Token::MemPointer(m) => 128i16 | m,
        _ => 0i16,
    };
    lemma_source_bits(t, bits);
    let word = (op << 12) | (a << 9) | bits;
    lemma_word_parts(op, a, bits);
    let w = word as u16;
    assert(opcode_of(w) == op as u16);
    assert(dest_of(w) == a);
    assert(!is_jump_class(opcode_of(w)));
    assert(encode_spec(ins, Some(Token::Register(a)), Some(t), line, labels, variables) == Ok::<Option<Seq<i16>>, crate::codegen::ErrorView>(Some(seq![word])));
}

/// The instruction that a one-operand opcode of the assembler makes of its
/// operand.
pub open spec fn one_operand(op: i16, a: Argument) -> Instruction {
    if op == PUSH_OP {
        Instruction::PUSH(a)
    } else if op == INT_OP {
        Instruction::INT(a)
    } else {
        Instruction::POP(a)
    }
}

/// What the assembler writes for `PUSH` of a register, a literal, a
/// register indirect or a memory indirect, for `INT` of a literal, and for
/// `POP` into a register, the emulator decodes as that instruction with
/// that operand.
pub proof fn lemma_assembled_one_operand_decodes(ins: Token, t: Token, a2: Option<Token>, op: i16, line: usize, labels: Seq<Label>, variables: Seq<Variable>)
    requires
        select_spec(ins, Some(t), a2) == Ok::<(i16, Form), (Seq<char>, Seq<char>)>((op, Form::OneArg)),
        op == PUSH_OP ==> decoded_source(t) is Some,
        op == INT_OP ==> t is Literal && decoded_source(t) is Some,
        op == POP_OP ==> t is Register && decoded_source(t) is Some,
        op == PUSH_OP || op == INT_OP || op == POP_OP,
    ensures
        encode_spec(ins, Some(t), a2, line, labels, variables) matches Ok(Some(ws)) && ws.len() == 1
            && decode_spec(ws[0]) == one_operand(op, decoded_source(t).unwrap()),
{
    reveal(decode_spec);
    let bits: i16 = match t {
        Token::Register(b) => b,
        Token::Literal(l) => 256i16 | l,
        Token::RegPointer(r) => 64i16 | r,
        Token::MemPointer(m) => 128i16 | m,
        _ => 0i16,
    };
    lemma_source_bits(t, bits);
    let word = (op << 12) | bits;
    assert((op << 12) | bits == (op << 12) | (0i16 << 9) | bits) by (bit_vector);
    assert((((op << 12) | bits) as u16 >> 11) & 1 != 1) by (bit_vector)
        requires
            0 <= op < 16,
            0 <= bits < 512,
    ;
    lemma_word_parts(op, 0, bits);
    let w = word as u16;
    assert(opcode_of(w) == op as u16);
    assert(!is_jump_class(opcode_of(w)));
    assert(!bit(w, 11));
    assert(encode_spec(ins, Some(t), a2, line, labels, variables) == Ok::<Option<Seq<i16>>, crate::codegen::ErrorView>(Some(seq![word])));
}

/// What the assembler writes for `LD` or `LEA` of a register the emulator
/// can name in three bits from a memory address below 512, and for `ST` of
/// such a register to a memory address below 256, the emulator decodes as
/// that instruction with those operands.
pub proof fn lemma_assembled_load_store_decodes(ins: Token, a: i16, n: i16, op: i16, form: Form, line: usize, labels: Seq<Label>, variables: Seq<Variable>)
    requires
        0 <= a <= 7,
        op == LD_OP || op == LEA_OP ==> form == Form::Ld && 0 <= n < 512
            && select_spec(ins, Some(Token::Register(a)), Some(Token::MemAddr(n)))
                == Ok::<(i16, Form), (Seq<char>, Seq<char>)>((op, form)),
        op == ST_OP ==> form == Form::St && 0 <= n < 256
            && select_spec(ins, Some(Token::MemAddr(n)), Some(Token::Register(a)))
                == Ok::<(i16, Form), (Seq<char>, Seq<char>)>((op, form)),
        op == LD_OP || op == LEA_OP || op == ST_OP,
    ensures
        op == LD_OP ==> (encode_spec(ins, Some(Token::Register(a)), Some(Token::MemAddr(n)), line, labels, variables)
            matches Ok(Some(ws)) && ws.len() == 1
            && decode_spec(ws[0]) == Instruction::LD(Argument::Register(a), Argument::MemAddr(n))),
        op == LEA_OP ==> (encode_spec(ins, Some(Token::Register(a)), Some(Token::MemAddr(n)), line, labels, variables)
            matches Ok(Some(ws)) && ws.len() == 1
            && decode_spec(ws[0]) == Instruction::LEA(Argument::Register(a), Argument::MemAddr(n))),
        op == ST_OP ==> (encode_spec(ins, Some(Token::MemAddr(n)), Some(Token::Register(a)), line, labels, variables)
            matches Ok(Some(ws)) && ws.len() == 1
            && decode_spec(ws[0]) == Instruction::ST(Argument::MemAddr(n), Argument::Register(a))),
{
    reveal(decode_spec);
    if op == ST_OP {
        let word = (op << 12) | (n << 3) | a;
        assert({
            let w = ((op << 12) | (n << 3) | a) as u16;
            &&& (w >> 12) & 0xf == op as u16
            &&& (w >> 11) & 1 != 1
            &&& (w >> 3) & 0x1ff == n as u16
            &&& (w & 0x7) as i16 == a
        }) by (bit_vector)
            requires
                0 <= op < 16,
                0 <= n < 256,
                0 <= a <= 7,
        ;
        let w = word as u16;
        assert(opcode_of(w) == op as u16);
        assert(field(w, 3, 0x1ff) == n as u16);
        assert(encode_spec(ins, Some(Token::MemAddr(n)), Some(Token::Register(a)), line, labels, variables)
            == Ok::<Option<Seq<i16>>, crate::codegen::ErrorView>(Some(seq![word])));
    } else {
        let word = (op << 12) | (a << 9) | n;
        lemma_word_parts(op, a, n);
        assert({
            let w = ((op << 12) | (a << 9) | n) as u16;
            w & 0x1ff == n as u16
        }) by (bit_vector)
            requires
                0 <= op < 16,
                0 <= a < 8,
                0 <= n < 512,
        ;
        let w = word as u16;
        assert(opcode_of(w) == op as u16);
        assert(dest_of(w) == a);
        assert(encode_spec(ins, Some(Token::Register(a)), Some(Token::MemAddr(n)), line, labels, variables)
            == Ok::<Option<Seq<i16>>, crate::codegen::ErrorView>(Some(seq![word])));
    }
}

/// Mnemonics are matched without regard to case: two instruction names with
/// the same uppercase form, such as `add`, `Add` and `ADD`, encode with the
/// same operands to the same words, and one fails exactly when the other
/// does.
pub proof fn lemma_mnemonic_case(n1: Token, n2: Token, a1: Option<Token>, a2: Option<Token>, line: usize, labels: Seq<Label>, variables: Seq<Variable>)
    requires
        n1 is Ident,
        n2 is Ident,
        upper(n1->Ident_0@) == upper(n2->Ident_0@),
    ensures
        encode_spec(n1, a1, a2, line, labels, variables) is Ok <==> encode_spec(n2, a1, a2, line, labels, variables) is Ok,
        encode_spec(n1, a1, a2, line, labels, variables) is Ok ==> encode_spec(n1, a1, a2, line, labels, variables)
            == encode_spec(n2, a1, a2, line, labels, variables),
{
    let u = upper(n1->Ident_0@);
    let s1 = select_mnemonic(n1->Ident_0@, u, a1, a2);
    let s2 = select_mnemonic(n2->Ident_0@, u, a1, a2);
    assert(s1 is Ok <==> s2 is Ok);
    assert(s1 is Ok ==> s1 == s2);
}

/// An ASCII name and its uppercase form are the same mnemonic: both have
/// the same uppercase form, so they encode alike (see `lemma_mnemonic_case`).
pub proof fn lemma_ascii_uppercase_mnemonic(n1: Token, n2: Token, a1: Option<Token>, a2: Option<Token>, line: usize, labels: Seq<Label>, variables: Seq<Variable>)
    requires
        n1 is Ident,
        n2 is Ident,
        is_ascii_chars(n1->Ident_0@),
        n2->Ident_0@ == upper(n1->Ident_0@),
    ensures
        encode_spec(n1, a1, a2, line, labels, variables) is Ok <==> encode_spec(n2, a1, a2, line, labels, variables) is Ok,
        encode_spec(n1, a1, a2, line, labels, variables) is Ok ==> encode_spec(n1, a1, a2, line, labels, variables)
            == encode_spec(n2, a1, a2, line, labels, variables),
{
    let s = n1->Ident_0@;
    let t = ascii_upper(s);
    assert forall|i: int| 0 <= i < t.len() implies '\0' <= #[trigger] t[i] <= '\u{7f}' by {
        assert(t[i] == upper_char(s[i]));
    }
    assert(ascii_upper(t) =~= t);
    lemma_mnemonic_case(n1, n2, a1, a2, line, labels, variables);
}

/// A text of capital letters A to Z is ASCII and its own uppercase form.
proof fn lemma_capitals(u: Seq<char>)
    requires
        forall|i: int| 0 <= i < u.len() ==> 'A' <= #[trigger] u[i] <= 'Z',
    ensures
        is_ascii_chars(u),
        upper(u) == u,
{
    assert(ascii_upper(u) =~= u);
}

/// A name that selects an instruction has an uppercase form that is its
/// own uppercase form.
proof fn lemma_selected_upper(name: Seq<char>, u: Seq<char>, a1: Option<Token>, a2: Option<Token>)
    requires
        select_mnemonic(name, u, a1, a2) is Ok,
    ensures
        upper(u) == u,
{
    if u == "HLT"@ {
        reveal_strlit("HLT");
        lemma_capitals(u);
    } else if u == "ADD"@ {
        reveal_strlit("ADD");
        lemma_capitals(u);
    } else if u == "POP"@ {
        reveal_strlit("POP");
        lemma_capitals(u);
    } else if u == "DIV"@ {
        reveal_strlit("DIV");
        lemma_capitals(u);
    } else if u == "RET"@ {
        reveal_strlit("RET");
        lemma_capitals(u);
    } else if u == "ET"@ {
        reveal_strlit("ET");
        lemma_capitals(u);
    } else if u == "LD"@ {
        reveal_strlit("LD");
        lemma_capitals(u);
    } else if u == "ST"@ {
        reveal_strlit("ST");
        lemma_capitals(u);
    } else if u == "CMP"@ {
        reveal_strlit("CMP");
        lemma_capitals(u);
    } else if u == "NAND"@ {
        reveal_strlit("NAND");
        lemma_capitals(u);
    } else if u == "PUSH"@ {
        reveal_strlit("PUSH");
        lemma_capitals(u);
    } else if u == "INT"@ {
        reveal_strlit("INT");
        lemma_capitals(u);
    } else if u == "LEA"@ {
        reveal_strlit("LEA");
        lemma_capitals(u);
    } else if u == "MOV"@ {
        reveal_strlit("MOV");
        lemma_capitals(u);
    } else if u == "BO"@ {
        reveal_strlit("BO");
        lemma_capitals(u);
    } else if u == "BNO"@ {
        reveal_strlit("BNO");
        lemma_capitals(u);
    } else if u == "JMP"@ {
        reveal_strlit("JMP");
        lemma_capitals(u);
    } else if u == "J"@ {
        reveal_strlit("J");
        lemma_capitals(u);
    } else if u == "BZ"@ {
        reveal_strlit("BZ");
        lemma_capitals(u);
    } else if u == "BE"@ {
        reveal_strlit("BE");
        lemma_capitals(u);
    } else if u == "BEQ"@ {
        reveal_strlit("BEQ");
        lemma_capitals(u);
    } else if u == "BNZ"@ {
        reveal_strlit("BNZ");
        lemma_capitals(u);
    } else if u == "BNE"@ {
        reveal_strlit("BNE");
        lemma_capitals(u);
    } else if u == "BL"@ {
        reveal_strlit("BL");
        lemma_capitals(u);
    } else if u == "BG"@ {
        reveal_strlit("BG");
        lemma_capitals(u);
    }
}

/// A name that encodes and its uppercase form encode to the same words,
/// whatever script the name is written in.
pub proof fn lemma_uppercase_mnemonic(n1: Token, n2: Token, a1: Option<Token>, a2: Option<Token>, line: usize, labels: Seq<Label>, variables: Seq<Variable>)
    requires
        n1 is Ident,
        n2 is Ident,
        n2->Ident_0@ == upper(n1->Ident_0@),
        encode_spec(n1, a1, a2, line, labels, variables) is Ok,
    ensures
        encode_spec(n1, a1, a2, line, labels, variables) == encode_spec(n2, a1, a2, line, labels, variables),
{
    let u = upper(n1->Ident_0@);
    if select_mnemonic(n1->Ident_0@, u, a1, a2) is Ok {
        lemma_selected_upper(n1->Ident_0@, u, a1, a2);
    }
    lemma_mnemonic_case(n1, n2, a1, a2, line, labels, variables);
}

/// The jump or branch that a jump opcode of the assembler stands for.
pub open spec fn jump_instruction(op: i16, target: Argument) -> Instruction {
    if op == JMP_OP {
        Instruction::JMP(target)
    } else if op == BZ_OP {
        Instruction::BZ(target)
    } else if op == BNZ_OP {
        Instruction::BNZ(target)
    } else if op == BO_OP {
        Instruction::BO(target)
    } else if op == BNO_OP {
        Instruction::BNO(target)
    } else if op == BL_OP {
        Instruction::BL(target)
    } else {
        Instruction::BG(target)
    }
}

pub open spec fn is_jump_opcode(op: i16) -> bool {
    op == JMP_OP || op == BZ_OP || op == BNZ_OP || op == BO_OP || op == BNO_OP || op == BL_OP || op == BG_OP
}

proof fn lemma_jump_word(op: i16, n: i16)
    requires
        is_jump_opcode(op),
        0 <= n < 1024,
    ensures
        ({
            let w = ((op << 11) | n) as u16;
            &&& opcode_of(w) == (op >> 1) as u16
            &&& bit(w, 11) == (op & 1 == 1)
            &&& !bit(w, 10)
            &&& w & 0x3ff == n as u16
            &&& (w & 0xfff == 0) == (op & 1 == 0 && n == 0)
            &&& op >> 1 == op / 2
            &&& op & 1 == op % 2
        }),
{
    assert(op >> 1 == op / 2 && op & 1 == op % 2) by (bit_vector)
        requires
            0 <= op < 32,
    ;
    assert({
        let w = ((op << 11) | n) as u16;
        &&& (w >> 12) & 0xf == (op >> 1) as u16
        &&& ((w >> 11) & 1 == 1) == (op & 1 == 1)
        &&& (w >> 10) & 1 != 1
        &&& w & 0x3ff == n as u16
        &&& (w & 0xfff == 0) == (op & 1 == 0 && n == 0)
    }) by (bit_vector)
        requires
            0 <= op < 32,
            0 <= n < 1024,
    ;
}

/// What the assembler writes for a jump or branch to an address below
/// 1024 (a memory address, a label or a call), the emulator decodes as that
/// jump or branch to that address. The one exception is `BL` to address 0,
/// whose word is the word of `RET`.
pub proof fn lemma_assembled_jump_decodes(ins: Token, a1: Option<Token>, a2: Option<Token>, op: i16, form: Form, n: i16, line: usize, labels: Seq<Label>, variables: Seq<Variable>)
    requires
        select_spec(ins, a1, a2) == Ok::<(i16, Form), (Seq<char>, Seq<char>)>((op, form)),
        is_jump_opcode(op),
        form == Form::Jump || form == Form::Call,
        arg_spec(a1, line, labels, variables) == Ok::<i16, crate::codegen::ErrorView>(n),
        0 <= n < 1024,
        op == BL_OP ==> n != 0,
    ensures
        encode_spec(ins, a1, a2, line, labels, variables) matches Ok(Some(ws)) && ws.len() == 1
            && decode_spec(ws[0]) == jump_instruction(op, Argument::MemAddr(n)),
{
    reveal(decode_spec);
    let word = (op << 11) | n;
    lemma_jump_word(op, n);
    let w = word as u16;
    assert(is_jump_class(opcode_of(w)));
    assert(mode_of(w) != 4);
    assert(source_of(w) == n);
    assert(jump_target_of(w) == Argument::MemAddr(n));
    assert(encode_spec(ins, a1, a2, line, labels, variables) == Ok::<Option<Seq<i16>>, crate::codegen::ErrorView>(Some(seq![word])));
}

/// The image the assembler writes for a start address the machine can
/// hold reads back, word by word, as the version word, the start word
/// (the start address with bit 9 set) and the program's words; the
/// emulator takes its version for the current one.
pub proof fn lemma_image_reads_back(start: i32, words: Seq<i16>)
    requires
        0 <= start <= 511,
    ensures
        words_of(image_header(start) + bytes_of(words)) == seq![0x0102i16, (0x200i32 | start) as i16] + words,
        rom_version_spec(words_of(image_header(start) + bytes_of(words))) == RomVersion::Current,
{
    let s = 0x200i32 | start;
    assert(512 <= s < 1024 && (((s & 0xff00) >> 8) as u8) as int * 256 + ((s & 0xff) as u8) as int == s) by (bit_vector)
        requires
            0 <= start <= 511,
            s == 0x200i32 | start,
    ;
    let h = image_header(start);
    let b = bytes_of(words);
    let all = h + b;
    lemma_words_bytes_roundtrip(words);
    let expected = seq![0x0102i16, s as i16] + words;
    assert(words_of(all).len() == expected.len());
    assert forall|i: int| 0 <= i < expected.len() implies #[trigger] words_of(all)[i] == expected[i] by {
        if i >= 2 {
            assert(all[2 * i] == b[2 * (i - 2)]);
            assert(all[2 * i + 1] == b[2 * (i - 2) + 1]);
            assert(words_of(b)[i - 2] == words[i - 2]);
        }
    }
    assert(words_of(all) =~= expected);
}

/// The 16-bit value of a register or non-negative literal source, as the
/// laws below read it.
pub open spec fn source_word(s: CpuView, src: Argument) -> u16 {
    match src {
        Argument::Register(m) => s.int_reg[m as int],
        Argument::Literal(l) => l as u16,
        _ => 0,
    }
}

/// Whether `src` is a register r0..r5 or a non-negative literal.
pub open spec fn plain_source(src: Argument) -> bool {
    ||| src matches Argument::Register(m) && 0 <= m <= 5
    ||| src matches Argument::Literal(l) && l >= 0
}

/// `NAND rN, src` into r4 or r5 stores the bitwise complement of the
/// register AND the source, as a 16-bit word, and moves to the next
/// instruction; nothing else changes. In particular `NAND rN, rN` stores
/// the complement of rN.
pub proof fn lemma_nand_stores_complement_of_and(s: CpuView, n: i16, src: Argument)
    requires
        s.wf(),
        4 <= n <= 5,
        plain_source(src),
        s.pc < 65535,
    ensures
        ({
            let (s2, o) = execute_spec(s, Instruction::NAND(Argument::Register(n), src));
            &&& o == Outcome::Done
            &&& s2 == (CpuView {
                int_reg: s.int_reg.update(n as int, !(s.int_reg[n as int] & source_word(s, src))),
                pc: (s.pc + 1) as u16,
                ..s
            })
            &&& src == Argument::Register(n) ==> s2.int_reg[n as int] == !s.int_reg[n as int]
        }),
{
    reveal(execute_spec);
    reveal(write_register);
    let r = s.int_reg[n as int];
    let w = source_word(s, src);
    match src {
        Argument::Literal(l) => {
            assert(crate::semantics::sat_u16(l as int) == l as u16);
        },
        _ => {},
    }
    let x = !(r & w);
    assert(0 <= x <= 65535);
    assert(!(r & r) == !r) by (bit_vector);
}

/// `CMP rA, src` sets the zero flag exactly when the register equals the
/// source and the sign flag exactly when it is strictly smaller, and moves
/// to the next instruction. A `BL` right after it (without return
/// addresses being pushed) jumps exactly when the register was strictly
/// smaller: comparing equal values does not branch.
pub proof fn lemma_compare_then_branch(s: CpuView, a: i16, src: Argument, target: i16)
    requires
        s.wf(),
        0 <= a <= 5,
        src matches Argument::Register(m) && 0 <= m <= 5 || src is Literal,
        s.pc < 65534,
        !s.pushret,
        target >= 0,
    ensures
        ({
            let x = s.int_reg[a as int] as int;
            let y = match src {
                Argument::Register(m) => s.int_reg[m as int] as int,
                Argument::Literal(l) => l as int,
                _ => 0,
            };
            let (s2, o2) = execute_spec(s, Instruction::CMP(Argument::Register(a), src));
            let (s3, o3) = execute_spec(s2, Instruction::BL(Argument::MemAddr(target)));
            &&& o2 == Outcome::Done
            &&& s2 == (CpuView { zflag: x == y, sflag: x < y, pc: (s.pc + 1) as u16, ..s })
            &&& o3 == Outcome::Done
            &&& s3.pc == if x < y { target as u16 } else { (s.pc + 2) as u16 }
        }),
{
    reveal(execute_spec);
}

/// `INT 8` asks the outside to print the memory text from the address in
/// r0 (inclusive) to the address in r1 (exclusive), and moves to the next
/// instruction; nothing else changes.
pub proof fn lemma_print_text_interrupt(s: CpuView)
    requires
        s.wf(),
        !s.fuzz,
        s.pc < 65535,
    ensures
        execute_spec(s, Instruction::INT(Argument::Literal(8))) == (
            CpuView { pc: (s.pc + 1) as u16, ..s },
            Outcome::Io(IoRequest::PrintText(s.int_reg[0], s.int_reg[1])),
        ),
{
    reveal(execute_spec);
}

/// Popping into a memory address right after pushing a non-negative
/// literal stores the literal there and returns the stack pointer to where
/// it was: on a stack that grows down and has room, with the program
/// counter two words from the end of memory or further, and an address
/// other than the cell the push used (that cell is emptied by the pop).
pub proof fn lemma_push_then_pop_to_memory(s: CpuView, v: i16, addr: i16)
    requires
        s.wf(),
        v >= 0,
        addr >= 0,
        !s.backward_stack,
        0 < s.sp <= s.bp,
        s.pc < 65534,
        addr != s.sp - 1,
    ensures
        ({
            let (s1, o1) = execute_spec(s, Instruction::PUSH(Argument::Literal(v)));
            let (s2, o2) = execute_spec(s1, Instruction::POP(Argument::MemAddr(addr)));
            &&& o1 == Outcome::Done
            &&& o2 == Outcome::Done
            &&& s2.memory[addr as int] == Some(v as u16)
            &&& s2.memory[s.sp - 1] is None
            &&& s2.sp == s.sp
            &&& s2.pc == s.pc + 2
        }),
{
    reveal(execute_spec);
    reveal(push_spec);
    reveal(drop_top);
    let (s1, o1) = execute_spec(s, Instruction::PUSH(Argument::Literal(v)));
    assert(crate::semantics::sat_u16(v as int) == v as u16);
    assert(s1.sp == s.sp - 1);
    assert(s1.memory[s1.sp as int] == Some(v as u16));
    assert(mem_word(s1, s1.sp as int) == v);
}

/// The source line `.asciiz "text"`.
pub open spec fn asciiz_line(text: Seq<char>) -> Seq<char> {
    ".asciiz \""@ + text + "\""@
}

proof fn lemma_first_occurrence(s: Seq<char>, c: char, i: int)
    requires
        0 <= i < s.len(),
        s[i] == c,
    ensures
        exists|k: int| 0 <= k <= i && s[k] == c && forall|j: int| 0 <= j < k ==> s[j] != c,
    decreases i,
{
    if exists|j: int| 0 <= j < i && s[j] == c {
        let j = choose|j: int| 0 <= j < i && s[j] == c;
        lemma_first_occurrence(s, c, j);
    } else {
        assert(forall|j: int| 0 <= j < i ==> s[j] != c);
    }
}

proof fn lemma_first_index_props(s: Seq<char>, c: char)
    ensures
        first_index(s, c) matches Some(k) ==> 0 <= k < s.len() && s[k] == c && forall|j: int| 0 <= j < k ==> s[j] != c,
        first_index(s, c) is None ==> forall|j: int| 0 <= j < s.len() ==> s[j] != c,
{
    if exists|i: int| 0 <= i < s.len() && s[i] == c {
        let i = choose|i: int| 0 <= i < s.len() && s[i] == c;
        lemma_first_occurrence(s, c, i);
    }
}


proof fn lemma_first_index_at(s: Seq<char>, c: char, i: int)
    requires
        0 <= i < s.len(),
        s[i] == c,
        forall|j: int| 0 <= j < i ==> s[j] != c,
    ensures
        first_index(s, c) == Some(i),
{
    lemma_first_index_props(s, c);
    let k = first_index(s, c).unwrap();
    if k < i {
        assert(s[k] != c);
    }
    if i < k {
        assert(s[i] != c);
    }
}

proof fn lemma_trim_end_keeps(s: Seq<char>, i: int)
    requires
        0 <= i < s.len(),
        !is_white_space(s[i]),
    ensures
        i < trim_end(s).len() <= s.len(),
        trim_end(s) == s.take(trim_end(s).len() as int),
    decreases s.len(),
{
    if is_white_space(s.last()) {
        lemma_trim_end_keeps(s.drop_last(), i);
        let t = trim_end(s.drop_last());
        assert(t =~= s.take(t.len() as int));
    } else {
        assert(s =~= s.take(s.len() as int));
    }
}

proof fn lemma_ascii_utf8_len(t: Seq<char>)
    requires
        is_ascii_chars(t),
    ensures
        utf8_len(t) == t.len(),
    decreases t.len(),
{
    if t.len() > 0 {
        assert(is_ascii_chars(t.drop_last())) by {
            assert forall|i: int| 0 <= i < t.drop_last().len() implies '\0' <= #[trigger] t.drop_last()[i] <= '\u{7f}' by {
                assert(t.drop_last()[i] == t[i]);
            }
        }
        lemma_ascii_utf8_len(t.drop_last());
        assert('\0' <= t[t.len() - 1] <= '\u{7f}');
    }
}

proof fn lemma_asciiz_line_start(text: Seq<char>)
    ensures
        ({
            let t = asciiz_line(text);
            &&& t.len() == text.len() + 10
            &&& trimmed(t) == t
            &&& t[0] == '.'
            &&& !has_prefix(t, ".start"@)
            &&& forall|i: int| 0 <= i < 9 ==> t[i] == ".asciiz \""@[i]
        }),
{
    reveal_strlit(".asciiz \"");
    reveal_strlit("\"");
    reveal_strlit(".start");
    let p = ".asciiz \""@;
    let t = asciiz_line(text);
    assert(p.len() == 9);
    assert forall|i: int| 0 <= i < 9 implies t[i] == p[i] by {}
    assert(t[0] == '.' && t[1] == 'a');
    assert(t[t.len() - 1] == '"');
    assert(trim_start(t) == t);
    assert(trim_end(t) == t);
    if has_prefix(t, ".start"@) {
        assert(t.take(6)[1] == ".start"@[1]);
    }
}

proof fn lemma_asciiz_code(text: Seq<char>)
    ensures
        ({
            let code = before_char(asciiz_line(text), ';');
            &&& has_prefix(code, ".asciiz"@)
            &&& trimmed(code).contains(' ')
        }),
{
    reveal_strlit(".asciiz \"");
    reveal_strlit(".asciiz");
    lemma_asciiz_line_start(text);
    let t = asciiz_line(text);
    let code = before_char(t, ';');
    assert(t[7] == ' ' && t[8] == '"');
    assert(forall|i: int| 0 <= i < 9 ==> t[i] != ';');
    lemma_first_index_props(t, ';');
    assert(code.len() >= 9 && forall|i: int| 0 <= i < 9 ==> code[i] == t[i]) by {
        match first_index(t, ';') {
            Some(j) => {
                assert(t[j] == ';');
                assert(j >= 9);
            },
            None => {},
        }
    }
    assert(code.take(7) =~= ".asciiz"@);
    assert(code[0] == '.');
    assert(trim_start(code) == code);
    lemma_trim_end_keeps(code, 8);
    let tc = trimmed(code);
    assert(tc[7] == ' ');
}

proof fn lemma_asciiz_text_len(text: Seq<char>)
    requires
        !text.contains('"'),
    ensures
        crate::symbol_table::asciiz_len(asciiz_line(text)) == utf8_len(text),
{
    reveal_strlit(".asciiz \"");
    reveal_strlit("\"");
    lemma_asciiz_line_start(text);
    let t = asciiz_line(text);
    let q = "\""@;
    assert(t[8] == '"');
    assert(forall|i: int| 0 <= i < 8 ==> t[i] != '"');
    lemma_first_index_at(t, '"', 8);
    let rest = t.subrange(9, t.len() as int);
    assert(rest =~= text + q);
    assert(rest[text.len() as int] == '"');
    assert forall|j: int| 0 <= j < text.len() implies rest[j] != '"' by {
        assert(rest[j] == text[j]);
        if text[j] == '"' {
            assert(text.contains('"'));
        }
    }
    lemma_first_index_at(rest, '"', text.len() as int);
    assert(t.subrange(9, 9 + text.len() as int) =~= text);
}

proof fn lemma_asciiz_label_line(text: Seq<char>)
    requires
        !text.contains('"'),
    ensures
        label_line(asciiz_line(text)) == Ok::<(nat, Option<Seq<char>>), ()>((utf8_len(text), None)),
{
    lemma_asciiz_line_start(text);
    lemma_asciiz_code(text);
    lemma_asciiz_text_len(text);
    let t = asciiz_line(text);
    let code = before_char(t, ';');
    let tc = trimmed(code);
    assert(trimmed(t) == t);
    assert(t.len() != 0 && t[0] != ';');
    assert(!(tc.len() > 0 && tc.last() == ':' && !tc.contains(' ')));
    reveal(label_line);
}

/// An `.asciiz` line advances the label counter by exactly the UTF-8 byte
/// length of the text between its quotes (quotes excluded): the label after
/// `.asciiz "hi"` lies 2 past the label before it. For ASCII text this is
/// the number of words the encoder emits for the line.
pub proof fn lemma_asciiz_advances_by_its_bytes(text: Seq<char>, lines: Seq<Seq<char>>, k: int, start: int, d: Token, a: Token, line: usize, labels: Seq<Label>, variables: Seq<Variable>)
    requires
        !text.contains('"'),
        0 <= k < lines.len(),
        lines[k] == asciiz_line(text),
        d matches Token::Directive(x) && x@ == "asciiz"@,
        a matches Token::Asciiz(y) && y@ == text,
    ensures
        label_line(asciiz_line(text)) == Ok::<(nat, Option<Seq<char>>), ()>((utf8_len(text), None)),
        label_total(lines, k + 1, start) == label_total(lines, k, start) + utf8_len(text),
        is_ascii_chars(text) ==> (encode_spec(d, Some(a), None, line, labels, variables) matches Ok(Some(ws))
            && ws.len() == utf8_len(text)),
{
    lemma_asciiz_label_line(text);
    assert(label_total(lines, k + 1, start) == label_total(lines, k, start) + utf8_len(text));
    if is_ascii_chars(text) {
        lemma_ascii_utf8_len(text);
        reveal_strlit("asciiz");
        assert(crate::encode::directive_form(d->Directive_0@) == Form::Ascii);
    }
}

/// A breakpoint that was just added is found at its address; after the
/// breakpoints at an address are removed, none is found there, and the
/// others stay.
pub proof fn lemma_breakpoint_set_then_remove(bs: Seq<u16>, n: u16, m: u16)
    ensures
        bs.push(n).contains(n),
        !bs.filter(|x: u16| x != n).contains(n),
        m != n ==> (bs.filter(|x: u16| x != n).contains(m) <==> bs.contains(m)),
{
    assert(bs.push(n)[bs.len() as int] == n);
    let pred = |x: u16| x != n;
    let f = bs.filter(pred);
    if f.contains(n) {
        let i = choose|i: int| 0 <= i < f.len() && f[i] == n;
        bs.lemma_filter_pred(pred, i);
    }
    if m != n {
        if bs.contains(m) {
            let i = choose|i: int| 0 <= i < bs.len() && bs[i] == m;
            bs.lemma_filter_contains(pred, i);
        }
        if f.contains(m) {
            bs.lemma_filter_contains_rev(pred, m);
        }
    }
}

} // verus!
