//! The tokens of the BELLE assembly language.
use vstd::prelude::*;
use crate::numbers::{decimal, i16_to_string};
use crate::symbols::{SymbolTable, Label, Variable, label_of, variable_of};
use crate::text::{chars_of, string_from};

verus! {

// Opcodes as the assembler writes them: four bits at bit 12 for most
// instructions, five bits at bit 11 for jumps and branches.
pub const HLT_OP: i16 = 0b0000;

pub const ADD_OP: i16 = 0b0001;

pub const BO_OP: i16 = 0b00100;

pub const BNO_OP: i16 = 0b00101;

pub const POP_OP: i16 = 0b0011;

pub const DIV_OP: i16 = 0b0100;

pub const RET_OP: i16 = 0b0101;

pub const BL_OP: i16 = 0b01010;

pub const BG_OP: i16 = 0b01011;

pub const LD_OP: i16 = 0b0110;

pub const ST_OP: i16 = 0b0111;

pub const JMP_OP: i16 = 0b10000;

pub const BZ_OP: i16 = 0b10010;

pub const BNZ_OP: i16 = 0b10011;

pub const CMP_OP: i16 = 0b1010;

pub const NAND_OP: i16 = 0b1011;

pub const PUSH_OP: i16 = 0b1100;

pub const INT_OP: i16 = 0b1101;

pub const MOV_OP: i16 = 0b1110;

pub const LEA_OP: i16 = 0b1111;

/// A token of a source line.
#[derive(Debug)]
pub enum Token {
    Ident(String),
    Register(i16),
    Comma,
    Literal(i16),
    NewLine,
    Eol,
    SRCall(String),
    MemAddr(i16),
    Directive(String),
    RegPointer(i16),
    MemPointer(i16),
    EqualSign,
    Asciiz(String),
}

/// Whether two tokens are the same token: the same kind with the same text
/// or number.
pub open spec fn same_token(a: Token, b: Token) -> bool {
    match (a, b) {
        (Token::Ident(x), Token::Ident(y)) => x@ == y@,
        (Token::Register(x), Token::Register(y)) => x == y,
        (Token::Comma, Token::Comma) => true,
        (Token::Literal(x), Token::Literal(y)) => x == y,
        (Token::NewLine, Token::NewLine) => true,
        (Token::Eol, Token::Eol) => true,
        (Token::SRCall(x), Token::SRCall(y)) => x@ == y@,
        (Token::MemAddr(x), Token::MemAddr(y)) => x == y,
        (Token::Directive(x), Token::Directive(y)) => x@ == y@,
        (Token::RegPointer(x), Token::RegPointer(y)) => x == y,
        (Token::MemPointer(x), Token::MemPointer(y)) => x == y,
        (Token::EqualSign, Token::EqualSign) => true,
        (Token::Asciiz(x), Token::Asciiz(y)) => x@ == y@,
        _ => false,
    }
}

impl PartialEq for Token {
    fn eq(&self, other: &Self) -> (r: bool) {
        match self {
            Token::Ident(s1) => match other {
                Token::Ident(s2) => s1.eq(s2),
                _ => false,
            },
            Token::Register(r1) => match other {
                Token::Register(r2) => *r1 == *r2,
                _ => false,
            },
            Token::Comma => matches!(other, Token::Comma),
            Token::Literal(l1) => match other {
                Token::Literal(l2) => *l1 == *l2,
                _ => false,
            },
            Token::NewLine => matches!(other, Token::NewLine),
            Token::Eol => matches!(other, Token::Eol),
            Token::SRCall(s1) => match other {
                Token::SRCall(s2) => s1.eq(s2),
                _ => false,
            },
            Token::MemAddr(m1) => match other {
                Token::MemAddr(m2) => *m1 == *m2,
                _ => false,
            },
            Token::Directive(l1) => match other {
                Token::Directive(l2) => l1.eq(l2),
                _ => false,
            },
            Token::RegPointer(p1) => match other {
                Token::RegPointer(p2) => *p1 == *p2,
                _ => false,
            },
            Token::MemPointer(p1) => match other {
                Token::MemPointer(p2) => *p1 == *p2,
                _ => false,
            },
            Token::EqualSign => matches!(other, Token::EqualSign),
            Token::Asciiz(a1) => match other {
                Token::Asciiz(a2) => a1.eq(a2),
                _ => false,
            },
        }
    }
}

impl vstd::std_specs::cmp::PartialEqSpecImpl for Token {
    open spec fn obeys_eq_spec() -> bool {
        true
    }

    open spec fn eq_spec(&self, other: &Token) -> bool {
        same_token(*self, *other)
    }
}

/// The text of a token as `get_raw` gives it.
pub open spec fn raw_spec(t: Token) -> Seq<char> {
    match t {
        Token::EqualSign => "equals"@,
        Token::Ident(s) => s@,
        Token::Register(n) => decimal(n as int),
        Token::Comma => "comma"@,
        Token::Literal(n) => decimal(n as int),
        Token::NewLine => "newline"@,
        Token::Eol => "eol"@,
        Token::SRCall(s) => s@,
        Token::MemAddr(n) => decimal(n as int),
        Token::Directive(s) => s@,
        Token::RegPointer(n) => decimal(n as int),
        Token::MemPointer(n) => decimal(n as int),
        Token::Asciiz(s) => s@,
    }
}

/// The number of a token as `get_num` gives it: the number it carries, the
/// address of the label it names (truncated to 16 bits), or else the value
/// of the variable it names; 0 for an unknown name, -1 for a token without
/// a number.
pub open spec fn num_spec(t: Token, labels: Seq<Label>, variables: Seq<Variable>) -> i16 {
    match t {
        Token::Register(n) => n,
        Token::Literal(n) => n,
        Token::MemAddr(n) => n,
        Token::RegPointer(n) => n,
        Token::MemPointer(n) => n,
        Token::SRCall(sr) => match label_of(labels, sr@) {
            Some((_, address)) => address as i16,
            None => 0i16,
        },
        Token::Ident(ident) => match label_of(labels, ident@) {
            Some((_, address)) => address as i16,
            None => match variable_of(variables, ident@) {
                Some((_, value)) => value as i16,
                None => 0i16,
            },
        },
        _ => -1i16,
    }
}

impl Token {
    /// The text of the token (see `raw_spec`).
    pub fn get_raw(&self) -> (r: String)
        ensures
            r@ == raw_spec(*self),
    {
        match self {
            Token::EqualSign => string_from("equals"),
            Token::Ident(s) => s.clone(),
            Token::Register(n) => i16_to_string(*n),
            Token::Comma => string_from("comma"),
            Token::Literal(n) => i16_to_string(*n),
            Token::NewLine => string_from("newline"),
            Token::Eol => string_from("eol"),
            Token::SRCall(s) => s.clone(),
            Token::MemAddr(n) => i16_to_string(*n),
            Token::Directive(s) => s.clone(),
            Token::RegPointer(n) => i16_to_string(*n),
            Token::MemPointer(n) => i16_to_string(*n),
            Token::Asciiz(s) => s.clone(),
        }
    }

    /// The number of the token, looking names up in `symbols` (see `num_spec`).
    pub fn get_num(&self, symbols: &SymbolTable) -> (r: i16)
        ensures
            r == num_spec(*self, symbols.labels@, symbols.variables@),
    {
        match self {
            Token::Register(n) => *n,
            Token::Literal(n) => *n,
            Token::MemAddr(n) => *n,
            Token::RegPointer(n) => *n,
            Token::MemPointer(n) => *n,
            Token::SRCall(sr) => {
                let name = chars_of(sr.as_str());
                match symbols.lookup_label(name.as_slice()) {
                    Some((_, address)) => address as i16,
                    None => 0,
                }
            },
            Token::Ident(ident) => {
                let name = chars_of(ident.as_str());
                match symbols.lookup_label(name.as_slice()) {
                    Some((_, address)) => address as i16,
                    None => match symbols.lookup_variable(name.as_slice()) {
                        Some((_, value)) => value as i16,
                        None => 0,
                    },
                }
            },
            _ => -1,
        }
    }

    pub fn is_register(&self) -> (r: bool)
        ensures
            r == (*self is Register),
    {
        matches!(self, Token::Register(_))
    }

    pub fn is_literal(&self) -> (r: bool)
        ensures
            r == (*self is Literal || *self is Ident),
    {
        matches!(self, Token::Literal(_) | Token::Ident(_))
    }

    pub fn is_memory_address(&self) -> (r: bool)
        ensures
            r == (*self is MemAddr),
    {
        matches!(self, Token::MemAddr(_))
    }

    pub fn is_memory_address_indirect(&self) -> (r: bool)
        ensures
            r == (*self is MemPointer),
    {
        matches!(self, Token::MemPointer(_))
    }

    pub fn is_register_indirect(&self) -> (r: bool)
        ensures
            r == (*self is RegPointer),
    {
        matches!(self, Token::RegPointer(_))
    }

    pub fn is_regorptr(&self) -> (r: bool)
        ensures
            r == (*self is Register || *self is RegPointer),
    {
        matches!(self, Token::Register(_) | Token::RegPointer(_))
    }

    pub fn is_srcall(&self) -> (r: bool)
        ensures
            r == (*self is SRCall || *self is Ident),
    {
        matches!(self, Token::SRCall(_) | Token::Ident(_))
    }

    /// Whether the token can stand as an operand.
    pub fn is_valid_arg(&self) -> (r: bool)
        ensures
            r == (*self is Register || *self is Literal || *self is Ident || *self is SRCall
                || *self is MemAddr || *self is MemPointer || *self is RegPointer),
    {
        self.is_register() || self.is_literal() || self.is_srcall() || self.is_memory_address()
            || self.is_memory_address_indirect() || self.is_register_indirect()
    }
}

} // verus!
