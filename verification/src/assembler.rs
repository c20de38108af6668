//! The assembler's handling of a lexed line, and the image it writes.
use vstd::prelude::*;
use crate::checks::{CheckError, verify, verify_spec};
use crate::codegen::{CodegenError, opt_token, token_fits};
use crate::encode::{encode_instruction, encode_spec, negative_pad, select_spec, Form};
use crate::rom::{bytes_of, words_to_bytes};
use crate::symbols::{SymbolTable, label_of, variable_of};
use crate::text::{before_char, chars_of, contains_char, is_text, split_first, trim, trimmed};
use crate::tokens::{Token, raw_spec};

verus! {

/// The name of `str::to_lowercase`'s result: the Unicode lowercase mapping.
pub uninterp spec fn unicode_lower(s: Seq<char>) -> Seq<char>;

/// The lowercase form of a text (`str::to_lowercase`). The Unicode mapping
/// is named, not stated; for ASCII text it maps `A`..`Z` to `a`..`z` and
/// keeps every other character.
#[verifier::external_body]
fn str_to_lowercase(s: &str) -> (r: String)
    ensures
        r@ == unicode_lower(s@),
        vstd::utf8::is_ascii_chars(s@) ==> r@ == s@.map_values(|c: char| lower_char(c)),
{
    s.to_lowercase()
}

pub open spec fn lower_char(c: char) -> char {
    if 'A' <= c <= 'Z' {
        ((c as u32) + 32) as char
    } else {
        c
    }
}

/// The lowercase form of a text, in the sense of `str::to_lowercase`.
pub open spec fn lower(s: Seq<char>) -> Seq<char> {
    if vstd::utf8::is_ascii_chars(s) {
        s.map_values(|c: char| lower_char(c))
    } else {
        unicode_lower(s)
    }
}

/// Whether a token is an identifier that reads `hlt` in any case.
pub open spec fn is_hlt(t: Token) -> bool {
    t is Ident && lower(raw_spec(t)) == "hlt"@
}

fn to_lowercase(s: &str) -> (r: Vec<char>)
    ensures
        r@ == lower(s@),
{
    let l = str_to_lowercase(s);
    chars_of(l.as_str())
}

/// Whether a line holds an `HLT` instruction (an identifier `hlt` in any case).
pub fn mentions_hlt(tokens: &Vec<Token>) -> (b: bool)
    ensures
        b == exists|i: int| 0 <= i < tokens@.len() && is_hlt(#[trigger] tokens@[i]),
{
    let mut i: usize = 0;
    while i < tokens.len()
        invariant
            i <= tokens@.len(),
            forall|j: int| 0 <= j < i ==> !is_hlt(#[trigger] tokens@[j]),
        decreases tokens@.len() - i,
    {
        if let Token::Ident(_) = &tokens[i] {
            let raw = tokens[i].get_raw();
            let l = to_lowercase(raw.as_str());
            if is_text(l.as_slice(), "hlt") {
                return true;
            }
        }
        i = i + 1;
    }
    false
}

/// The instruction and operand tokens of a line: the first token, the
/// second, and the third (the fourth when the third is a comma).
pub open spec fn operands_spec(ts: Seq<Token>) -> (Option<Token>, Option<Token>, Option<Token>) {
    let get = |i: int|
        if 0 <= i < ts.len() {
            Some(ts[i])
        } else {
            None
        };
    (get(0), get(1), if ts.len() > 2 && ts[2] is Comma {
        get(3)
    } else {
        get(2)
    })
}

/// Finds the instruction and operand tokens of a line (see `operands_spec`).
pub fn operands(tokens: &Vec<Token>) -> (r: (Option<&Token>, Option<&Token>, Option<&Token>))
    ensures
        (opt_token(r.0), opt_token(r.1), opt_token(r.2)) == operands_spec(tokens@),
{
    let n = tokens.len();
    let ins = if n > 0 {
        Some(&tokens[0])
    } else {
        None
    };
    let op1 = if n > 1 {
        Some(&tokens[1])
    } else {
        None
    };
    let third = if n > 2 {
        matches!(tokens[2], Token::Comma)
    } else {
        false
    };
    let k: usize = if third {
        3
    } else {
        2
    };
    let op2 = if n > k {
        Some(&tokens[k])
    } else {
        None
    };
    (ins, op1, op2)
}

/// What the assembler does with a lexed line.
pub enum LineResult {
    /// The line makes no words (no tokens, a variable, or `.start`).
    Skip,
    /// The words of the line.
    Words(Vec<i16>),
    /// The line does not encode.
    EncodeError(CodegenError),
    /// The line encodes, but its operands fail a check.
    CheckError(CheckError),
}

/// Whether a line's tokens hold an `=`.
pub open spec fn has_equal_sign(ts: Seq<Token>) -> bool {
    exists|i: int| 0 <= i < ts.len() && (#[trigger] ts[i]) is EqualSign
}

/// Whether every name in a line's tokens fits in memory twice over.
pub open spec fn tokens_fit(ts: Seq<Token>) -> bool {
    forall|i: int| 0 <= i < ts.len() ==> token_fits(#[trigger] ts[i])
}

/// Whether the names of every token fit in memory twice over (see `token_fits`).
pub fn all_fit(tokens: &Vec<Token>) -> (b: bool)
    ensures
        b == tokens_fit(tokens@),
{
    let mut i: usize = 0;
    while i < tokens.len()
        invariant
            i <= tokens@.len(),
            forall|j: int| 0 <= j < i ==> token_fits(#[trigger] tokens@[j]),
        decreases tokens@.len() - i,
    {
        let ok = match &tokens[i] {
            Token::Ident(s) => chars_of(s.as_str()).len() <= usize::MAX / 2,
            Token::SRCall(s) => chars_of(s.as_str()).len() <= usize::MAX / 2,
            _ => true,
        };
        if !ok {
            return false;
        }
        i = i + 1;
    }
    true
}

/// Whether encoding the line would ask for a padding of negative length.
pub open spec fn line_pads_negative(ts: Seq<Token>, symbols: SymbolTable) -> bool {
    let (ins, a1, a2) = operands_spec(ts);
    ins matches Some(t) && negative_pad(t, a1, a2, symbols.labels@, symbols.variables@)
}

/// Whether encoding the line would ask for a padding of negative length
/// (see `line_pads_negative`).
pub fn pads_negative(tokens: &Vec<Token>, symbols: &SymbolTable) -> (b: bool)
    ensures
        b == line_pads_negative(tokens@, *symbols),
{
    let (ins, a1, a2) = operands(tokens);
    match ins {
        Some(Token::Directive(s)) => {
            let d = chars_of(s.as_str());
            proof {
                reveal_strlit("pad");
                reveal_strlit("asciiz");
                reveal_strlit("word");
                reveal_strlit("data");
                reveal_strlit("dataword");
            }
            if is_text(d.as_slice(), "pad") {
                assert(s@ == "pad"@);
                assert("pad"@.len() == 3);
                assert("asciiz"@.len() == 6);
                assert(s@ != "asciiz"@);
                assert(s@ != "word"@);
                assert(s@ != "data"@);
                assert(s@ != "dataword"@);
                assert(crate::encode::directive_form(s@) == Form::Pad);
                assert(select_spec(Token::Directive(*s), opt_token(a1), opt_token(a2)) == Ok::<(i16, Form), (Seq<char>, Seq<char>)>((crate::tokens::HLT_OP, Form::Pad)));
                match a1 {
                    Some(t) => t.get_num(symbols) < 0,
                    None => false,
                }
            } else {
                false
            }
        },
        _ => false,
    }
}

/// What `assemble_line` gives for a line.
pub open spec fn line_spec(ts: Seq<Token>, line: usize, symbols: SymbolTable) -> LineOutcome {
    let (ins, a1, a2) = operands_spec(ts);
    if ts.len() == 0 || has_equal_sign(ts) {
        LineOutcome::Skip
    } else {
        match encode_spec(ins.unwrap(), a1, a2, line, symbols.labels@, symbols.variables@) {
            Ok(Some(words)) => match verify_spec(ins.unwrap(), a1, a2, line, symbols.labels@, symbols.variables@) {
                Ok(()) => LineOutcome::Words(words),
                Err((l, m)) => LineOutcome::CheckError(l, m),
            },
            Ok(None) => LineOutcome::Skip,
            Err(e) => LineOutcome::EncodeError(e),
        }
    }
}

/// The mathematical model of a `LineResult`.
pub enum LineOutcome {
    Skip,
    Words(Seq<i16>),
    EncodeError(crate::codegen::ErrorView),
    CheckError(usize, Seq<char>),
}

pub open spec fn outcome(r: LineResult) -> LineOutcome {
    match r {
        LineResult::Skip => LineOutcome::Skip,
        LineResult::Words(w) => LineOutcome::Words(w@),
        LineResult::EncodeError(e) => LineOutcome::EncodeError(crate::codegen::error_view(e)),
        LineResult::CheckError((l, m)) => LineOutcome::CheckError(l, m@),
    }
}

/// Assembles a lexed line: a line without tokens or with an `=` makes no
/// words; otherwise its first token is encoded with its operands (see
/// `encode_spec`), and encoded words are checked (see `verify_spec`).
pub fn assemble_line(tokens: &Vec<Token>, line: usize, symbols: &SymbolTable) -> (r: LineResult)
    requires
        symbols.wf(),
        tokens_fit(tokens@),
        !line_pads_negative(tokens@, *symbols),
    ensures
        outcome(r) == line_spec(tokens@, line, *symbols),
{
    if tokens.len() == 0 {
        return LineResult::Skip;
    }
    let mut i: usize = 0;
    while i < tokens.len()
        invariant
            i <= tokens@.len(),
            forall|j: int| 0 <= j < i ==> !((#[trigger] tokens@[j]) is EqualSign),
        decreases tokens@.len() - i,
    {
        if matches!(tokens[i], Token::EqualSign) {
            return LineResult::Skip;
        }
        i = i + 1;
    }
    let (ins, a1, a2) = operands(tokens);
    let ins = ins.unwrap();
    proof {
        assert(token_fits(tokens@[0]));
        if tokens@.len() > 1 {
            assert(token_fits(tokens@[1]));
        }
        if tokens@.len() > 2 {
            assert(token_fits(tokens@[2]));
        }
        if tokens@.len() > 3 {
            assert(token_fits(tokens@[3]));
        }
    }
    match encode_instruction(ins, a1, a2, line, symbols) {
        Ok(Some(words)) => match verify(ins, a1, a2, line, symbols) {
            Ok(()) => LineResult::Words(words),
            Err(e) => LineResult::CheckError(e),
        },
        Ok(None) => LineResult::Skip,
        Err(e) => LineResult::EncodeError(e),
    }
}

/// The header of an image: the format bytes `01 02`, then the start
/// address with bit 9 set, most significant byte first.
pub open spec fn image_header(start: i32) -> Seq<u8> {
    let s = 0x200i32 | start;
    seq![1u8, 2u8, ((s & 0xff00) >> 8) as u8, (s & 0xff) as u8]
}

/// The image the assembler writes: the header, then the words, most
/// significant byte first.
pub fn rom_image(start: i32, words: &[i16]) -> (image: Vec<u8>)
    requires
        words@.len() * 2 <= usize::MAX,
    ensures
        image@ == image_header(start) + bytes_of(words@),
{
    let s = 0x200i32 | start;
    let mut image: Vec<u8> = Vec::new();
    image.push(1);
    image.push(2);
    image.push(((s & 0xff00) >> 8) as u8);
    image.push((s & 0xff) as u8);
    let body = words_to_bytes(words);
    let mut i: usize = 0;
    let ghost head = image@;
    assert(head =~= image_header(start));
    while i < body.len()
        invariant
            i <= body@.len(),
            image@ == head + body@.take(i as int),
        decreases body@.len() - i,
    {
        image.push(body[i]);
        i = i + 1;
        assert(image@ =~= head + body@.take(i as int));
    }
    assert(body@.take(body@.len() as int) =~= body@);
    image
}

/// A name that is both a label and a variable, if there is one.
pub fn shared_name(symbols: &SymbolTable) -> (r: Option<String>)
    ensures
        match r {
            Some(n) => label_of(symbols.labels@, n@) is Some && variable_of(symbols.variables@, n@) is Some,
            None => forall|i: int|
                0 <= i < symbols.labels@.len() ==> variable_of(symbols.variables@, (#[trigger] symbols.labels@[i]).name@) is None,
        },
{
    let mut i: usize = 0;
    while i < symbols.labels.len()
        invariant
            i <= symbols.labels@.len(),
            forall|j: int|
                0 <= j < i ==> variable_of(symbols.variables@, (#[trigger] symbols.labels@[j]).name@) is None,
        decreases symbols.labels@.len() - i,
    {
        let name = chars_of(symbols.labels[i].name.as_str());
        if symbols.lookup_variable(name.as_slice()).is_some() {
            let found = symbols.lookup_label(name.as_slice());
            proof {
                crate::symbols::lemma_label_present(symbols.labels@, i as int);
            }
            return Some(symbols.labels[i].name.clone());
        }
        i = i + 1;
    }
    None
}

/// Whether a source line defines a variable: its text before the first
/// `;` (white space trimmed) holds an `=`. The assembler skips such lines.
pub open spec fn defines_variable_spec(line: Seq<char>) -> bool {
    before_char(trimmed(line), ';').contains('=')
}

/// Whether a source line defines a variable (see `defines_variable_spec`).
pub fn defines_variable(line: &str) -> (b: bool)
    ensures
        b == defines_variable_spec(line@),
{
    let cs = chars_of(line);
    let t = trim(cs.as_slice());
    let code = split_first(t.as_slice(), ';');
    contains_char(code.as_slice(), '=')
}

/// Whether the assembler warns that a program has no `HLT`: none was seen
/// and no error was reported.
pub fn warns_no_hlt(hlt_seen: bool, error_count: usize) -> (b: bool)
    ensures
        b == (!hlt_seen && error_count == 0),
{
    !hlt_seen && error_count == 0
}

/// The words after the error count when assembling fails.
pub fn errors_generated(error_count: usize) -> (s: String)
    ensures
        s@ == if error_count == 1 {
            "error generated"@
        } else {
            "errors generated"@
        },
{
    if error_count == 1 {
        crate::text::string_from("error generated")
    } else {
        crate::text::string_from("errors generated")
    }
}

} // verus!
