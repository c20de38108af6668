//! Encoding of operands: how the assembler turns one operand token into the
//! bits it contributes to an instruction word.
use vstd::prelude::*;
use crate::numbers::{decimal, i16_to_string};
use crate::suggest::{
    close_labels, close_variables, find_closest_matches, find_closest_matches_i32, listing,
    list_matches, match_lines,
};
use crate::symbols::{Label, SymbolTable, Variable, label_of, variable_of};
use crate::text::{chars_of, is_text, string_from};
use crate::tokens::Token;

verus! {

/// An assembly error: the line it is on, the lines of similar names that
/// exist, a message and a tip (empty when there is none).
pub type CodegenError = (usize, Option<Vec<usize>>, (String, String));

/// The mathematical model of a `CodegenError`.
pub type ErrorView = (usize, Option<Seq<usize>>, Seq<char>, Seq<char>);

pub open spec fn error_view(e: CodegenError) -> ErrorView {
    (
        e.0,
        match e.1 {
            Some(v) => Some(v@),
            None => None,
        },
        e.2.0@,
        e.2.1@,
    )
}

pub open spec fn result_view<T>(r: Result<T, CodegenError>) -> Result<T, ErrorView> {
    match r {
        Ok(v) => Ok(v),
        Err(e) => Err(error_view(e)),
    }
}

/// The tip listing similar labels, or nothing.
pub open spec fn label_tip(ms: Seq<(usize, Seq<char>)>) -> Seq<char> {
    if ms.len() == 0 {
        Seq::empty()
    } else {
        "similar labels exist: "@ + listing(ms)
    }
}

/// The tip listing similar variables, or nothing.
pub open spec fn variable_tip(ms: Seq<(usize, Seq<char>)>) -> Seq<char> {
    if ms.len() == 0 {
        Seq::empty()
    } else {
        "similar variables exist: "@ + listing(ms)
    }
}

/// The tip for an undeclared name: similar labels, then similar variables.
pub open spec fn name_tip(lms: Seq<(usize, Seq<char>)>, vms: Seq<(usize, Seq<char>)>) -> Seq<char> {
    if variable_tip(vms).len() > 0 {
        label_tip(lms) + ", "@ + variable_tip(vms)
    } else {
        label_tip(lms)
    }
}

/// The bits that an operand contributes to an instruction word:
/// a register its number (r0 to r9), a literal its value with bit 8 set, a
/// memory indirect its address with bit 7 set, a register indirect its
/// register with bit 6 set, an address itself, a label its address, a
/// variable its value; a missing operand contributes nothing.
pub open spec fn arg_spec(arg: Option<Token>, line: usize, labels: Seq<Label>, variables: Seq<Variable>) -> Result<i16, ErrorView> {
    match arg {
        Some(Token::Register(n)) => if n > 9 {
            Err((line, None, "invalid register number "@ + decimal(n as int), "valid registers are r0-r9"@))
        } else {
            Ok(n)
        },
        Some(Token::Literal(l)) => Ok(256i16 | l),
        Some(Token::SRCall(sr)) => match label_of(labels, sr@) {
            Some((_, address)) => Ok(address as i16),
            None => {
                let ms = close_labels(labels, sr@, 2);
                Err((line, Some(match_lines(ms)), "label \""@ + sr@ + "\" does not exist"@, label_tip(ms)))
            },
        },
        Some(Token::MemAddr(n)) => Ok(n),
        Some(Token::Directive(k)) => if k@ == "start"@ {
            Ok(1i16)
        } else if k@ == "asciiz"@ || k@ == "word"@ {
            Ok(0i16)
        } else {
            Err((line, None, "directive not recognized"@, Seq::empty()))
        },
        Some(Token::MemPointer(m)) => Ok(128i16 | m),
        Some(Token::RegPointer(r)) => Ok(64i16 | r),
        Some(Token::Ident(id)) => match label_of(labels, id@) {
            Some((_, address)) => Ok(address as i16),
            None => match variable_of(variables, id@) {
                Some((_, value)) => Ok(value as i16),
                None => {
                    let lms = close_labels(labels, id@, 2);
                    let vms = close_variables(variables, id@, 2);
                    Err((
                        line,
                        Some(match_lines(lms) + match_lines(vms)),
                        "label/variable \""@ + id@ + "\" not declared"@,
                        name_tip(lms, vms),
                    ))
                },
            },
        },
        _ => Ok(0i16),
    }
}

pub open spec fn opt_token(arg: Option<&Token>) -> Option<Token> {
    match arg {
        Some(t) => Some(*t),
        None => None,
    }
}

proof fn lemma_close_lines(ls: Seq<Label>, name: Seq<char>, k: int)
    requires
        forall|i: int| 0 <= i < ls.len() ==> (#[trigger] ls[i]).line < usize::MAX,
    ensures
        forall|i: int| 0 <= i < close_labels(ls, name, k).len() ==> (#[trigger] close_labels(ls, name, k)[i]).0 < usize::MAX,
    decreases ls.len(),
{
    if ls.len() > 0 {
        let p = ls.drop_last();
        assert(forall|i: int| 0 <= i < p.len() ==> p[i] == ls[i]);
        lemma_close_lines(p, name, k);
        let c = close_labels(ls, name, k);
        let cp = close_labels(p, name, k);
        assert forall|i: int| 0 <= i < c.len() implies (#[trigger] c[i]).0 < usize::MAX by {
            if i < cp.len() {
                assert(c[i] == cp[i]);
            } else {
                assert(c[i].0 == ls.last().line);
            }
        }
    }
}

proof fn lemma_close_variable_lines(vs: Seq<Variable>, name: Seq<char>, k: int)
    requires
        forall|i: int| 0 <= i < vs.len() ==> (#[trigger] vs[i]).line < usize::MAX,
    ensures
        forall|i: int| 0 <= i < close_variables(vs, name, k).len() ==> (#[trigger] close_variables(vs, name, k)[i]).0 < usize::MAX,
    decreases vs.len(),
{
    if vs.len() > 0 {
        let p = vs.drop_last();
        assert(forall|i: int| 0 <= i < p.len() ==> p[i] == vs[i]);
        lemma_close_variable_lines(p, name, k);
        let c = close_variables(vs, name, k);
        let cp = close_variables(p, name, k);
        assert forall|i: int| 0 <= i < c.len() implies (#[trigger] c[i]).0 < usize::MAX by {
            if i < cp.len() {
                assert(c[i] == cp[i]);
            } else {
                assert(c[i].0 == vs.last().line);
            }
        }
    }
}

proof fn lemma_lines_of(ms: Seq<(usize, String)>, v: Seq<(usize, Seq<char>)>)
    requires
        ms.map_values(|p: (usize, String)| (p.0, p.1@)) == v,
        forall|i: int| 0 <= i < v.len() ==> (#[trigger] v[i]).0 < usize::MAX,
    ensures
        forall|i: int| 0 <= i < ms.len() ==> (#[trigger] ms[i]).0 < usize::MAX,
{
    assert forall|i: int| 0 <= i < ms.len() implies (#[trigger] ms[i]).0 < usize::MAX by {
        assert(v[i].0 == ms[i].0);
    }
}

fn text(t: &str) -> (s: String)
    ensures
        s@ == t@,
{
    string_from(t)
}

fn concat3(a: &str, b: &str, c: &str) -> (s: String)
    ensures
        s@ == a@ + b@ + c@,
{
    let s = String::from_str(a);
    let s = s.concat(b);
    s.concat(c)
}

/// The error for a label that does not exist.
fn missing_label(sr: &String, line_num: usize, symbols: &SymbolTable) -> (e: CodegenError)
    requires
        symbols.wf(),
        sr@.len() <= usize::MAX / 2,
    ensures
        ({
            let ms = close_labels(symbols.labels@, sr@, 2);
            error_view(e) == (line_num, Some(match_lines(ms)), "label \""@ + sr@ + "\" does not exist"@, label_tip(ms))
        }),
{
    let name = chars_of(sr.as_str());
    let similars = find_closest_matches(&symbols.labels, name.as_slice(), 2);
    proof {
        lemma_close_lines(symbols.labels@, sr@, 2);
        lemma_lines_of(similars@, close_labels(symbols.labels@, sr@, 2));
    }
    let (list, lines) = list_matches(&similars);
    let tip = if similars.len() == 0 {
        String::new()
    } else {
        String::from_str("similar labels exist: ").concat(list.as_str())
    };
    (line_num, Some(lines), (concat3("label \"", sr.as_str(), "\" does not exist"), tip))
}

/// The error for a name that is neither a label nor a variable.
fn undeclared_name(id: &String, line_num: usize, symbols: &SymbolTable) -> (e: CodegenError)
    requires
        symbols.wf(),
        id@.len() <= usize::MAX / 2,
    ensures
        ({
            let lms = close_labels(symbols.labels@, id@, 2);
            let vms = close_variables(symbols.variables@, id@, 2);
            error_view(e) == (
                line_num,
                Some(match_lines(lms) + match_lines(vms)),
                "label/variable \""@ + id@ + "\" not declared"@,
                name_tip(lms, vms),
            )
        }),
{
    let name = chars_of(id.as_str());
    let lsim = find_closest_matches(&symbols.labels, name.as_slice(), 2);
    let vsim = find_closest_matches_i32(&symbols.variables, name.as_slice(), 2);
    proof {
        lemma_close_lines(symbols.labels@, id@, 2);
        lemma_close_variable_lines(symbols.variables@, id@, 2);
        lemma_lines_of(lsim@, close_labels(symbols.labels@, id@, 2));
        lemma_lines_of(vsim@, close_variables(symbols.variables@, id@, 2));
    }
    let (llist, mut lines) = list_matches(&lsim);
    let (vlist, vlines) = list_matches(&vsim);
    let ltip = if lsim.len() == 0 {
        String::new()
    } else {
        String::from_str("similar labels exist: ").concat(llist.as_str())
    };
    let vtip = if vsim.len() == 0 {
        String::new()
    } else {
        String::from_str("similar variables exist: ").concat(vlist.as_str())
    };
    let tip = if vsim.len() != 0 {
        ltip.concat(", ").concat(vtip.as_str())
    } else {
        ltip
    };
    let mut k: usize = 0;
    let ghost l0 = lines@;
    while k < vlines.len()
        invariant
            k <= vlines@.len(),
            lines@ == l0 + vlines@.take(k as int),
        decreases vlines@.len() - k,
    {
        lines.push(vlines[k]);
        k = k + 1;
        assert(lines@ =~= l0 + vlines@.take(k as int));
    }
    assert(vlines@.take(vlines@.len() as int) =~= vlines@);
    (line_num, Some(lines), (concat3("label/variable \"", id.as_str(), "\" not declared"), tip))
}

/// Whether every name carried by a token fits in memory twice over.
pub open spec fn token_fits(t: Token) -> bool {
    match t {
        Token::Ident(s) => s@.len() <= usize::MAX / 2,
        Token::SRCall(s) => s@.len() <= usize::MAX / 2,
        _ => true,
    }
}

pub open spec fn arg_fits(arg: Option<&Token>) -> bool {
    match arg {
        Some(t) => token_fits(*t),
        None => true,
    }
}

/// The bits that an operand contributes to an instruction word (see `arg_spec`).
pub fn argument_to_binary(arg: Option<&Token>, line_num: usize, symbols: &SymbolTable) -> (r: Result<i16, CodegenError>)
    requires
        symbols.wf(),
        arg_fits(arg),
    ensures
        result_view(r) == arg_spec(opt_token(arg), line_num, symbols.labels@, symbols.variables@),
{
    match arg {
        Some(Token::Register(num)) => {
            if *num > 9 {
                let n = i16_to_string(*num);
                return Err((
                    line_num,
                    None,
                    (String::from_str("invalid register number ").concat(n.as_str()), text("valid registers are r0-r9")),
                ));
            }
            Ok(*num)
        },
        Some(Token::Literal(literal)) => Ok(256 | *literal),
        Some(Token::SRCall(sr)) => {
            let name = chars_of(sr.as_str());
            match symbols.lookup_label(name.as_slice()) {
                Some((_, address)) => Ok(address as i16),
                None => Err(missing_label(sr, line_num, symbols)),
            }
        },
        Some(Token::MemAddr(n)) => Ok(*n),
        Some(Token::Directive(keyword)) => {
            let k = chars_of(keyword.as_str());
            if is_text(k.as_slice(), "start") {
                Ok(1)
            } else if is_text(k.as_slice(), "asciiz") || is_text(k.as_slice(), "word") {
                Ok(0)
            } else {
                Err((line_num, None, (text("directive not recognized"), String::new())))
            }
        },
        Some(Token::MemPointer(mem)) => Ok(128 | *mem),
        Some(Token::RegPointer(reg)) => Ok(64 | *reg),
        Some(Token::Ident(ident)) => {
            let name = chars_of(ident.as_str());
            match symbols.lookup_label(name.as_slice()) {
                Some((_, address)) => Ok(address as i16),
                None => match symbols.lookup_variable(name.as_slice()) {
                    Some((_, value)) => Ok(value as i16),
                    None => Err(undeclared_name(ident, line_num, symbols)),
                },
            }
        },
        _ => Ok(0),
    }
}

} // verus!
