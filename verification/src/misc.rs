//! Text measures and formatting used by the tools around the emulator.
use vstd::prelude::*;
use crate::emu_config::Cli;
use crate::rom::EmuError;
use crate::symbol_table::utf8_width;
use crate::text::{chars_of, push_char, string_from, trim_start};

verus! {

/// The number of bytes, in UTF-8, of the characters of `s[i..]` that are
/// outside ANSI escape sequences; `inside` tells whether `s[i..]` starts
/// inside one. A sequence starts with ESC and ends with `m` or `K`.
pub open spec fn visible_bytes(s: Seq<char>, i: int, inside: bool) -> nat
    decreases s.len() - i,
{
    if i < 0 || i >= s.len() {
        0
    } else if s[i] == '\x1B' {
        visible_bytes(s, i + 1, true)
    } else if inside {
        visible_bytes(s, i + 1, !(s[i] == 'm' || s[i] == 'K'))
    } else {
        utf8_width(s[i]) + visible_bytes(s, i + 1, false)
    }
}

proof fn lemma_visible_bound(s: Seq<char>, i: int, inside: bool)
    requires
        0 <= i <= s.len(),
    ensures
        visible_bytes(s, i, inside) <= 4 * (s.len() - i),
    decreases s.len() - i,
{
    if i < s.len() {
        lemma_visible_bound(s, i + 1, true);
        lemma_visible_bound(s, i + 1, false);
    }
}

/// The length in bytes of a text without its ANSI escape sequences (see
/// `visible_bytes`).
pub fn length_without_ansi(text: &str) -> (n: usize)
    requires
        text@.len() <= usize::MAX / 4,
    ensures
        n == visible_bytes(text@, 0, false),
{
    let cs = chars_of(text);
    let mut n: usize = 0;
    let mut inside = false;
    let mut i: usize = 0;
    proof {
        lemma_visible_bound(cs@, 0, false);
    }
    while i < cs.len()
        invariant
            i <= cs@.len(),
            cs@ == text@,
            cs@.len() <= usize::MAX / 4,
            n + visible_bytes(cs@, i as int, inside) == visible_bytes(cs@, 0, false),
            visible_bytes(cs@, 0, false) <= 4 * cs@.len(),
        decreases cs@.len() - i,
    {
        let c = cs[i];
        if c == '\x1B' {
            inside = true;
        } else if inside {
            if c == 'm' || c == 'K' {
                inside = false;
            }
        } else {
            let u = c as u32;
            let w: usize = if u < 0x80 {
                1
            } else if u < 0x800 {
                2
            } else if u < 0x10000 {
                3
            } else {
                4
            };
            n = n + w;
        }
        i = i + 1;
    }
    n
}

/// Whether `s` holds `c`.
pub open spec fn holds(s: Seq<char>, c: char) -> bool {
    exists|i: int| 0 <= i < s.len() && s[i] == c
}

/// How the formatter writes a source line: blank lines become empty;
/// directives, labels (any line with a `:`) and comment lines stay as they
/// are; any other line is put at the given indentation (a tab, or
/// `max_indentation` spaces).
pub open spec fn formatted_line(line: Seq<char>, max_indentation: usize, use_tabs: bool) -> Seq<char> {
    let t = trim_start(line);
    if t.len() == 0 {
        Seq::empty()
    } else if t[0] == '.' || holds(t, ':') || t[0] == ';' {
        line
    } else if use_tabs {
        seq!['\t'] + t
    } else {
        Seq::new(max_indentation as nat, |i: int| ' ') + t
    }
}

/// Formats a source line (see `formatted_line`).
pub fn trim_and_format_line(line: &str, max_indentation: usize, use_tabs: bool) -> (r: String)
    ensures
        r@ == formatted_line(line@, max_indentation, use_tabs),
{
    let cs = chars_of(line);
    let mut a: usize = 0;
    assert(cs@.subrange(0, cs@.len() as int) =~= cs@);
    while a < cs.len() && crate::text::is_whitespace(cs[a])
        invariant
            a <= cs@.len(),
            trim_start(cs@) == trim_start(cs@.subrange(a as int, cs@.len() as int)),
        decreases cs@.len() - a,
    {
        assert(cs@.subrange(a as int, cs@.len() as int).drop_first() =~= cs@.subrange(a + 1, cs@.len() as int));
        a = a + 1;
    }
    assert(cs@.subrange(0, cs@.len() as int) =~= cs@);
    let ghost t = cs@.subrange(a as int, cs@.len() as int);
    assert(trim_start(t) == t);
    if a == cs.len() {
        return String::new();
    }
    let mut colon = false;
    let mut k = a;
    while k < cs.len()
        invariant
            a <= k <= cs@.len(),
            t == cs@.subrange(a as int, cs@.len() as int),
            colon <==> exists|j: int| 0 <= j < k - a && t[j] == ':',
        decreases cs@.len() - k,
    {
        if cs[k] == ':' {
            colon = true;
            assert(t[k - a] == ':');
        }
        k = k + 1;
    }
    if cs[a] == '.' || colon || cs[a] == ';' {
        return string_from(line);
    }
    let mut r = String::new();
    if use_tabs {
        push_char(&mut r, '\t');
    } else {
        let mut i: usize = 0;
        while i < max_indentation
            invariant
                i <= max_indentation,
                r@ == Seq::new(i as nat, |j: int| ' '),
            decreases max_indentation - i,
        {
            push_char(&mut r, ' ');
            i = i + 1;
            assert(r@ =~= Seq::new(i as nat, |j: int| ' '));
        }
    }
    let ghost r0 = r@;
    let mut i = a;
    while i < cs.len()
        invariant
            a <= i <= cs@.len(),
            r@ == r0 + cs@.subrange(a as int, i as int),
        decreases cs@.len() - i,
    {
        push_char(&mut r, cs[i]);
        i = i + 1;
        assert(r@ =~= r0 + cs@.subrange(a as int, i as int));
    }
    r
}

/// Why the emulator refuses debug and verbose flags together.
pub open spec fn debug_verbose_conflict() -> Seq<char> {
    "Cannot have both debug and verbose flags"@
}

/// The checks of the command line before the emulator runs, given whether
/// the ROM path names a directory and whether the ROM opens. Debug and
/// verbose flags together are refused, then a directory; a ROM that does
/// not open ends the program, with status 0 and nothing to report when no
/// ROM was named. `Err` gives the exit status and the error to report.
pub fn cli_argument_check(cli: &Cli, rom_is_dir: bool, rom_opens: bool) -> (r: Result<(), (i32, Option<EmuError>)>)
    ensures
        cli.debug && cli.verbose ==> (r matches Err((1i32, Some(EmuError::Impossible(m))))
            && m@ == debug_verbose_conflict()),
        !(cli.debug && cli.verbose) && rom_is_dir ==> r matches Err((1i32, Some(EmuError::IsDirectory()))),
        !(cli.debug && cli.verbose) && !rom_is_dir && !rom_opens && cli.rom@.len() == 0
            ==> r matches Err((0i32, None)),
        !(cli.debug && cli.verbose) && !rom_is_dir && !rom_opens && cli.rom@.len() != 0
            ==> r matches Err((1i32, Some(EmuError::FileNotFound()))),
        !(cli.debug && cli.verbose) && !rom_is_dir && rom_opens ==> r is Ok,
{
    if cli.debug && cli.verbose {
        return Err((1, Some(EmuError::Impossible(string_from("Cannot have both debug and verbose flags")))));
    }
    if rom_is_dir {
        return Err((1, Some(EmuError::IsDirectory())));
    }
    if !rom_opens {
        if cli.rom.as_str().unicode_len() == 0 {
            return Err((0, None));
        }
        return Err((1, Some(EmuError::FileNotFound())));
    }
    Ok(())
}

} // verus!
