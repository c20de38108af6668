//! The decisions of the BELLE debugger: its commands, its breakpoints and
//! the changes it makes to the machine it debugs.
use vstd::prelude::*;
use crate::cpu::{CPU, CpuView};
use crate::numbers::{parse_u16, parse_u16_hex, parse_u16_hex_spec, parse_u16_spec, parse_usize, parse_usize_spec, parse_u32, parse_u32_spec};
use crate::text::{before_char, chars_of, first_index, is_text, string_of, trim, trimmed};

verus! {

/// A debugging session: the machine, its breakpoints and the ROM's path.
pub struct BDB {
    pub dbgcpu: CPU,
    pub breakpoints: Vec<u16>,
    pub exe: String,
}

/// A command of the debugger.
#[derive(Clone, Copy, Debug, PartialEq, Eq, Structural)]
pub enum Command {
    Quit,
    Help,
    Load,
    Run,
    SetPc,
    PrintMemory,
    WhereBegins,
    Execute,
    PrintAllMemory,
    PrintState,
    Clear,
    Poke,
    SetBreakpoint,
    RemoveBreakpoint,
    PrintBreakpoints,
    ClearBreakpoints,
    Reset,
    Info,
    Unknown,
}

/// The command a word names (lowercase).
pub open spec fn command_spec(w: Seq<char>) -> Command {
    if w == "q"@ || w == "quit"@ || w == ":q"@ {
        Command::Quit
    } else if w == "h"@ || w == "help"@ {
        Command::Help
    } else if w == "l"@ {
        Command::Load
    } else if w == "r"@ || w == "run"@ {
        Command::Run
    } else if w == "spc"@ {
        Command::SetPc
    } else if w == "p"@ || w == "pmem"@ {
        Command::PrintMemory
    } else if w == "wb"@ {
        Command::WhereBegins
    } else if w == "e"@ || w == "exc"@ {
        Command::Execute
    } else if w == "a"@ {
        Command::PrintAllMemory
    } else if w == "w"@ {
        Command::PrintState
    } else if w == "cls"@ || w == "clear"@ {
        Command::Clear
    } else if w == "pk"@ {
        Command::Poke
    } else if w == "b"@ {
        Command::SetBreakpoint
    } else if w == "br"@ {
        Command::RemoveBreakpoint
    } else if w == "bp"@ {
        Command::PrintBreakpoints
    } else if w == "ba"@ {
        Command::ClearBreakpoints
    } else if w == "rs"@ {
        Command::Reset
    } else if w == "i"@ || w == "info"@ {
        Command::Info
    } else {
        Command::Unknown
    }
}

/// The command of a lowercase word (see `command_spec`).
pub fn command_of(w: &[char]) -> (c: Command)
    ensures
        c == command_spec(w@),
{
    if is_text(w, "q") || is_text(w, "quit") || is_text(w, ":q") {
        Command::Quit
    } else if is_text(w, "h") || is_text(w, "help") {
        Command::Help
    } else if is_text(w, "l") {
        Command::Load
    } else if is_text(w, "r") || is_text(w, "run") {
        Command::Run
    } else if is_text(w, "spc") {
        Command::SetPc
    } else if is_text(w, "p") || is_text(w, "pmem") {
        Command::PrintMemory
    } else if is_text(w, "wb") {
        Command::WhereBegins
    } else if is_text(w, "e") || is_text(w, "exc") {
        Command::Execute
    } else if is_text(w, "a") {
        Command::PrintAllMemory
    } else if is_text(w, "w") {
        Command::PrintState
    } else if is_text(w, "cls") || is_text(w, "clear") {
        Command::Clear
    } else if is_text(w, "pk") {
        Command::Poke
    } else if is_text(w, "b") {
        Command::SetBreakpoint
    } else if is_text(w, "br") {
        Command::RemoveBreakpoint
    } else if is_text(w, "bp") {
        Command::PrintBreakpoints
    } else if is_text(w, "ba") {
        Command::ClearBreakpoints
    } else if is_text(w, "rs") {
        Command::Reset
    } else if is_text(w, "i") || is_text(w, "info") {
        Command::Info
    } else {
        Command::Unknown
    }
}

/// The part of a command line after its first space (empty without one).
pub open spec fn after_space(s: Seq<char>) -> Seq<char> {
    match first_index(s, ' ') {
        Some(k) => s.subrange(k + 1, s.len() as int),
        None => Seq::empty(),
    }
}

/// A command line split at its first space into the command and its
/// argument (`splitn(2, ' ')`).
pub fn parse_command(input: &str) -> (r: (String, String))
    ensures
        r.0@ == before_char(input@, ' '),
        r.1@ == after_space(input@),
{
    let cs = chars_of(input);
    let n = cs.len();
    match crate::text::find_char(cs.as_slice(), ' ') {
        Some(k) => {
            let cmd = string_of(cs.as_slice(), 0, k);
            let arg = string_of(cs.as_slice(), k + 1, n);
            assert(cs@.subrange(0, k as int) =~= cs@.take(k as int));
            (cmd, arg)
        },
        None => {
            let cmd = string_of(cs.as_slice(), 0, cs.len());
            assert(cs@.subrange(0, cs@.len() as int) =~= cs@);
            (cmd, String::new())
        },
    }
}

/// The address that a debugger command names: a number, `0x` introducing
/// hexadecimal and `0b` binary, read as typed.
pub fn parse_number(input: &str) -> (r: Option<usize>)
    ensures
        r == parse_usize_spec(input@),
{
    let cs = chars_of(input);
    assert(cs@.subrange(0, cs@.len() as int) =~= cs@);
    parse_usize(cs.as_slice(), 0, cs.len())
}

/// The clock cycle that an `info` command names: a decimal number, read
/// as typed.
pub fn parse_clock(input: &str) -> (r: Option<u32>)
    ensures
        r == parse_u32_spec(input@),
{
    let cs = chars_of(input);
    assert(cs@.subrange(0, cs@.len() as int) =~= cs@);
    parse_u32(cs.as_slice(), 0, cs.len())
}

/// Whether every memory cell of a machine reads as zero.
pub open spec fn memory_blank(s: CpuView) -> bool {
    forall|a: int| 0 <= a < s.memory.len() ==> (#[trigger] s.memory[a]) is None || s.memory[a] == Some(0u16)
}

/// Why the program counter could not be set.
#[derive(Clone, Copy, Debug, PartialEq, Eq, Structural)]
pub enum PcError {
    /// Nothing has been loaded.
    EmptyMemory,
    /// The argument is not a number.
    NotANumber,
}

impl BDB {
    /// A session on a fresh machine in debugging mode.
    pub fn new(executable_path: &str) -> (b: BDB)
        ensures
            b.dbgcpu.wf(),
            b.dbgcpu@ == (CpuView { debugging: true, ..CPU::initial() }),
            b.breakpoints@.len() == 0,
            b.exe@ == executable_path@,
    {
        let mut dbgcpu = CPU::new();
        dbgcpu.debugging = true;
        BDB { dbgcpu, exe: crate::text::string_from(executable_path), breakpoints: Vec::new() }
    }

    /// Replaces the machine by a fresh one in debugging mode.
    pub fn reset_cpu(&mut self)
        ensures
            final(self).dbgcpu.wf(),
            final(self).dbgcpu@ == (CpuView { debugging: true, ..CPU::initial() }),
            final(self).breakpoints == old(self).breakpoints,
            final(self).exe == old(self).exe,
    {
        self.dbgcpu = CPU::new();
        self.dbgcpu.debugging = true;
    }

    /// Whether nothing has been loaded: every memory cell reads as zero.
    pub fn memory_is_empty(&self) -> (b: bool)
        requires
            self.dbgcpu.wf(),
        ensures
            b == memory_blank(self.dbgcpu@),
    {
        let mut a: usize = 0;
        while a < self.dbgcpu.memory.len()
            invariant
                a <= self.dbgcpu.memory@.len(),
                forall|j: int| 0 <= j < a ==> (#[trigger] self.dbgcpu.memory@[j]) is None || self.dbgcpu.memory@[j] == Some(0u16),
            decreases self.dbgcpu.memory@.len() - a,
        {
            match self.dbgcpu.memory[a] {
                None => {},
                Some(v) => {
                    if v != 0 {
                        return false;
                    }
                },
            }
            a = a + 1;
        }
        true
    }

    /// Adds a breakpoint at the hexadecimal address `arg`; gives the address,
    /// or `None` (changing nothing) when `arg` is not one.
    pub fn handle_set_breakpoint(&mut self, arg: &str) -> (r: Option<u16>)
        ensures
            r == parse_u16_hex_spec(trimmed(arg@)),
            r matches Some(n) ==> final(self).breakpoints@ == old(self).breakpoints@.push(n),
            r is None ==> final(self).breakpoints@ == old(self).breakpoints@,
            final(self).dbgcpu == old(self).dbgcpu,
    {
        let cs = chars_of(arg);
        let t = trim(cs.as_slice());
        assert(t@.subrange(0, t@.len() as int) =~= t@);
        let r = parse_u16_hex(t.as_slice(), 0, t.len());
        if let Some(n) = r {
            self.breakpoints.push(n);
        }
        r
    }

    /// Removes every breakpoint at the hexadecimal address `arg`; gives the
    /// address, or `None` (changing nothing) when `arg` is not one.
    pub fn handle_remove_breakpoint(&mut self, arg: &str) -> (r: Option<u16>)
        ensures
            r == parse_u16_hex_spec(trimmed(arg@)),
            r matches Some(n) ==> final(self).breakpoints@ == old(self).breakpoints@.filter(|x: u16| x != n),
            r is None ==> final(self).breakpoints@ == old(self).breakpoints@,
            final(self).dbgcpu == old(self).dbgcpu,
    {
        let cs = chars_of(arg);
        let t = trim(cs.as_slice());
        assert(t@.subrange(0, t@.len() as int) =~= t@);
        let r = parse_u16_hex(t.as_slice(), 0, t.len());
        if let Some(n) = r {
            let ghost old_b = self.breakpoints@;
            let mut kept: Vec<u16> = Vec::new();
            let mut i: usize = 0;
            while i < self.breakpoints.len()
                invariant
                    i <= old_b.len(),
                    self.breakpoints@ == old_b,
                    kept@ == old_b.take(i as int).filter(|x: u16| x != n),
                decreases old_b.len() - i,
            {
                let x = self.breakpoints[i];
                proof {
                    reveal_with_fuel(Seq::<_>::filter, 1);
                    assert(old_b.take(i + 1).drop_last() =~= old_b.take(i as int));
                }
                if x != n {
                    kept.push(x);
                }
                i = i + 1;
            }
            assert(old_b.take(old_b.len() as int) =~= old_b);
            self.breakpoints = kept;
        }
        r
    }

    /// Whether the machine stands at a breakpoint.
    pub fn at_breakpoint(&self) -> (b: bool)
        ensures
            b == self.breakpoints@.contains(self.dbgcpu.pc),
    {
        let mut i: usize = 0;
        while i < self.breakpoints.len()
            invariant
                i <= self.breakpoints@.len(),
                forall|j: int| 0 <= j < i ==> self.breakpoints@[j] != self.dbgcpu.pc,
            decreases self.breakpoints@.len() - i,
        {
            if self.breakpoints[i] == self.dbgcpu.pc {
                return true;
            }
            i = i + 1;
        }
        false
    }

    /// Sets the program counter to the number `arg` (decimal, `0x` or
    /// `0b`), unless nothing has been loaded or `arg` is not a number.
    pub fn handle_set_pc(&mut self, arg: &str) -> (r: Result<u16, PcError>)
        requires
            old(self).dbgcpu.wf(),
        ensures
            final(self).dbgcpu.wf(),
            memory_blank(old(self).dbgcpu@) ==> r == Err::<u16, PcError>(PcError::EmptyMemory),
            !memory_blank(old(self).dbgcpu@) ==> r == match parse_u16_spec(trimmed(arg@)) {
                Some(n) => Ok::<u16, PcError>(n),
                None => Err(PcError::NotANumber),
            },
            r matches Ok(n) ==> final(self).dbgcpu@ == (CpuView { pc: n, ..old(self).dbgcpu@ }),
            r is Err ==> final(self).dbgcpu@ == old(self).dbgcpu@,
            final(self).breakpoints == old(self).breakpoints,
    {
        if self.memory_is_empty() {
            return Err(PcError::EmptyMemory);
        }
        let cs = chars_of(arg);
        let t = trim(cs.as_slice());
        assert(t@.subrange(0, t@.len() as int) =~= t@);
        match parse_u16(t.as_slice(), 0, t.len()) {
            Some(n) => {
                self.dbgcpu.pc = n;
                Ok(n)
            },
            None => Err(PcError::NotANumber),
        }
    }

    /// Writes the number `value` (decimal, `0x` or `0b`; read as typed, so a
    /// trailing newline makes it fail) into memory at `address`; gives the
    /// value, or `None` (changing nothing) when it does not parse.
    pub fn poke_value(&mut self, address: usize, value: &str) -> (r: Option<u16>)
        requires
            old(self).dbgcpu.wf(),
            address < crate::cpu::MEMORY_SIZE,
        ensures
            final(self).dbgcpu.wf(),
            r == parse_u16_spec(value@),
            r matches Some(v) ==> final(self).dbgcpu@ == (CpuView {
                memory: old(self).dbgcpu@.memory.update(address as int, Some(v)),
                ..old(self).dbgcpu@
            }),
            r is None ==> final(self).dbgcpu@ == old(self).dbgcpu@,
            final(self).breakpoints == old(self).breakpoints,
    {
        let cs = chars_of(value);
        assert(cs@.subrange(0, cs@.len() as int) =~= cs@);
        let r = parse_u16(cs.as_slice(), 0, cs.len());
        if let Some(v) = r {
            self.dbgcpu.memory.set(address, Some(v));
        }
        r
    }
}

} // verus!
