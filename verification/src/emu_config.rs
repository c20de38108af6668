//! The command-line configuration of the emulator.
use vstd::prelude::*;

verus! {

/// The options of the emulator.
pub struct Cli {
    /// Path to the ROM.
    pub rom: String,
    /// Verbose output.
    pub verbose: bool,
    /// Enter the debugger.
    pub debug: bool,
    /// Clock delay (milliseconds).
    pub time_delay: Option<u32>,
    /// Print the state of the CPU when it halts.
    pub pretty: bool,
    /// Write a crash to a file.
    pub write: bool,
    /// Do not print memory.
    pub no_print_memory: bool,
    /// Print the CPU state compactly.
    pub compact_print: bool,
    /// No display.
    pub no_display: bool,
    /// Print execution time and cycles.
    pub benchmark: bool,
}

/// The configuration: the parsed options, or, without a command line, no
/// ROM, no display and every other option off.
pub fn declare_config(parsed: Option<Cli>) -> (c: Cli)
    ensures
        parsed is Some ==> c == parsed.unwrap(),
        parsed is None ==> c.rom@.len() == 0 && !c.debug && !c.verbose && c.time_delay is None
            && !c.pretty && !c.write && !c.no_print_memory && !c.compact_print && c.no_display
            && !c.benchmark,
{
    match parsed {
        Some(c) => c,
        None => Cli {
            rom: String::new(),
            debug: false,
            verbose: false,
            time_delay: None,
            pretty: false,
            write: false,
            no_print_memory: false,
            compact_print: false,
            no_display: true,
            benchmark: false,
        },
    }
}

} // verus!
