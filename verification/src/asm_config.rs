//! The command-line configuration of the assembler.
use vstd::prelude::*;
use crate::text::string_from;

verus! {

/// The options of the assembler.
pub struct Args {
    /// Output binary name.
    pub output: Option<String>,
    /// Source code.
    pub source: String,
    /// Verbose output.
    pub verbose: bool,
    /// Disable version and start information in the binary.
    pub thin: bool,
}

/// The configuration from parsed options: the output defaults to `a.out`.
pub fn declare_config(cli: Args) -> (a: Args)
    ensures
        a.source@ == cli.source@,
        a.verbose == cli.verbose,
        a.thin == cli.thin,
        a.output matches Some(o) && o@ == match cli.output {
            Some(given) => given@,
            None => "a.out"@,
        },
{
    let output = match cli.output {
        Some(o) => o,
        None => string_from("a.out"),
    };
    Args { source: cli.source, output: Some(output), verbose: cli.verbose, thin: cli.thin }
}

} // verus!
