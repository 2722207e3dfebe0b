//! Plain forms of the command-line argument records.  The binary around the
//! library parses the real command line and hands these values in.

use vstd::prelude::*;

verus! {

/// Which kind of concrete input a run works on.
#[derive(Clone, Copy, Debug, PartialEq, Eq, Structural)]
pub enum FileType {
    Json,
    Http,
    Extended,
}

/// Top-level command record.
pub struct Args {
    pub command: Command,
}

/// The two subcommands.
pub enum Command {
    Witness(WitnessType),
    Codegen(ExtractorArgs),
}

/// Which witness a witness run builds.
pub enum WitnessType {
    Parser(ParserWitnessArgs),
    Extractor(ExtractorWitnessArgs),
}

/// Arguments of a parser-witness run.
pub struct ParserWitnessArgs {
    pub subcommand: FileType,
    pub input_file: String,
    pub circuit_name: String,
}

/// Arguments of an extractor-witness run.
pub struct ExtractorWitnessArgs {
    pub subcommand: FileType,
    pub circuit_name: String,
    pub input_file: String,
    pub lockfile: String,
}

/// Arguments of a code-generation run.
pub struct ExtractorArgs {
    pub subcommand: FileType,
    pub circuit_name: String,
    pub input_file: String,
    pub lockfile: String,
    pub debug: bool,
}

impl ExtractorArgs {
    /// The input kind this run generates for.
    pub fn subcommand(&self) -> (r: FileType)
        ensures
            r == self.subcommand,
    {
        self.subcommand.clone()
    }
}

} // verus!
