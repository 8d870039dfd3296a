//! The arguments of the command line.

use vstd::prelude::*;

verus! {

/// What the command line must name.
#[derive(Debug)]
pub struct CliArgs {
    pub input_file_path: String,
}

/// Why the command line cannot be used.
#[derive(Debug, PartialEq, Eq, Clone, Copy, Structural)]
pub enum CliError {
    /// No argument follows the program's name.
    InputFileNotPassed,
}

impl CliError {
    /// The diagnostic to print.
    pub fn to_text(&self) -> (r: String)
        ensures
            r@ == "Input file not passed"@,
    {
        "Input file not passed".to_owned()
    }
}

impl CliArgs {
    /// Reads the arguments as the program received them, its own name
    /// first: the input file's path is the argument after the name.
    pub fn load(args: &Vec<String>) -> (r: Result<CliArgs, CliError>)
        ensures
            match r {
                Ok(cli_args) => args.len() > 1 && cli_args.input_file_path@ == args[1]@,
                Err(error) => args.len() <= 1 && error == CliError::InputFileNotPassed,
            },
    {
        if args.len() > 1 {
            Ok(CliArgs { input_file_path: args[1].clone() })
        } else {
            Err(CliError::InputFileNotPassed)
        }
    }
}

} // verus!
