//! The rule of `pwd`: which form of the working directory to print.

use vstd::prelude::*;

verus! {

/// The options of `pwd`.
#[derive(Clone, Copy, Debug)]
pub struct Cli {
    /// `-L`: print the path as the environment has it.
    pub default: bool,
    /// `-P`: print the path with every symbolic link resolved.
    pub no_symbolic: bool,
}

/// The form in which the working directory is printed.
#[derive(Clone, Copy, Debug, PartialEq, Eq, Structural)]
pub enum PathForm {
    /// As the environment has it, symbolic links included.
    Logical,
    /// With every symbolic link resolved.
    Physical,
}

/// The physical path is printed only when `-P` was given and `-L` was not.
pub open spec fn chosen_form(config: Cli) -> PathForm {
    if config.default || !config.no_symbolic {
        PathForm::Logical
    } else {
        PathForm::Physical
    }
}

impl Cli {
    /// Options as given on the command line.
    pub fn new(default: bool, no_symbolic: bool) -> (config: Cli)
        ensures
            config == (Cli { default, no_symbolic }),
    {
        Cli { default, no_symbolic }
    }
}

/// Decides which form of the working directory to print. Finding the
/// directory, resolving it and printing it are the caller's.
pub fn run(config: &Cli) -> (form: PathForm)
    ensures
        form == chosen_form(*config),
{
    if config.default || !config.no_symbolic {
        PathForm::Logical
    } else {
        PathForm::Physical
    }
}

} // verus!
