//! The top-level invocation: which command this run carries out.

use vstd::prelude::*;

use crate::commands::Command;

verus! {

/// A parsed invocation of the program.
#[derive(Debug, Copy, Clone, PartialEq, Eq, Structural)]
pub struct Args {
    pub command: Command,
}

} // verus!
