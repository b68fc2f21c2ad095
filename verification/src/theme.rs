//! The two appearance modes a desktop can be switched to, and the
//! arguments of the manual set operation.

use vstd::prelude::*;

verus! {

/// An appearance mode.
#[derive(Debug, Copy, Clone, PartialEq, Eq, Structural)]
pub enum Theme {
    Light,
    Dark,
}

/// Arguments to the manual set operation: which theme to switch to.
#[derive(Debug, Copy, Clone, PartialEq, Eq, Structural)]
pub struct Args {
    pub theme: Theme,
}

} // verus!
