//! Command line argument flags.

use vstd::prelude::*;

verus! {

/// Command line argument flags.
///
/// `gen_crd` asks the program to emit the resource schema and exit instead
/// of starting the control loop.
#[derive(Debug, Clone, Copy)]
pub struct CliArgs {
    pub gen_crd: bool,
}

} // verus!
