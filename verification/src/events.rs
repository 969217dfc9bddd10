//! The parts of the program that can report a change to the user interface.
use vstd::prelude::*;

verus! {

/// What changed.
#[derive(PartialEq, Eq, Structural, Debug, Clone, Copy)]
pub enum EventSource {
    Archives,
    Downloads,
    Installed,
    Log,
    RequestCounter,
}

} // verus!
