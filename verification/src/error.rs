//! The error type of the engine's public entry points.  The simulation is a
//! closed numerical system: nothing in it can fail at run time, so no entry
//! point of this crate ever constructs a value of this type.  The terminal
//! crash condition is a sticky flag on the state, not an error.

use vstd::prelude::*;

verus! {

#[derive(Debug, Clone, Copy, PartialEq, Eq, Structural)]
pub enum GameError {
    /// Present only because the verifier refuses an enum with no variants;
    /// nothing in this crate returns it.
    Never,
}

impl GameError {
    /// Rendering for callers that report errors as text.
    pub fn message(&self) -> String {
        "GameError".to_string()
    }
}

} // verus!
