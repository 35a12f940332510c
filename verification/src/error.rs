//! Why a layout could not be generated.

use vstd::prelude::*;

verus! {

/// The ways in which generation fails.
#[derive(Clone, Copy, Debug, PartialEq, Eq, Structural)]
pub enum GenerationError {
    /// More rooms were asked for than the catalog has names.
    CapacityExceedsCatalog,
    /// There are too few rooms for any of them to reach the minimum degree.
    DegreeBoundsIncompatible,
    /// A random choice found no admissible candidate within the attempts
    /// it was allowed.
    Stalled,
}

/// The sentence that explains an error.
pub open spec fn error_text(error: GenerationError) -> Seq<char> {
    match error {
        GenerationError::CapacityExceedsCatalog => "capacity exceeds the number of room names"@,
        GenerationError::DegreeBoundsIncompatible => "too few rooms to reach the minimum degree"@,
        GenerationError::Stalled => "graph not generable with these parameters"@,
    }
}

impl GenerationError {
    /// The sentence that explains this error.
    pub fn message(&self) -> (text: &'static str)
        ensures
            text@ == error_text(*self),
    {
        match self {
            GenerationError::CapacityExceedsCatalog => "capacity exceeds the number of room names",
            GenerationError::DegreeBoundsIncompatible => "too few rooms to reach the minimum degree",
            GenerationError::Stalled => "graph not generable with these parameters",
        }
    }
}

} // verus!
