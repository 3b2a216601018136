use vstd::prelude::*;

verus! {

/// The structural failures the library reports.
///
/// `OutOfBounds` marks a position lookup or write outside the grid extent;
/// `MalformedRule` marks a rewrite rule whose pattern and replacement do not
/// line up at registration time. A step that finds nothing to rewrite is not
/// an error: it is reported through `StepOutcome::NoCandidates`.
#[derive(Clone, Copy, PartialEq, Eq, Structural, Debug)]
pub enum PipesError {
    OutOfBounds,
    MalformedRule,
}

impl PipesError {
    /// A short description of the failure, for hosts that log it.
    pub fn describe(&self) -> (r: &'static str)
        ensures
            self is OutOfBounds ==> r@ == "position outside the grid"@,
            self is MalformedRule ==> r@ == "pattern and replacement lengths differ"@,
    {
        match self {
            PipesError::OutOfBounds => "position outside the grid",
            PipesError::MalformedRule => "pattern and replacement lengths differ",
        }
    }
}

} // verus!
