use vstd::prelude::*;

use crate::error::PipesError;
use crate::kind::{Pipe, PipeKind};

verus! {

/// One rewrite rule: a pattern of kinds (with `Any` as a wildcard) and an
/// equal-length replacement, evaluated in registration order. The
/// `interrupt` flag short-circuits further rule application once this rule
/// has fired in a whole-grid pass.
#[derive(Clone, Debug)]
pub struct GenerationRule {
    pub pattern: Vec<PipeKind>,
    pub replacement: Vec<PipeKind>,
    pub interrupt: bool,
}

impl GenerationRule {
    /// A usable rule: pattern and replacement line up and are not empty.
    pub open spec fn wf(&self) -> bool {
        self.pattern@.len() == self.replacement@.len() && self.pattern@.len() >= 1
    }

    /// Register a rule. A length mismatch between pattern and replacement,
    /// or an empty pattern, is a construction error (`MalformedRule`),
    /// never silently truncated. The interrupt flag starts cleared.
    pub fn new(pattern: Vec<PipeKind>, replacement: Vec<PipeKind>) -> (r: Result<
        GenerationRule,
        PipesError,
    >)
        ensures
            pattern@.len() == replacement@.len() && pattern@.len() >= 1 ==> (r matches Ok(rule)
                && rule.pattern@ == pattern@ && rule.replacement@ == replacement@
                && rule.interrupt == false),
            !(pattern@.len() == replacement@.len() && pattern@.len() >= 1) ==> (r matches Err(e)
                && e == PipesError::MalformedRule),
    {
        if pattern.len() == replacement.len() && pattern.len() >= 1 {
            Ok(GenerationRule { pattern, replacement, interrupt: false })
        } else {
            Err(PipesError::MalformedRule)
        }
    }

    /// The same rule with the interrupt flag set.
    pub fn with_interrupt(self) -> (r: GenerationRule)
        ensures
            r.pattern@ == self.pattern@,
            r.replacement@ == self.replacement@,
            r.interrupt == true,
            r.wf() == self.wf(),
    {
        GenerationRule { interrupt: true, ..self }
    }
}

/// The kind a stored cell shows to rule patterns: a blank cell matches as
/// `Empty`.
pub open spec fn spec_cell_kind(cell: Option<Pipe>) -> PipeKind {
    match cell {
        Some(p) => p.kind,
        None => PipeKind::Empty,
    }
}

pub fn cell_kind(cell: &Option<Pipe>) -> (r: PipeKind)
    ensures
        r == spec_cell_kind(*cell),
{
    match cell {
        Some(p) => p.kind,
        None => PipeKind::Empty,
    }
}

/// Whether one pattern element accepts a cell: the wildcard accepts any
/// cell, every other element exactly the cells showing its kind.
pub open spec fn spec_kind_matches(pat: PipeKind, cell: Option<Pipe>) -> bool {
    pat is Any || pat == spec_cell_kind(cell)
}

pub fn kind_matches(pat: PipeKind, cell: &Option<Pipe>) -> (r: bool)
    ensures
        r == spec_kind_matches(pat, *cell),
{
    match pat {
        PipeKind::Any => true,
        _ => pat == cell_kind(cell),
    }
}

/// Whether a whole pattern matches the cell sequence at offset `i`.
pub open spec fn spec_matches_at(pattern: Seq<PipeKind>, cells: Seq<Option<Pipe>>, i: int) -> bool {
    &&& 0 <= i
    &&& i + pattern.len() <= cells.len()
    &&& forall|j: int| 0 <= j < pattern.len() ==> spec_kind_matches(pattern[j], #[trigger] cells[i + j])
}

/// What one replacement element writes into a cell: the wildcard leaves the
/// cell as it stands, `Empty` blanks it, and a placeable kind stores a
/// fresh unflipped pipe of that kind.
pub open spec fn spec_apply_element(repl: PipeKind, cell: Option<Pipe>) -> Option<Pipe> {
    match repl {
        PipeKind::Any => cell,
        PipeKind::Empty => None,
        _ => Some(Pipe::spec_new(repl)),
    }
}

pub fn apply_element(repl: PipeKind, cell: Option<Pipe>) -> (r: Option<Pipe>)
    ensures
        r == spec_apply_element(repl, cell),
{
    match repl {
        PipeKind::Any => cell,
        PipeKind::Empty => None,
        _ => Some(Pipe::new(repl)),
    }
}

/// A replacement element applied to a storable cell yields a storable cell.
pub proof fn lemma_apply_element_storable(repl: PipeKind, cell: Option<Pipe>)
    requires
        cell matches Some(p) ==> p.spec_storable(),
    ensures
        spec_apply_element(repl, cell) matches Some(p) ==> p.spec_storable(),
{
}

} // verus!
