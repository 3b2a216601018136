use vstd::prelude::*;

use crate::grid::{spec_pos_from, Grid, Position};
use crate::kind::Pipe;
use crate::kind::PipeKind;
use crate::rules::{
    apply_element, kind_matches, spec_apply_element, spec_kind_matches, spec_matches_at,
    GenerationRule,
};

verus! {

/// What one triggered step reports back to the host: the cells it rewrote
/// (with their new states, for the presentation layer to apply), the
/// explicit signal that nothing matched, or the grid-reset event of the
/// saturation cycle.
#[derive(PartialEq, Debug)]
pub enum StepOutcome {
    Changed(Vec<(Position, Option<Pipe>)>),
    NoCandidates,
    Reset,
}

/// The Random Source outputs one triggered step consumes: `selector`
/// picks one candidate among all that apply, `branch` decides the
/// probabilistic kind branches of the growth policy. The core only ever
/// consumes such draws; it never produces randomness of its own, so a step
/// is a pure function of the grid, the rules and these two values.
#[derive(Clone, Copy, PartialEq, Eq, Structural, Debug)]
pub struct RandomInput {
    pub selector: u64,
    pub branch: u64,
}

/// The cells after one replacement is written over offset `i`: inside the
/// replaced span each element is rewritten, outside it the cells stand.
pub open spec fn spec_substitute(
    repl: Seq<PipeKind>,
    cells: Seq<Option<Pipe>>,
    i: int,
) -> Seq<Option<Pipe>> {
    Seq::new(
        cells.len(),
        |j: int|
            if i <= j < i + repl.len() {
                spec_apply_element(repl[j - i], cells[j])
            } else {
                cells[j]
            },
    )
}

/// One left-to-right pass of a single rule over the linear cells, starting
/// at offset `i`: at each offset the pattern either matches and the
/// replacement is substituted, with the scan advancing past the whole span
/// (no overlapping rewrites), or the scan advances one cell. Yields the
/// rewritten cells and whether the rule fired at least once.
pub open spec fn spec_rule_pass(
    pattern: Seq<PipeKind>,
    repl: Seq<PipeKind>,
    cells: Seq<Option<Pipe>>,
    i: int,
) -> (Seq<Option<Pipe>>, bool)
    decreases cells.len() - i,
    when 0 <= i && 1 <= pattern.len()
{
    if i + pattern.len() > cells.len() {
        (cells, false)
    } else if spec_matches_at(pattern, cells, i) {
        let rec = spec_rule_pass(pattern, repl, spec_substitute(repl, cells, i), i + pattern.len());
        (rec.0, true)
    } else {
        spec_rule_pass(pattern, repl, cells, i + 1)
    }
}

/// All rules from index `k` on applied in order, each as one whole pass
/// over the cells the earlier rules produced (sequential rewrite, not
/// simultaneous). A rule that fired and carries the interrupt flag stops
/// the remaining rules. Yields the final cells and whether any rule fired.
pub open spec fn spec_rules_pass(
    rules: Seq<GenerationRule>,
    cells: Seq<Option<Pipe>>,
    k: int,
) -> (Seq<Option<Pipe>>, bool)
    decreases rules.len() - k,
    when 0 <= k && (forall|t: int| 0 <= t < rules.len() ==> (#[trigger] rules[t]).wf())
{
    if k >= rules.len() {
        (cells, false)
    } else {
        let one = spec_rule_pass(rules[k].pattern@, rules[k].replacement@, cells, 0);
        if one.1 && rules[k].interrupt {
            (one.0, true)
        } else {
            let rest = spec_rules_pass(rules, one.0, k + 1);
            (rest.0, one.1 || rest.1)
        }
    }
}

/// A pass that did not fire left the cells exactly as they were.
pub proof fn lemma_rule_pass_unfired(
    pattern: Seq<PipeKind>,
    repl: Seq<PipeKind>,
    cells: Seq<Option<Pipe>>,
    i: int,
)
    requires
        0 <= i,
        1 <= pattern.len(),
        !spec_rule_pass(pattern, repl, cells, i).1,
    ensures
        spec_rule_pass(pattern, repl, cells, i).0 == cells,
    decreases cells.len() - i,
{
    if i + pattern.len() > cells.len() {
    } else if spec_matches_at(pattern, cells, i) {
    } else {
        lemma_rule_pass_unfired(pattern, repl, cells, i + 1);
    }
}

/// A run of rule passes in which no rule fired left the cells exactly as
/// they were.
pub proof fn lemma_rules_pass_unfired(rules: Seq<GenerationRule>, cells: Seq<Option<Pipe>>, k: int)
    requires
        0 <= k,
        forall|t: int| 0 <= t < rules.len() ==> (#[trigger] rules[t]).wf(),
        !spec_rules_pass(rules, cells, k).1,
    ensures
        spec_rules_pass(rules, cells, k).0 == cells,
    decreases rules.len() - k,
{
    if k >= rules.len() {
    } else {
        let one = spec_rule_pass(rules[k].pattern@, rules[k].replacement@, cells, 0);
        lemma_rule_pass_unfired(rules[k].pattern@, rules[k].replacement@, cells, 0);
        lemma_rules_pass_unfired(rules, one.0, k + 1);
    }
}

/// Equality of two cells, decided structurally.
pub fn cell_eq(a: &Option<Pipe>, b: &Option<Pipe>) -> (r: bool)
    ensures
        r == (*a == *b),
{
    match (a, b) {
        (None, None) => true,
        (Some(x), Some(y)) => *x == *y,
        _ => false,
    }
}

/// The change list between two linear grid forms of one grid: the
/// positions whose cell differs, in row-major order, each with its new
/// state.
pub open spec fn spec_diff_upto(
    w: int,
    before: Seq<Option<Pipe>>,
    after: Seq<Option<Pipe>>,
    i: int,
) -> Seq<(Position, Option<Pipe>)>
    decreases i,
{
    if i <= 0 {
        Seq::empty()
    } else if before[i - 1] == after[i - 1] {
        spec_diff_upto(w, before, after, i - 1)
    } else {
        spec_diff_upto(w, before, after, i - 1).push((spec_pos_from(w, i - 1), after[i - 1]))
    }
}

/// One pass of a single rule, on the linear cell vector in place.
fn rule_pass(pattern: &Vec<PipeKind>, repl: &Vec<PipeKind>, cells: &mut Vec<Option<Pipe>>) -> (fired:
    bool)
    requires
        pattern@.len() == repl@.len(),
        1 <= pattern@.len(),
        forall|t: int|
            0 <= t < old(cells)@.len() ==> (#[trigger] old(cells)@[t] matches Some(p)
                ==> p.spec_storable()),
    ensures
        final(cells)@ == spec_rule_pass(pattern@, repl@, old(cells)@, 0).0,
        fired == spec_rule_pass(pattern@, repl@, old(cells)@, 0).1,
        final(cells)@.len() == old(cells)@.len(),
        forall|t: int|
            0 <= t < final(cells)@.len() ==> (#[trigger] final(cells)@[t] matches Some(p)
                ==> p.spec_storable()),
{
    let ghost orig = cells@;
    let ghost full = spec_rule_pass(pattern@, repl@, orig, 0);
    let n: usize = cells.len();
    let plen: usize = pattern.len();
    let mut fired: bool = false;
    let mut i: usize = 0;
    while i <= n && plen <= n - i
        invariant
            i <= n,
            n == cells@.len(),
            plen == pattern@.len(),
            pattern@.len() == repl@.len(),
            1 <= plen,
            forall|t: int|
                0 <= t < cells@.len() ==> (#[trigger] cells@[t] matches Some(p)
                    ==> p.spec_storable()),
            full == spec_rule_pass(pattern@, repl@, orig, 0),
            ({
                let rec = spec_rule_pass(pattern@, repl@, cells@, i as int);
                full == (rec.0, fired || rec.1)
            }),
        decreases n - i,
    {
        // Does the pattern match at offset i?
        let mut matches_here: bool = true;
        let mut j: usize = 0;
        while j < plen
            invariant
                j <= plen,
                i + plen <= n,
                n == cells@.len(),
                plen == pattern@.len(),
                matches_here ==> (forall|t: int|
                    0 <= t < j ==> spec_kind_matches(pattern@[t], #[trigger] cells@[i + t])),
                !matches_here ==> !spec_matches_at(pattern@, cells@, i as int),
            decreases plen - j,
        {
            if !kind_matches(pattern[j], &cells[i + j]) {
                proof {
                    assert(!spec_kind_matches(pattern@[j as int], cells@[i + j]));
                }
                matches_here = false;
            }
            j = j + 1;
        }
        if matches_here {
            proof {
                assert(spec_matches_at(pattern@, cells@, i as int));
            }
            let ghost snap = cells@;
            // Substitute the replacement over the matched span.
            let mut j2: usize = 0;
            while j2 < plen
                invariant
                    j2 <= plen,
                    i + plen <= n,
                    n == cells@.len(),
                    plen == repl@.len(),
                    snap.len() == n,
                    forall|t: int| i + j2 <= t < n ==> #[trigger] cells@[t] == snap[t],
                    forall|t: int|
                        0 <= t < i + j2 ==> #[trigger] cells@[t] == spec_substitute(
                            repl@,
                            snap,
                            i as int,
                        )[t],
                decreases plen - j2,
            {
                let v = apply_element(repl[j2], cells[i + j2]);
                cells.set(i + j2, v);
                j2 = j2 + 1;
            }
            proof {
                assert(cells@ =~= spec_substitute(repl@, snap, i as int));
                assert forall|t: int|
                    0 <= t < cells@.len() implies (#[trigger] cells@[t] matches Some(p)
                    ==> p.spec_storable()) by {
                    if i <= t < i + repl@.len() {
                        crate::rules::lemma_apply_element_storable(repl@[t - i], snap[t]);
                    }
                }
            }
            fired = true;
            i = i + plen;
        } else {
            proof {
                assert(!spec_matches_at(pattern@, cells@, i as int));
            }
            i = i + 1;
        }
    }
    proof {
        assert(spec_rule_pass(pattern@, repl@, cells@, i as int) == (cells@, false));
    }
    fired
}

/// Whole-grid linear rewrite: serialize the grid row-major, run every rule
/// once over the sequence in registration order (each rule scanning
/// left-to-right without overlaps, later rules seeing what earlier ones
/// produced, an interrupting rule that fired stopping the rest), and write
/// the result back. Reports the changed cells, or `NoCandidates` when no
/// rule matched anywhere, in which case the grid is untouched.
pub fn rewrite_linear(grid: &mut Grid, rules: &Vec<GenerationRule>) -> (r: StepOutcome)
    requires
        old(grid).wf(),
        forall|t: int| 0 <= t < rules@.len() ==> (#[trigger] rules@[t]).wf(),
    ensures
        final(grid).wf(),
        final(grid).spec_width() == old(grid).spec_width(),
        final(grid).spec_height() == old(grid).spec_height(),
        final(grid)@ == spec_rules_pass(rules@, old(grid)@, 0).0,
        r is NoCandidates <==> !spec_rules_pass(rules@, old(grid)@, 0).1,
        r is NoCandidates ==> final(grid)@ == old(grid)@,
        r matches StepOutcome::Changed(ch) ==> ch@ == spec_diff_upto(
            old(grid).spec_width() as int,
            old(grid)@,
            final(grid)@,
            old(grid)@.len() as int,
        ),
        !(r is Reset),
{
    let ghost orig = grid@;
    let before = grid.to_linear();
    let mut cells = grid.to_linear();
    let mut fired_any: bool = false;
    let mut stopped: bool = false;
    let mut k: usize = 0;
    let ghost full = spec_rules_pass(rules@, orig, 0);
    while k < rules.len() && !stopped
        invariant
            k <= rules@.len(),
            forall|t: int| 0 <= t < rules@.len() ==> (#[trigger] rules@[t]).wf(),
            cells@.len() == orig.len(),
            forall|t: int|
                0 <= t < cells@.len() ==> (#[trigger] cells@[t] matches Some(p)
                    ==> p.spec_storable()),
            full == spec_rules_pass(rules@, orig, 0),
            !stopped ==> ({
                let rec = spec_rules_pass(rules@, cells@, k as int);
                full == (rec.0, fired_any || rec.1)
            }),
            stopped ==> full == (cells@, true) && fired_any,
        decreases rules@.len() - k + (if stopped { 0int } else { 1int }),
    {
        let rule = &rules[k];
        let f = rule_pass(&rule.pattern, &rule.replacement, &mut cells);
        if f && rule.interrupt {
            fired_any = true;
            stopped = true;
        } else {
            fired_any = fired_any || f;
            k = k + 1;
        }
    }
    proof {
        assert(full == (cells@, fired_any));
    }
    if !fired_any {
        proof {
            lemma_rules_pass_unfired(rules@, orig, 0);
        }
        return StepOutcome::NoCandidates;
    }
    let w = grid.width();
    let h = grid.height();
    *grid = Grid::from_linear(w, h, cells);
    // Collect the cells whose state changed.
    let mut changes: Vec<(Position, Option<Pipe>)> = Vec::new();
    let mut i: usize = 0;
    let n: usize = before.len();
    while i < n
        invariant
            i <= n,
            n == before@.len(),
            before@ == orig,
            grid.wf(),
            grid@.len() == n,
            changes@ == spec_diff_upto(grid.spec_width() as int, before@, grid@, i as int),
        decreases n - i,
    {
        let now = grid.get(grid.position_of(i));
        let cur: Option<Pipe> = match now {
            Ok(c) => c,
            Err(_) => None,
        };
        proof {
            grid.lemma_position_of(i as int);
        }
        if !cell_eq(&before[i], &cur) {
            changes.push((grid.position_of(i), cur));
        }
        i = i + 1;
    }
    StepOutcome::Changed(changes)
}

} // verus!
