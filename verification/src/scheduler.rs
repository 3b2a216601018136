use vstd::prelude::*;

use crate::engine::{rewrite_linear, spec_diff_upto, spec_rules_pass, RandomInput, StepOutcome};
use crate::error::PipesError;
use crate::grid::{count_occupied, Grid, Position};
use crate::kind::{Pipe, PipeKind};
use crate::local::{
    lemma_apply_congruent, lemma_candidates_congruent, spec_apply_candidate,
    spec_candidate_changes, spec_candidates, spec_same_state, step_local,
};
use crate::rules::GenerationRule;

verus! {

/// Which rewrite strategy a scheduler drives. The choice is configuration,
/// fixed at construction, not a runtime branch of the engine: the two
/// strategies have different granularity (a whole-grid pass applies every
/// match of every rule; a local step applies exactly one candidate).
#[derive(Clone, Copy, PartialEq, Eq, Structural, Debug)]
pub enum Strategy {
    WholeGrid,
    LocalNeighbor,
}

/// The scheduler's state machine: freshly seeded, growing under the
/// ceiling, or saturated and awaiting the reset trigger.
#[derive(Clone, Copy, PartialEq, Eq, Structural, Debug)]
pub enum Phase {
    Seeded,
    Growing,
    Saturated,
}

/// Everything a simulation is configured with, supplied once at
/// construction: grid dimensions, seed cell, saturation ceiling, rule set,
/// active strategy, and the probability (as `branch_num` in `branch_den`)
/// that an Elbow focus spreads a T instead of a Straight.
#[derive(Clone, Debug)]
pub struct Config {
    pub width: usize,
    pub height: usize,
    pub seed_pos: Position,
    pub seed_kind: PipeKind,
    pub ceiling: usize,
    pub rules: Vec<GenerationRule>,
    pub strategy: Strategy,
    pub branch_num: u64,
    pub branch_den: u64,
}

impl Config {
    /// A usable configuration: positive dimensions whose product fits the
    /// machine, a placeable seed kind, well-formed rules, and a positive
    /// branch denominator.
    pub open spec fn wf(&self) -> bool {
        &&& 1 <= self.width
        &&& 1 <= self.height
        &&& self.width * self.height <= usize::MAX
        &&& self.seed_kind.spec_placeable()
        &&& forall|t: int| 0 <= t < self.rules@.len() ==> (#[trigger] self.rules@[t]).wf()
        &&& 1 <= self.branch_den
    }

    /// Whether the configured seed position lies inside the grid.
    pub open spec fn spec_seed_in_bounds(&self) -> bool {
        self.seed_pos.x < self.width && self.seed_pos.y < self.height
    }

    /// The row-major index of the seed cell.
    pub open spec fn spec_seed_index(&self) -> int {
        self.seed_pos.y * self.width + self.seed_pos.x
    }
}

/// The linear form of a freshly seeded grid: every cell blank except the
/// single seed pipe at the configured position.
pub open spec fn spec_seed_cells(cfg: Config) -> Seq<Option<Pipe>> {
    Seq::new(
        (cfg.width * cfg.height) as nat,
        |j: int|
            if j == cfg.spec_seed_index() {
                Some(Pipe::spec_new(cfg.seed_kind))
            } else {
                None
            },
    )
}

/// The already decided probabilistic branch for an Elbow focus, from the
/// injected branch draw.
pub open spec fn spec_elbow_t(cfg: Config, rng: RandomInput) -> bool {
    (rng.branch as int) % (cfg.branch_den as int) < cfg.branch_num as int
}

/// What one strategy step does to the grid cells: the rewritten cells and
/// whether anything applied. A whole-grid pass applies every match of
/// every rule; a local step applies exactly the one candidate the
/// selector draw picks, or nothing when no candidate exists.
pub open spec fn spec_step(cfg: Config, g: Grid, rng: RandomInput) -> (Seq<Option<Pipe>>, bool) {
    match cfg.strategy {
        Strategy::WholeGrid => spec_rules_pass(cfg.rules@, g@, 0),
        Strategy::LocalNeighbor => {
            let cs = spec_candidates(g, cfg.rules@);
            if cs.len() == 0 {
                (g@, false)
            } else {
                (
                    spec_apply_candidate(
                        g,
                        cfg.rules@,
                        cs[(rng.selector as int) % (cs.len() as int)],
                        spec_elbow_t(cfg, rng),
                    ),
                    true,
                )
            }
        },
    }
}

/// The change list one strategy step reports.
pub open spec fn spec_step_changes(cfg: Config, g: Grid, rng: RandomInput) -> Seq<
    (Position, Option<Pipe>),
> {
    match cfg.strategy {
        Strategy::WholeGrid => spec_diff_upto(
            g.spec_width() as int,
            g@,
            spec_rules_pass(cfg.rules@, g@, 0).0,
            g@.len() as int,
        ),
        Strategy::LocalNeighbor => {
            let cs = spec_candidates(g, cfg.rules@);
            if cs.len() == 0 {
                Seq::empty()
            } else {
                spec_candidate_changes(
                    g,
                    cfg.rules@,
                    cs[(rng.selector as int) % (cs.len() as int)],
                    spec_elbow_t(cfg, rng),
                )
            }
        },
    }
}

/// The scheduler's transition function: one trigger takes (grid, phase)
/// to the next (cells, phase). A saturated scheduler clears the grid and
/// re-places the seed. Otherwise the active strategy takes a step: if
/// nothing applied the state stands; if something applied, the phase
/// becomes Saturated exactly when the occupied count has reached the
/// ceiling, else Growing.
pub open spec fn spec_next(cfg: Config, g: Grid, phase: Phase, rng: RandomInput) -> (
    Seq<Option<Pipe>>,
    Phase,
) {
    if phase is Saturated {
        (spec_seed_cells(cfg), Phase::Seeded)
    } else {
        let st = spec_step(cfg, g, rng);
        if !st.1 {
            (g@, phase)
        } else {
            (
                st.0,
                if count_occupied(st.0) >= cfg.ceiling {
                    Phase::Saturated
                } else {
                    Phase::Growing
                },
            )
        }
    }
}

/// The growth scheduler: one simulation's configuration, its grid, and
/// its phase. The grid is exclusively owned and mutated by `advance`; a
/// step is an atomic synchronous transformation from one snapshot to the
/// next.
pub struct Scheduler {
    config: Config,
    grid: Grid,
    phase: Phase,
}

impl Scheduler {
    pub closed spec fn spec_config(&self) -> Config {
        self.config
    }

    pub closed spec fn spec_grid(&self) -> Grid {
        self.grid
    }

    pub closed spec fn spec_phase(&self) -> Phase {
        self.phase
    }

    /// A well-formed scheduler: usable configuration, seed inside the
    /// grid, and a well-formed grid of the configured dimensions.
    pub open spec fn wf(&self) -> bool {
        &&& self.spec_config().wf()
        &&& self.spec_config().spec_seed_in_bounds()
        &&& self.spec_grid().wf()
        &&& self.spec_grid().spec_width() == self.spec_config().width
        &&& self.spec_grid().spec_height() == self.spec_config().height
    }

    /// Build a scheduler over a freshly seeded grid. A seed position
    /// outside the configured bounds is a configuration bug, surfaced
    /// immediately as `OutOfBounds`, exactly when it happens.
    pub fn new(config: Config) -> (r: Result<Scheduler, PipesError>)
        requires
            config.wf(),
        ensures
            config.spec_seed_in_bounds() ==> (r matches Ok(s) && s.wf() && s.spec_config()
                == config && s.spec_grid()@ == spec_seed_cells(config) && s.spec_phase()
                is Seeded),
            !config.spec_seed_in_bounds() ==> (r matches Err(e) && e == PipesError::OutOfBounds),
    {
        if config.seed_pos.x < config.width && config.seed_pos.y < config.height {
            let mut grid = Grid::new(config.width, config.height);
            let seed = Pipe::new(config.seed_kind);
            proof {
                grid.lemma_index_in_range(config.seed_pos);
            }
            let _ = grid.set(config.seed_pos, Some(seed));
            proof {
                assert(grid@ =~= spec_seed_cells(config));
            }
            Ok(Scheduler { config, grid, phase: Phase::Seeded })
        } else {
            Err(PipesError::OutOfBounds)
        }
    }

    /// The current grid snapshot.
    pub fn grid(&self) -> (r: &Grid)
        ensures
            *r == self.spec_grid(),
    {
        &self.grid
    }

    /// The current phase of the growth cycle.
    pub fn phase(&self) -> (r: Phase)
        ensures
            r == self.spec_phase(),
    {
        self.phase
    }

    /// Advance one generation. A saturated scheduler answers the trigger
    /// with the reset event: the grid is cleared, the seed re-placed, the
    /// phase returns to Seeded. Otherwise the configured strategy takes
    /// one step; `NoCandidates` signals a step that found nothing to
    /// rewrite (the grid and phase stand), distinct from a successful
    /// rewrite, whose written cells are reported for the presentation
    /// layer. Under the local strategy a step never overwrites an
    /// occupied cell.
    pub fn advance(&mut self, rng: RandomInput) -> (r: StepOutcome)
        requires
            old(self).wf(),
        ensures
            final(self).wf(),
            final(self).spec_config() == old(self).spec_config(),
            final(self).spec_grid()@ == spec_next(
                old(self).spec_config(),
                old(self).spec_grid(),
                old(self).spec_phase(),
                rng,
            ).0,
            final(self).spec_phase() == spec_next(
                old(self).spec_config(),
                old(self).spec_grid(),
                old(self).spec_phase(),
                rng,
            ).1,
            r is Reset <==> old(self).spec_phase() is Saturated,
            !(old(self).spec_phase() is Saturated) ==> ((r is NoCandidates) <==> !spec_step(
                old(self).spec_config(),
                old(self).spec_grid(),
                rng,
            ).1),
            r matches StepOutcome::Changed(ch) ==> ch@ == spec_step_changes(
                old(self).spec_config(),
                old(self).spec_grid(),
                rng,
            ),
            !(old(self).spec_phase() is Saturated) && old(self).spec_config().strategy
                is LocalNeighbor ==> (forall|t: int|
                0 <= t < old(self).spec_grid()@.len() && old(self).spec_grid()@[t] is Some
                    ==> final(self).spec_grid()@[t] == old(self).spec_grid()@[t]),
    {
        match self.phase {
            Phase::Saturated => {
                let mut grid = Grid::new(self.config.width, self.config.height);
                let seed = Pipe::new(self.config.seed_kind);
                proof {
                    grid.lemma_index_in_range(self.config.seed_pos);
                }
                let _ = grid.set(self.config.seed_pos, Some(seed));
                proof {
                    assert(grid@ =~= spec_seed_cells(self.config));
                }
                self.grid = grid;
                self.phase = Phase::Seeded;
                StepOutcome::Reset
            },
            _ => {
                let outcome = match self.config.strategy {
                    Strategy::WholeGrid => rewrite_linear(&mut self.grid, &self.config.rules),
                    Strategy::LocalNeighbor => step_local(
                        &mut self.grid,
                        &self.config.rules,
                        self.config.branch_num,
                        self.config.branch_den,
                        rng,
                    ),
                };
                match outcome {
                    StepOutcome::NoCandidates => StepOutcome::NoCandidates,
                    StepOutcome::Changed(ch) => {
                        let occ = self.grid.occupied_count();
                        if occ >= self.config.ceiling {
                            self.phase = Phase::Saturated;
                        } else {
                            self.phase = Phase::Growing;
                        }
                        StepOutcome::Changed(ch)
                    },
                    StepOutcome::Reset => {
                        proof {
                            assert(false);
                        }
                        StepOutcome::Reset
                    },
                }
            },
        }
    }
}

/// Determinism of the growth cycle: the transition relation is a function
/// of the scheduler state and the injected Random Source draws alone. Two
/// schedulers with the same configuration and phase whose grids are in
/// the same state move, on the same draws, to the same cells, the same
/// phase, and the same reported changes. Since `advance` is pinned to
/// this transition function by its contract, two independent runs from
/// one initial state fed the same draw sequence produce identical
/// sequences of grid states, by induction over the sequence: this lemma
/// is the inductive step.
pub proof fn lemma_advance_deterministic(
    cfg: Config,
    a: Grid,
    b: Grid,
    phase: Phase,
    rng: RandomInput,
)
    requires
        spec_same_state(a, b),
    ensures
        spec_next(cfg, a, phase, rng) == spec_next(cfg, b, phase, rng),
        spec_step_changes(cfg, a, rng) == spec_step_changes(cfg, b, rng),
{
    lemma_candidates_congruent(a, b, cfg.rules@);
    let cs = spec_candidates(a, cfg.rules@);
    if cs.len() > 0 {
        lemma_apply_congruent(
            a,
            b,
            cfg.rules@,
            cs[(rng.selector as int) % (cs.len() as int)],
            spec_elbow_t(cfg, rng),
        );
    }
}

/// A freshly seeded grid holds exactly one occupied cell: the seed, at
/// the configured position.
pub proof fn lemma_seed_occupancy(cfg: Config)
    requires
        cfg.wf(),
        cfg.spec_seed_in_bounds(),
    ensures
        count_occupied(spec_seed_cells(cfg)) == 1,
        spec_seed_cells(cfg)[cfg.spec_seed_index()] == Some(Pipe::spec_new(cfg.seed_kind)),
{
    let w = cfg.width as int;
    let h = cfg.height as int;
    let x = cfg.seed_pos.x as int;
    let y = cfg.seed_pos.y as int;
    assert(0 <= y * w + x < w * h) by (nonlinear_arith)
        requires
            0 <= x < w,
            0 <= y < h,
    ;
    assert(cfg.spec_seed_index() == y * w + x);
    lemma_count_single_occupied(spec_seed_cells(cfg), cfg.spec_seed_index());
}

/// A cell sequence with exactly one occupied index has occupancy one.
proof fn lemma_count_single_occupied(s: Seq<Option<Pipe>>, k: int)
    requires
        0 <= k < s.len(),
        s[k] is Some,
        forall|j: int| 0 <= j < s.len() && j != k ==> s[j] is None,
    ensures
        count_occupied(s) == 1,
    decreases s.len(),
{
    if s.len() == k + 1 {
        lemma_count_all_blank(s.drop_last());
    } else {
        lemma_count_single_occupied(s.drop_last(), k);
    }
}

/// A fully blank cell sequence has occupancy zero.
proof fn lemma_count_all_blank(s: Seq<Option<Pipe>>)
    requires
        forall|j: int| 0 <= j < s.len() ==> s[j] is None,
    ensures
        count_occupied(s) == 0,
    decreases s.len(),
{
    if s.len() == 0 {
    } else {
        lemma_count_all_blank(s.drop_last());
    }
}

} // verus!
