use vstd::prelude::*;

use crate::direction::Direction;
use crate::engine::{RandomInput, StepOutcome};
use crate::grid::{Grid, Position};
use crate::kind::{Pipe, PipeKind};
use crate::rules::{kind_matches, spec_kind_matches, GenerationRule};

verus! {

/// One applicable rewrite of the local neighbor-directed strategy: either
/// a two-element rule matching a focus cell together with its neighbor
/// toward `dir`, or a growth-policy spread from an occupied focus cell
/// into its blank neighbor toward a connected direction.
#[derive(Clone, Copy, PartialEq, Eq, Structural, Debug)]
pub enum Candidate {
    RuleAt { pos: Position, dir: Direction, rule_index: usize },
    Spread { pos: Position, dir: Direction },
}

/// The fixed scan order of the four directions: North, East, South, West.
pub open spec fn spec_dir_of(di: int) -> Direction {
    if di == 0 {
        Direction::North
    } else if di == 1 {
        Direction::East
    } else if di == 2 {
        Direction::South
    } else {
        Direction::West
    }
}

pub fn dir_of(di: usize) -> (r: Direction)
    requires
        di < 4,
    ensures
        r == spec_dir_of(di as int),
{
    if di == 0 {
        Direction::North
    } else if di == 1 {
        Direction::East
    } else if di == 2 {
        Direction::South
    } else {
        Direction::West
    }
}

/// A two-element rule applies at a focus position toward `dir` when the
/// neighbor there exists, both pattern elements accept the two cells (a
/// blank cell matching as `Empty`), and at least one of the two cells is
/// blank: the local strategy writes only into blank cells, so a pair of
/// occupied cells offers it nothing to rewrite.
pub open spec fn spec_rule_applies(
    g: Grid,
    rules: Seq<GenerationRule>,
    pos: Position,
    dir: Direction,
    ri: int,
) -> bool {
    &&& 0 <= ri < rules.len()
    &&& rules[ri].pattern@.len() == 2
    &&& g.spec_in_bounds(pos)
    &&& g.spec_neighbor(pos, dir) matches Some(np)
    &&& spec_kind_matches(rules[ri].pattern@[0], g.spec_cell(pos))
    &&& spec_kind_matches(rules[ri].pattern@[1], g.spec_cell(np))
    &&& (g.spec_cell(pos) is None || g.spec_cell(np) is None)
}

/// A growth spread applies when the focus cell holds a pipe, the direction
/// is among the pipe's effective connections, and the neighbor there
/// exists and is blank. A missing neighbor across the boundary is a
/// non-match, not an error.
pub open spec fn spec_spread_applies(g: Grid, pos: Position, dir: Direction) -> bool {
    &&& g.spec_in_bounds(pos)
    &&& g.spec_cell(pos) matches Some(p)
    &&& p.spec_connections().contains(dir)
    &&& g.spec_neighbor(pos, dir) matches Some(np)
    &&& g.spec_cell(np) is None
}

pub open spec fn spec_candidate_valid(g: Grid, rules: Seq<GenerationRule>, c: Candidate) -> bool {
    match c {
        Candidate::RuleAt { pos, dir, rule_index } => spec_rule_applies(
            g,
            rules,
            pos,
            dir,
            rule_index as int,
        ),
        Candidate::Spread { pos, dir } => spec_spread_applies(g, pos, dir),
    }
}

/// The rule candidates among the first `ri` rules at one focus/direction
/// pair, in registration order.
pub open spec fn cands_rules_upto(
    g: Grid,
    rules: Seq<GenerationRule>,
    pos: Position,
    dir: Direction,
    ri: int,
) -> Seq<Candidate>
    decreases ri,
{
    if ri <= 0 {
        Seq::empty()
    } else {
        cands_rules_upto(g, rules, pos, dir, ri - 1) + if spec_rule_applies(
            g,
            rules,
            pos,
            dir,
            ri - 1,
        ) {
            seq![Candidate::RuleAt { pos, dir, rule_index: (ri - 1) as usize }]
        } else {
            Seq::empty()
        }
    }
}

/// All candidates at one focus/direction pair: the matching rules in
/// registration order, then the policy spread if it applies.
pub open spec fn cands_at_dir(
    g: Grid,
    rules: Seq<GenerationRule>,
    pos: Position,
    dir: Direction,
) -> Seq<Candidate> {
    cands_rules_upto(g, rules, pos, dir, rules.len() as int) + if spec_spread_applies(
        g,
        pos,
        dir,
    ) {
        seq![Candidate::Spread { pos, dir }]
    } else {
        Seq::empty()
    }
}

/// The candidates of the first `di` directions at one focus cell.
pub open spec fn cands_dirs_upto(
    g: Grid,
    rules: Seq<GenerationRule>,
    pos: Position,
    di: int,
) -> Seq<Candidate>
    decreases di,
{
    if di <= 0 {
        Seq::empty()
    } else {
        cands_dirs_upto(g, rules, pos, di - 1) + cands_at_dir(g, rules, pos, spec_dir_of(di - 1))
    }
}

/// The candidates of the first `i` cells, row-major.
pub open spec fn cands_upto(g: Grid, rules: Seq<GenerationRule>, i: int) -> Seq<Candidate>
    decreases i,
{
    if i <= 0 {
        Seq::empty()
    } else {
        cands_upto(g, rules, i - 1) + cands_dirs_upto(g, rules, g.spec_position_of(i - 1), 4)
    }
}

/// Every applicable candidate of the whole grid, in one fixed
/// deterministic scan order: cells row-major, directions North, East,
/// South, West, rules before the policy spread.
pub open spec fn spec_candidates(g: Grid, rules: Seq<GenerationRule>) -> Seq<Candidate> {
    cands_upto(g, rules, g@.len() as int)
}

/// Collect every applicable candidate of the grid, in the fixed scan
/// order; each returned candidate is valid on this grid.
pub fn collect_candidates(grid: &Grid, rules: &Vec<GenerationRule>) -> (r: Vec<Candidate>)
    requires
        grid.wf(),
    ensures
        r@ == spec_candidates(*grid, rules@),
        forall|j: int|
            0 <= j < r@.len() ==> spec_candidate_valid(*grid, rules@, #[trigger] r@[j]),
{
    let mut acc: Vec<Candidate> = Vec::new();
    let n: usize = grid.cell_count();
    let mut i: usize = 0;
    while i < n
        invariant
            i <= n,
            n == grid@.len(),
            grid.wf(),
            acc@ == cands_upto(*grid, rules@, i as int),
            forall|j: int|
                0 <= j < acc@.len() ==> spec_candidate_valid(*grid, rules@, #[trigger] acc@[j]),
        decreases n - i,
    {
        let pos = grid.position_of(i);
        let mut di: usize = 0;
        while di < 4
            invariant
                di <= 4,
                i < n,
                n == grid@.len(),
                grid.wf(),
                pos == grid.spec_position_of(i as int),
                grid.spec_in_bounds(pos),
                acc@ == cands_upto(*grid, rules@, i as int) + cands_dirs_upto(
                    *grid,
                    rules@,
                    pos,
                    di as int,
                ),
                forall|j: int|
                    0 <= j < acc@.len() ==> spec_candidate_valid(*grid, rules@, #[trigger] acc@[j]),
            decreases 4 - di,
        {
            let dir = dir_of(di);
            let focus: Option<crate::kind::Pipe> = match grid.get(pos) {
                Ok(c) => c,
                Err(_) => None,
            };
            let nbr: Option<Position> = grid.neighbor(pos, dir);
            let mut ri: usize = 0;
            while ri < rules.len()
                invariant
                    ri <= rules@.len(),
                    i < n,
                    n == grid@.len(),
                    grid.wf(),
                    pos == grid.spec_position_of(i as int),
                    grid.spec_in_bounds(pos),
                    di < 4,
                    dir == spec_dir_of(di as int),
                    focus == grid.spec_cell(pos),
                    nbr == grid.spec_neighbor(pos, dir),
                    acc@ == cands_upto(*grid, rules@, i as int) + cands_dirs_upto(
                        *grid,
                        rules@,
                        pos,
                        di as int,
                    ) + cands_rules_upto(*grid, rules@, pos, dir, ri as int),
                    forall|j: int|
                        0 <= j < acc@.len() ==> spec_candidate_valid(
                            *grid,
                            rules@,
                            #[trigger] acc@[j],
                        ),
                decreases rules@.len() - ri,
            {
                let rule = &rules[ri];
                let mut applies: bool = false;
                if rule.pattern.len() == 2 {
                    match nbr {
                        Some(np) => {
                            let c1: Option<crate::kind::Pipe> = match grid.get(np) {
                                Ok(c) => c,
                                Err(_) => None,
                            };
                            if kind_matches(rule.pattern[0], &focus) && kind_matches(
                                rule.pattern[1],
                                &c1,
                            ) && (focus.is_none() || c1.is_none()) {
                                applies = true;
                            }
                        },
                        None => {},
                    }
                }
                proof {
                    assert(applies == spec_rule_applies(*grid, rules@, pos, dir, ri as int));
                }
                if applies {
                    acc.push(Candidate::RuleAt { pos, dir, rule_index: ri });
                }
                proof {
                    assert(acc@ =~= cands_upto(*grid, rules@, i as int) + cands_dirs_upto(
                        *grid,
                        rules@,
                        pos,
                        di as int,
                    ) + cands_rules_upto(*grid, rules@, pos, dir, ri + 1 as int));
                }
                ri = ri + 1;
            }
            let mut spread: bool = false;
            match &focus {
                Some(p) => {
                    if p.connects(dir) {
                        match nbr {
                            Some(np) => {
                                let c1: Option<crate::kind::Pipe> = match grid.get(np) {
                                    Ok(c) => c,
                                    Err(_) => None,
                                };
                                if c1.is_none() {
                                    spread = true;
                                }
                            },
                            None => {},
                        }
                    }
                },
                None => {},
            }
            proof {
                assert(spread == spec_spread_applies(*grid, pos, dir));
            }
            if spread {
                acc.push(Candidate::Spread { pos, dir });
            }
            proof {
                assert(acc@ =~= cands_upto(*grid, rules@, i as int) + cands_dirs_upto(
                    *grid,
                    rules@,
                    pos,
                    di + 1 as int,
                ));
            }
            di = di + 1;
        }
        proof {
            assert(acc@ =~= cands_upto(*grid, rules@, i + 1 as int));
        }
        i = i + 1;
    }
    acc
}

/// The index of a direction in the fixed scan order.
pub open spec fn spec_dir_index(d: Direction) -> int {
    match d {
        Direction::North => 0,
        Direction::East => 1,
        Direction::South => 2,
        Direction::West => 3,
    }
}

proof fn lemma_rules_upto_empty(
    g: Grid,
    rules: Seq<GenerationRule>,
    pos: Position,
    dir: Direction,
    ri: int,
)
    requires
        cands_rules_upto(g, rules, pos, dir, ri).len() == 0,
    ensures
        forall|t: int| 0 <= t < ri ==> !spec_rule_applies(g, rules, pos, dir, t),
    decreases ri,
{
    if ri <= 0 {
    } else {
        lemma_rules_upto_empty(g, rules, pos, dir, ri - 1);
        assert(!spec_rule_applies(g, rules, pos, dir, ri - 1));
    }
}

proof fn lemma_dirs_upto_empty(g: Grid, rules: Seq<GenerationRule>, pos: Position, di: int)
    requires
        cands_dirs_upto(g, rules, pos, di).len() == 0,
    ensures
        forall|t: int, ri: int|
            0 <= t < di ==> !spec_rule_applies(g, rules, pos, spec_dir_of(t), ri),
        forall|t: int| 0 <= t < di ==> !spec_spread_applies(g, pos, spec_dir_of(t)),
    decreases di,
{
    if di <= 0 {
    } else {
        lemma_dirs_upto_empty(g, rules, pos, di - 1);
        lemma_rules_upto_empty(g, rules, pos, spec_dir_of(di - 1), rules.len() as int);
        assert(!spec_spread_applies(g, pos, spec_dir_of(di - 1)));
        assert forall|ri: int| !#[trigger] spec_rule_applies(g, rules, pos, spec_dir_of(di - 1), ri) by {
            if 0 <= ri < rules.len() {
            }
        }
    }
}

proof fn lemma_cands_upto_empty(g: Grid, rules: Seq<GenerationRule>, i: int)
    requires
        cands_upto(g, rules, i).len() == 0,
    ensures
        forall|t: int, d: int, ri: int|
            0 <= t < i && 0 <= d < 4 ==> !spec_rule_applies(
                g,
                rules,
                g.spec_position_of(t),
                spec_dir_of(d),
                ri,
            ),
        forall|t: int, d: int|
            0 <= t < i && 0 <= d < 4 ==> !spec_spread_applies(
                g,
                g.spec_position_of(t),
                spec_dir_of(d),
            ),
    decreases i,
{
    if i <= 0 {
    } else {
        lemma_cands_upto_empty(g, rules, i - 1);
        lemma_dirs_upto_empty(g, rules, g.spec_position_of(i - 1), 4);
    }
}

/// The `NoCandidates` characterization: the candidate set of the local
/// strategy is empty exactly when no two-element rule matches any
/// focus/neighbor pair anywhere on the grid and no occupied cell has a
/// blank neighbor in a connected direction anywhere. In particular, with
/// an empty rule set the step signals `NoCandidates` precisely on a grid
/// with no blank connected neighbor left.
pub proof fn lemma_no_candidates(g: Grid, rules: Seq<GenerationRule>)
    requires
        g.wf(),
        rules.len() <= usize::MAX,
    ensures
        spec_candidates(g, rules).len() == 0 <==> ((forall|pos: Position, dir: Direction, ri: int|
            !spec_rule_applies(g, rules, pos, dir, ri)) && (forall|pos: Position, dir: Direction|
            !spec_spread_applies(g, pos, dir))),
{
    if spec_candidates(g, rules).len() == 0 {
        lemma_cands_upto_empty(g, rules, g@.len() as int);
        assert forall|pos: Position, dir: Direction, ri: int| !spec_rule_applies(
            g,
            rules,
            pos,
            dir,
            ri,
        ) by {
            if g.spec_in_bounds(pos) {
                g.lemma_index_of_position(pos);
                assert(g.spec_position_of(g.spec_index(pos)) == pos);
                assert(spec_dir_of(spec_dir_index(dir)) == dir);
            }
        }
        assert forall|pos: Position, dir: Direction| !spec_spread_applies(g, pos, dir) by {
            if g.spec_in_bounds(pos) {
                g.lemma_index_of_position(pos);
                assert(g.spec_position_of(g.spec_index(pos)) == pos);
                assert(spec_dir_of(spec_dir_index(dir)) == dir);
            }
        }
    } else {
        let cs = spec_candidates(g, rules);
        lemma_cands_upto_valid(g, rules, g@.len() as int);
        assert(spec_candidate_valid(g, rules, cs[0]));
        match cs[0] {
            Candidate::RuleAt { pos, dir, rule_index } => {
                assert(spec_rule_applies(g, rules, pos, dir, rule_index as int));
            },
            Candidate::Spread { pos, dir } => {
                assert(spec_spread_applies(g, pos, dir));
            },
        }
    }
}

proof fn lemma_rules_upto_valid(
    g: Grid,
    rules: Seq<GenerationRule>,
    pos: Position,
    dir: Direction,
    ri: int,
)
    requires
        ri <= usize::MAX,
    ensures
        forall|j: int|
            0 <= j < cands_rules_upto(g, rules, pos, dir, ri).len() ==> spec_candidate_valid(
                g,
                rules,
                #[trigger] cands_rules_upto(g, rules, pos, dir, ri)[j],
            ),
    decreases ri,
{
    if ri <= 0 {
    } else {
        lemma_rules_upto_valid(g, rules, pos, dir, ri - 1);
        let prev = cands_rules_upto(g, rules, pos, dir, ri - 1);
        let cur = cands_rules_upto(g, rules, pos, dir, ri);
        assert forall|j: int| 0 <= j < cur.len() implies spec_candidate_valid(
            g,
            rules,
            #[trigger] cur[j],
        ) by {
            if j < prev.len() {
                assert(cur[j] == prev[j]);
            } else {
                assert(spec_rule_applies(g, rules, pos, dir, ri - 1));
                assert(cur[j] == Candidate::RuleAt { pos, dir, rule_index: (ri - 1) as usize });
            }
        }
    }
}

proof fn lemma_dirs_upto_valid(g: Grid, rules: Seq<GenerationRule>, pos: Position, di: int)
    requires
        rules.len() <= usize::MAX,
    ensures
        forall|j: int|
            0 <= j < cands_dirs_upto(g, rules, pos, di).len() ==> spec_candidate_valid(
                g,
                rules,
                #[trigger] cands_dirs_upto(g, rules, pos, di)[j],
            ),
    decreases di,
{
    if di <= 0 {
    } else {
        lemma_dirs_upto_valid(g, rules, pos, di - 1);
        let d = spec_dir_of(di - 1);
        lemma_rules_upto_valid(g, rules, pos, d, rules.len() as int);
        let prev = cands_dirs_upto(g, rules, pos, di - 1);
        let ru = cands_rules_upto(g, rules, pos, d, rules.len() as int);
        let ad = cands_at_dir(g, rules, pos, d);
        let cur = cands_dirs_upto(g, rules, pos, di);
        assert forall|j: int| 0 <= j < cur.len() implies spec_candidate_valid(
            g,
            rules,
            #[trigger] cur[j],
        ) by {
            if j < prev.len() {
                assert(cur[j] == prev[j]);
            } else {
                let j2 = j - prev.len();
                assert(cur[j] == ad[j2]);
                if j2 < ru.len() {
                    assert(ad[j2] == ru[j2]);
                } else {
                    assert(spec_spread_applies(g, pos, d));
                    assert(ad[j2] == Candidate::Spread { pos, dir: d });
                }
            }
        }
    }
}

/// Every candidate of the scan is valid on the grid it was scanned from.
pub proof fn lemma_cands_upto_valid(g: Grid, rules: Seq<GenerationRule>, i: int)
    requires
        rules.len() <= usize::MAX,
    ensures
        forall|j: int|
            0 <= j < cands_upto(g, rules, i).len() ==> spec_candidate_valid(
                g,
                rules,
                #[trigger] cands_upto(g, rules, i)[j],
            ),
    decreases i,
{
    if i <= 0 {
    } else {
        lemma_cands_upto_valid(g, rules, i - 1);
        lemma_dirs_upto_valid(g, rules, g.spec_position_of(i - 1), 4);
        let prev = cands_upto(g, rules, i - 1);
        let dd = cands_dirs_upto(g, rules, g.spec_position_of(i - 1), 4);
        let cur = cands_upto(g, rules, i);
        assert forall|j: int| 0 <= j < cur.len() implies spec_candidate_valid(
            g,
            rules,
            #[trigger] cur[j],
        ) by {
            if j < prev.len() {
                assert(cur[j] == prev[j]);
            } else {
                assert(cur[j] == dd[j - prev.len()]);
            }
        }
    }
}

/// Where a Straight focus sees a dead end: it stands on the top boundary
/// (no North neighbor at all) or its South neighbor already holds a pipe.
/// It then spreads a Cross instead of an Elbow, producing periodic branch
/// points so growth does not degenerate into one endless line.
pub open spec fn spec_straight_dead_end(g: Grid, pos: Position) -> bool {
    ||| g.spec_neighbor(pos, Direction::North) is None
    ||| (g.spec_neighbor(pos, Direction::South) matches Some(sp) && g.spec_cell(sp) is Some)
}

/// The first blank cardinal neighbor of a focus cell, scanned in the fixed
/// priority order North, East, South, West, with the direction that
/// reaches it.
pub open spec fn spec_t_target(g: Grid, pos: Position, di: int) -> Option<(Direction, Position)>
    decreases 4 - di,
{
    if di >= 4 {
        None
    } else {
        let d = spec_dir_of(di);
        match g.spec_neighbor(pos, d) {
            Some(nd) => if g.spec_cell(nd) is None {
                Some((d, nd))
            } else {
                spec_t_target(g, pos, di + 1)
            },
            None => spec_t_target(g, pos, di + 1),
        }
    }
}

/// The single write a policy spread performs: the target cell and the new
/// pipe, per the growth policy of the focus kind. `elbow_t` is the already
/// decided probabilistic branch for an Elbow focus (spread a T instead of
/// a Straight).
pub open spec fn spec_spread_write(g: Grid, pos: Position, dir: Direction, elbow_t: bool) -> Option<
    (Position, Pipe),
> {
    match g.spec_cell(pos) {
        Some(p) => match g.spec_neighbor(pos, dir) {
            Some(np) => match p.kind {
                PipeKind::Cross => Some(
                    (np, Pipe::spec_new(PipeKind::Straight).spec_with_flip(dir)),
                ),
                PipeKind::Straight => if spec_straight_dead_end(g, pos) {
                    Some((np, Pipe::spec_new(PipeKind::Cross).spec_with_flip(dir)))
                } else {
                    Some((np, Pipe::spec_new(PipeKind::Elbow).spec_with_flip(dir)))
                },
                PipeKind::Elbow => if elbow_t {
                    Some((np, Pipe::spec_new(PipeKind::T).spec_with_flip(dir)))
                } else {
                    Some((np, Pipe::spec_new(PipeKind::Straight).spec_with_flip(dir)))
                },
                PipeKind::T => match spec_t_target(g, pos, 0) {
                    Some(t) => Some((t.1, Pipe::spec_new(PipeKind::Straight).spec_with_flip(t.0))),
                    None => Some((np, Pipe::spec_new(PipeKind::Cross).spec_with_flip(dir))),
                },
                _ => None,
            },
            None => None,
        },
        None => None,
    }
}

/// The cells after a two-element rule candidate is applied: each of the
/// two matched cells is written only when it is blank and its replacement
/// element is a placeable kind; the neighbor cell is oriented along the
/// matching direction. Occupied cells are never overwritten by the local
/// strategy.
pub open spec fn spec_apply_rule_at(
    g: Grid,
    rules: Seq<GenerationRule>,
    pos: Position,
    dir: Direction,
    ri: int,
) -> Seq<Option<Pipe>> {
    match g.spec_neighbor(pos, dir) {
        Some(np) => {
            let s1 = if g.spec_cell(pos) is None && rules[ri].replacement@[0].spec_placeable() {
                g@.update(g.spec_index(pos), Some(Pipe::spec_new(rules[ri].replacement@[0])))
            } else {
                g@
            };
            if g.spec_cell(np) is None && rules[ri].replacement@[1].spec_placeable() {
                s1.update(
                    g.spec_index(np),
                    Some(Pipe::spec_new(rules[ri].replacement@[1]).spec_with_flip(dir)),
                )
            } else {
                s1
            }
        },
        None => g@,
    }
}

/// The cells after one candidate is applied.
pub open spec fn spec_apply_candidate(
    g: Grid,
    rules: Seq<GenerationRule>,
    c: Candidate,
    elbow_t: bool,
) -> Seq<Option<Pipe>> {
    match c {
        Candidate::RuleAt { pos, dir, rule_index } => spec_apply_rule_at(
            g,
            rules,
            pos,
            dir,
            rule_index as int,
        ),
        Candidate::Spread { pos, dir } => match spec_spread_write(g, pos, dir, elbow_t) {
            Some(w) => g@.update(g.spec_index(w.0), Some(w.1)),
            None => g@,
        },
    }
}

/// The change list one candidate reports: the cells it wrote, with their
/// new states, in write order.
pub open spec fn spec_candidate_changes(
    g: Grid,
    rules: Seq<GenerationRule>,
    c: Candidate,
    elbow_t: bool,
) -> Seq<(Position, Option<Pipe>)> {
    match c {
        Candidate::RuleAt { pos, dir, rule_index } => match g.spec_neighbor(pos, dir) {
            Some(np) => {
                let first: Seq<(Position, Option<Pipe>)> = if g.spec_cell(pos) is None
                    && rules[rule_index as int].replacement@[0].spec_placeable() {
                    seq![(pos, Some(Pipe::spec_new(rules[rule_index as int].replacement@[0])))]
                } else {
                    Seq::empty()
                };
                let second: Seq<(Position, Option<Pipe>)> = if g.spec_cell(np) is None
                    && rules[rule_index as int].replacement@[1].spec_placeable() {
                    seq![
                        (
                            np,
                            Some(
                                Pipe::spec_new(
                                    rules[rule_index as int].replacement@[1],
                                ).spec_with_flip(dir),
                            ),
                        ),
                    ]
                } else {
                    Seq::empty()
                };
                first + second
            },
            None => Seq::empty(),
        },
        Candidate::Spread { pos, dir } => match spec_spread_write(g, pos, dir, elbow_t) {
            Some(w) => seq![(w.0, Some(w.1))],
            None => Seq::empty(),
        },
    }
}

/// A found first-blank-neighbor target is indeed blank and in bounds.
pub proof fn lemma_t_target_blank(g: Grid, pos: Position, di: int)
    requires
        g.spec_in_bounds(pos),
    ensures
        spec_t_target(g, pos, di) matches Some(t) ==> g.spec_cell(t.1) is None
            && g.spec_in_bounds(t.1),
    decreases 4 - di,
{
    if di >= 4 {
    } else {
        g.lemma_neighbor_in_bounds(pos, spec_dir_of(di));
        match g.spec_neighbor(pos, spec_dir_of(di)) {
            Some(nd) => {
                if g.spec_cell(nd) is None {
                } else {
                    lemma_t_target_blank(g, pos, di + 1);
                }
            },
            None => {
                lemma_t_target_blank(g, pos, di + 1);
            },
        }
    }
}

/// The local strategy never overwrites an already-placed pipe: applying
/// any valid candidate leaves every occupied cell exactly as it was.
/// Growth under the local strategy is monotonic.
pub proof fn lemma_apply_candidate_monotonic(
    g: Grid,
    rules: Seq<GenerationRule>,
    c: Candidate,
    elbow_t: bool,
)
    requires
        g.wf(),
        spec_candidate_valid(g, rules, c),
    ensures
        forall|t: int|
            0 <= t < g@.len() && g@[t] is Some ==> #[trigger] spec_apply_candidate(
                g,
                rules,
                c,
                elbow_t,
            )[t] == g@[t],
{
    match c {
        Candidate::RuleAt { pos, dir, .. } => {
            g.lemma_neighbor_in_bounds(pos, dir);
            match g.spec_neighbor(pos, dir) {
                Some(np) => {
                    g.lemma_index_in_range(pos);
                    g.lemma_index_in_range(np);
                    assert forall|t: int| 0 <= t < g@.len() && g@[t] is Some implies #[trigger]
                    spec_apply_candidate(g, rules, c, elbow_t)[t] == g@[t] by {
                        assert(g@[g.spec_index(pos)] == g.spec_cell(pos));
                        assert(g@[g.spec_index(np)] == g.spec_cell(np));
                    }
                },
                None => {
                    assert(false);
                },
            }
        },
        Candidate::Spread { pos, dir } => {
            g.lemma_neighbor_in_bounds(pos, dir);
            lemma_t_target_blank(g, pos, 0);
            assert forall|t: int| 0 <= t < g@.len() && g@[t] is Some implies #[trigger]
            spec_apply_candidate(g, rules, c, elbow_t)[t] == g@[t] by {
                match spec_spread_write(g, pos, dir, elbow_t) {
                    Some(w) => {
                        g.lemma_index_in_range(w.0);
                        assert(g@[g.spec_index(w.0)] == g.spec_cell(w.0));
                        assert(g.spec_cell(w.0) is None);
                    },
                    None => {},
                }
            }
        },
    }
}

/// Apply one valid candidate to the grid, writing only blank cells, and
/// report the written cells with their new states.
pub fn apply_candidate(
    grid: &mut Grid,
    rules: &Vec<GenerationRule>,
    c: Candidate,
    elbow_t: bool,
) -> (ch: Vec<(Position, Option<Pipe>)>)
    requires
        old(grid).wf(),
        forall|t: int| 0 <= t < rules@.len() ==> (#[trigger] rules@[t]).wf(),
        spec_candidate_valid(*old(grid), rules@, c),
    ensures
        final(grid).wf(),
        final(grid).spec_width() == old(grid).spec_width(),
        final(grid).spec_height() == old(grid).spec_height(),
        final(grid)@ == spec_apply_candidate(*old(grid), rules@, c, elbow_t),
        ch@ == spec_candidate_changes(*old(grid), rules@, c, elbow_t),
        forall|t: int|
            0 <= t < old(grid)@.len() && old(grid)@[t] is Some ==> final(grid)@[t] == old(
                grid,
            )@[t],
{
    let ghost g0 = *grid;
    let mut ch: Vec<(Position, Option<Pipe>)> = Vec::new();
    match c {
        Candidate::RuleAt { pos, dir, rule_index } => {
            let rule = &rules[rule_index];
            let np = match grid.neighbor(pos, dir) {
                Some(np) => np,
                None => {
                    proof {
                        assert(false);
                    }
                    pos
                },
            };
            let c0: Option<Pipe> = match grid.get(pos) {
                Ok(cell) => cell,
                Err(_) => None,
            };
            let c1: Option<Pipe> = match grid.get(np) {
                Ok(cell) => cell,
                Err(_) => None,
            };
            if c0.is_none() && rule.replacement[0].placeable() {
                let p0 = Pipe::new(rule.replacement[0]);
                let _ = grid.set(pos, Some(p0));
                ch.push((pos, Some(p0)));
            }
            if c1.is_none() && rule.replacement[1].placeable() {
                let p1 = Pipe::new(rule.replacement[1]).with_flip(dir);
                let _ = grid.set(np, Some(p1));
                ch.push((np, Some(p1)));
            }
            proof {
                assert(grid@ =~= spec_apply_candidate(g0, rules@, c, elbow_t));
                assert(ch@ =~= spec_candidate_changes(g0, rules@, c, elbow_t));
            }
        },
        Candidate::Spread { pos, dir } => {
            let p: Pipe = match grid.get(pos) {
                Ok(Some(p)) => p,
                _ => {
                    proof {
                        assert(false);
                    }
                    Pipe::new(PipeKind::Cross)
                },
            };
            let np = match grid.neighbor(pos, dir) {
                Some(np) => np,
                None => {
                    proof {
                        assert(false);
                    }
                    pos
                },
            };
            match p.kind {
                PipeKind::Cross => {
                    let w = Pipe::new(PipeKind::Straight).with_flip(dir);
                    let _ = grid.set(np, Some(w));
                    ch.push((np, Some(w)));
                },
                PipeKind::Straight => {
                    let dead: bool = match grid.neighbor(pos, Direction::North) {
                        None => true,
                        Some(_) => match grid.neighbor(pos, Direction::South) {
                            Some(sp) => match grid.get(sp) {
                                Ok(Some(_)) => true,
                                _ => false,
                            },
                            None => false,
                        },
                    };
                    let k = if dead {
                        PipeKind::Cross
                    } else {
                        PipeKind::Elbow
                    };
                    let w = Pipe::new(k).with_flip(dir);
                    let _ = grid.set(np, Some(w));
                    ch.push((np, Some(w)));
                },
                PipeKind::Elbow => {
                    let k = if elbow_t {
                        PipeKind::T
                    } else {
                        PipeKind::Straight
                    };
                    let w = Pipe::new(k).with_flip(dir);
                    let _ = grid.set(np, Some(w));
                    ch.push((np, Some(w)));
                },
                PipeKind::T => {
                    let mut target: Option<(Direction, Position)> = None;
                    let mut di: usize = 0;
                    while di < 4
                        invariant
                            di <= 4,
                            grid.wf(),
                            *grid == g0,
                            grid.spec_in_bounds(pos),
                            target is None ==> spec_t_target(g0, pos, 0) == spec_t_target(
                                g0,
                                pos,
                                di as int,
                            ),
                            target matches Some(t) ==> spec_t_target(g0, pos, 0) == Some(t)
                                && g0.spec_in_bounds(t.1) && g0.spec_cell(t.1) is None,
                        decreases 4 - di,
                    {
                        if target.is_none() {
                            let d = dir_of(di);
                            match grid.neighbor(pos, d) {
                                Some(nd) => {
                                    let cell: Option<Pipe> = match grid.get(nd) {
                                        Ok(cell) => cell,
                                        Err(_) => None,
                                    };
                                    if cell.is_none() {
                                        target = Some((d, nd));
                                    }
                                },
                                None => {},
                            }
                        }
                        di = di + 1;
                    }
                    match target {
                        Some((d, nd)) => {
                            let w = Pipe::new(PipeKind::Straight).with_flip(d);
                            let _ = grid.set(nd, Some(w));
                            ch.push((nd, Some(w)));
                        },
                        None => {
                            let w = Pipe::new(PipeKind::Cross).with_flip(dir);
                            let _ = grid.set(np, Some(w));
                            ch.push((np, Some(w)));
                        },
                    }
                },
                PipeKind::Any | PipeKind::Empty => {
                    proof {
                        assert(false);
                    }
                },
            }
            proof {
                assert(grid@ =~= spec_apply_candidate(g0, rules@, c, elbow_t));
                assert(ch@ =~= spec_candidate_changes(g0, rules@, c, elbow_t));
            }
        },
    }
    proof {
        lemma_apply_candidate_monotonic(g0, rules@, c, elbow_t);
    }
    ch
}

/// Two grids in the same state: same dimensions and same row-major cells.
/// Every observation the store offers, and every step the engine takes,
/// is a function of this state alone.
pub open spec fn spec_same_state(a: Grid, b: Grid) -> bool {
    a.spec_width() == b.spec_width() && a.spec_height() == b.spec_height() && a@ == b@
}

proof fn lemma_rules_upto_congruent(
    a: Grid,
    b: Grid,
    rules: Seq<GenerationRule>,
    pos: Position,
    dir: Direction,
    ri: int,
)
    requires
        spec_same_state(a, b),
    ensures
        cands_rules_upto(a, rules, pos, dir, ri) == cands_rules_upto(b, rules, pos, dir, ri),
    decreases ri,
{
    if ri <= 0 {
    } else {
        lemma_rules_upto_congruent(a, b, rules, pos, dir, ri - 1);
    }
}

proof fn lemma_dirs_upto_congruent(
    a: Grid,
    b: Grid,
    rules: Seq<GenerationRule>,
    pos: Position,
    di: int,
)
    requires
        spec_same_state(a, b),
    ensures
        cands_dirs_upto(a, rules, pos, di) == cands_dirs_upto(b, rules, pos, di),
    decreases di,
{
    if di <= 0 {
    } else {
        lemma_dirs_upto_congruent(a, b, rules, pos, di - 1);
        lemma_rules_upto_congruent(a, b, rules, pos, spec_dir_of(di - 1), rules.len() as int);
    }
}

proof fn lemma_cands_upto_congruent(a: Grid, b: Grid, rules: Seq<GenerationRule>, i: int)
    requires
        spec_same_state(a, b),
    ensures
        cands_upto(a, rules, i) == cands_upto(b, rules, i),
    decreases i,
{
    if i <= 0 {
    } else {
        lemma_cands_upto_congruent(a, b, rules, i - 1);
        lemma_dirs_upto_congruent(a, b, rules, a.spec_position_of(i - 1), 4);
    }
}

/// The candidate scan is a function of the grid state alone: two grids in
/// the same state yield the same candidate sequence.
pub proof fn lemma_candidates_congruent(a: Grid, b: Grid, rules: Seq<GenerationRule>)
    requires
        spec_same_state(a, b),
    ensures
        spec_candidates(a, rules) == spec_candidates(b, rules),
{
    lemma_cands_upto_congruent(a, b, rules, a@.len() as int);
}

proof fn lemma_t_target_congruent(a: Grid, b: Grid, pos: Position, di: int)
    requires
        spec_same_state(a, b),
    ensures
        spec_t_target(a, pos, di) == spec_t_target(b, pos, di),
    decreases 4 - di,
{
    if di >= 4 {
    } else {
        lemma_t_target_congruent(a, b, pos, di + 1);
    }
}

/// Applying a candidate is a function of the grid state alone: two grids
/// in the same state yield the same rewritten cells and the same change
/// list.
pub proof fn lemma_apply_congruent(
    a: Grid,
    b: Grid,
    rules: Seq<GenerationRule>,
    c: Candidate,
    elbow_t: bool,
)
    requires
        spec_same_state(a, b),
    ensures
        spec_apply_candidate(a, rules, c, elbow_t) == spec_apply_candidate(b, rules, c, elbow_t),
        spec_candidate_changes(a, rules, c, elbow_t) == spec_candidate_changes(
            b,
            rules,
            c,
            elbow_t,
        ),
{
    match c {
        Candidate::RuleAt { .. } => {
        },
        Candidate::Spread { pos, .. } => {
            lemma_t_target_congruent(a, b, pos, 0);
        },
    }
}

/// One step of the local neighbor-directed strategy: collect every
/// applicable candidate over the whole grid, pick exactly one uniformly
/// with the injected selector draw, and apply only that rewrite. Reports
/// the written cells, or the explicit `NoCandidates` signal (grid
/// untouched) when nothing applies anywhere. Occupied cells are never
/// overwritten: growth is monotonic.
pub fn step_local(
    grid: &mut Grid,
    rules: &Vec<GenerationRule>,
    branch_num: u64,
    branch_den: u64,
    rng: RandomInput,
) -> (r: StepOutcome)
    requires
        old(grid).wf(),
        forall|t: int| 0 <= t < rules@.len() ==> (#[trigger] rules@[t]).wf(),
        1 <= branch_den,
    ensures
        final(grid).wf(),
        final(grid).spec_width() == old(grid).spec_width(),
        final(grid).spec_height() == old(grid).spec_height(),
        ({
            let cs = spec_candidates(*old(grid), rules@);
            &&& (r is NoCandidates <==> cs.len() == 0)
            &&& cs.len() == 0 ==> final(grid)@ == old(grid)@
            &&& cs.len() > 0 ==> ({
                let chosen = cs[(rng.selector as int) % (cs.len() as int)];
                let elbow_t = (rng.branch as int) % (branch_den as int) < branch_num as int;
                &&& r matches StepOutcome::Changed(ch) && ch@ == spec_candidate_changes(
                    *old(grid),
                    rules@,
                    chosen,
                    elbow_t,
                )
                &&& final(grid)@ == spec_apply_candidate(*old(grid), rules@, chosen, elbow_t)
            })
        }),
        forall|t: int|
            0 <= t < old(grid)@.len() && old(grid)@[t] is Some ==> final(grid)@[t] == old(
                grid,
            )@[t],
        !(r is Reset),
{
    let cands = collect_candidates(grid, rules);
    let n = cands.len();
    if n == 0 {
        return StepOutcome::NoCandidates;
    }
    let idx64: u64 = rng.selector % (n as u64);
    let idx: usize = idx64 as usize;
    let chosen = cands[idx];
    let elbow_t: bool = rng.branch % branch_den < branch_num;
    let ch = apply_candidate(grid, rules, chosen, elbow_t);
    StepOutcome::Changed(ch)
}

} // verus!
