use pipe_grid::direction::Direction;
use pipe_grid::engine::{RandomInput, StepOutcome};
use pipe_grid::grid::{Grid, Position};
use pipe_grid::kind::{Pipe, PipeKind};
use pipe_grid::local::step_local;
use pipe_grid::rules::GenerationRule;

fn pos(x: usize, y: usize) -> Position {
    Position { x, y }
}

fn rng(selector: u64, branch: u64) -> RandomInput {
    RandomInput { selector, branch }
}

fn center_cross_grid() -> Grid {
    let mut g = Grid::new(3, 3);
    g.set(pos(1, 1), Some(Pipe::new(PipeKind::Cross))).unwrap();
    g
}

#[test]
fn cross_spreads_straight_oriented_along_approach() {
    // Candidates of a lone center Cross, in scan order, are its four
    // spreads: North, East, South, West.
    let no_rules: Vec<GenerationRule> = vec![];
    // selector 0: North. Straight along a vertical approach is flipped.
    let mut g = center_cross_grid();
    let out = step_local(&mut g, &no_rules, 0, 1, rng(0, 0));
    assert!(matches!(out, StepOutcome::Changed(_)));
    let expected = Pipe::new(PipeKind::Straight).with_flip(Direction::North);
    assert!(expected.flip.d);
    assert_eq!(g.get(pos(1, 2)), Ok(Some(expected)));
    // selector 1: East. Straight along a horizontal approach is unflipped.
    let mut g = center_cross_grid();
    step_local(&mut g, &no_rules, 0, 1, rng(1, 0));
    let expected = Pipe::new(PipeKind::Straight).with_flip(Direction::East);
    assert!(!expected.flip.d);
    assert_eq!(g.get(pos(2, 1)), Ok(Some(expected)));
    // selector 2: South; selector 3: West. The selector wraps modulo the
    // candidate count, so 6 picks South again.
    let mut g = center_cross_grid();
    step_local(&mut g, &no_rules, 0, 1, rng(6, 0));
    assert_eq!(
        g.get(pos(1, 0)),
        Ok(Some(Pipe::new(PipeKind::Straight).with_flip(Direction::South)))
    );
}

#[test]
fn occupied_cells_are_never_overwritten() {
    // Whatever candidate the selector picks, a cell that held a pipe
    // before the step holds the same pipe after it.
    let no_rules: Vec<GenerationRule> = vec![];
    for sel in 0..8u64 {
        let mut g = center_cross_grid();
        let out = step_local(&mut g, &no_rules, 1, 3, rng(sel, sel));
        assert!(matches!(out, StepOutcome::Changed(_)));
        assert_eq!(g.get(pos(1, 1)), Ok(Some(Pipe::new(PipeKind::Cross))));
        assert_eq!(g.occupied_count(), 2);
    }
}

#[test]
fn straight_spreads_elbow_when_no_dead_end() {
    // A Straight with room to the North and a blank South neighbor
    // spreads an Elbow oriented along the approach.
    let mut g = Grid::new(3, 3);
    g.set(pos(1, 1), Some(Pipe::new(PipeKind::Straight))).unwrap();
    let no_rules: Vec<GenerationRule> = vec![];
    // its connections are East and West; candidates in order: East, West.
    let out = step_local(&mut g, &no_rules, 0, 1, rng(0, 0));
    assert!(matches!(out, StepOutcome::Changed(_)));
    assert_eq!(
        g.get(pos(2, 1)),
        Ok(Some(Pipe::new(PipeKind::Elbow).with_flip(Direction::East)))
    );
}

#[test]
fn straight_on_top_boundary_spreads_cross() {
    // A Straight with no North neighbor at all sees a dead end and
    // spreads a Cross instead.
    let mut g = Grid::new(3, 3);
    g.set(pos(1, 2), Some(Pipe::new(PipeKind::Straight))).unwrap();
    let no_rules: Vec<GenerationRule> = vec![];
    let out = step_local(&mut g, &no_rules, 0, 1, rng(0, 0));
    assert!(matches!(out, StepOutcome::Changed(_)));
    assert_eq!(
        g.get(pos(2, 2)),
        Ok(Some(Pipe::new(PipeKind::Cross).with_flip(Direction::East)))
    );
}

#[test]
fn straight_with_occupied_south_neighbor_spreads_cross() {
    let mut g = Grid::new(3, 3);
    g.set(pos(1, 1), Some(Pipe::new(PipeKind::Straight))).unwrap();
    g.set(pos(1, 0), Some(Pipe::new(PipeKind::Cross))).unwrap();
    let no_rules: Vec<GenerationRule> = vec![];
    // scan order: the Cross at (1,0) contributes spreads East then West,
    // the Straight at (1,1) East then West; selector 2 picks the
    // Straight's East spread.
    let out = step_local(&mut g, &no_rules, 0, 1, rng(2, 0));
    assert!(matches!(out, StepOutcome::Changed(_)));
    assert_eq!(
        g.get(pos(2, 1)),
        Ok(Some(Pipe::new(PipeKind::Cross).with_flip(Direction::East)))
    );
}

#[test]
fn elbow_branches_to_t_by_injected_probability() {
    let no_rules: Vec<GenerationRule> = vec![];
    // branch probability 1 in 1: always a T (unflipped: a T never bends).
    let mut g = Grid::new(3, 3);
    g.set(pos(1, 1), Some(Pipe::new(PipeKind::Elbow))).unwrap();
    // elbow connects South and West; selector 0 picks South.
    step_local(&mut g, &no_rules, 1, 1, rng(0, 0));
    assert_eq!(
        g.get(pos(1, 0)),
        Ok(Some(Pipe::new(PipeKind::T).with_flip(Direction::South)))
    );
    // branch probability 0: always a Straight, flipped along South.
    let mut g = Grid::new(3, 3);
    g.set(pos(1, 1), Some(Pipe::new(PipeKind::Elbow))).unwrap();
    step_local(&mut g, &no_rules, 0, 1, rng(0, 0));
    assert_eq!(
        g.get(pos(1, 0)),
        Ok(Some(Pipe::new(PipeKind::Straight).with_flip(Direction::South)))
    );
    // branch draw decides: with denominator 3 and numerator 1, a draw of
    // 0 branches to a T, a draw of 1 does not.
    let mut g = Grid::new(3, 3);
    g.set(pos(1, 1), Some(Pipe::new(PipeKind::Elbow))).unwrap();
    step_local(&mut g, &no_rules, 0, 3, rng(0, 1));
    assert_eq!(
        g.get(pos(1, 0)),
        Ok(Some(Pipe::new(PipeKind::Straight).with_flip(Direction::South)))
    );
}

#[test]
fn t_writes_into_its_first_blank_neighbor_in_priority_order() {
    let mut g = Grid::new(3, 3);
    g.set(pos(1, 1), Some(Pipe::new(PipeKind::T))).unwrap();
    // block the North neighbor with a pipe that has no blank connected
    // neighbor of its own (a flipped Straight runs North-South; its North
    // is the boundary, its South is the occupied focus).
    g.set(pos(1, 2), Some(Pipe::new(PipeKind::Straight).with_flip(Direction::North)))
        .unwrap();
    let no_rules: Vec<GenerationRule> = vec![];
    // the T's spread candidates are East and South; whichever is picked,
    // the policy scans N, E, S, W and writes the first blank: East.
    let out = step_local(&mut g, &no_rules, 0, 1, rng(1, 0));
    assert!(matches!(out, StepOutcome::Changed(_)));
    assert_eq!(
        g.get(pos(2, 1)),
        Ok(Some(Pipe::new(PipeKind::Straight).with_flip(Direction::East)))
    );
    assert_eq!(g.get(pos(1, 0)), Ok(None));
}

#[test]
fn rule_candidate_rewrites_focus_and_oriented_neighbor() {
    // The classic growth rule [Cross, Empty] -> [Cross, Straight]: the
    // focus keeps its Cross (it is occupied, so it is left untouched),
    // the blank neighbor receives a Straight oriented along the match
    // direction.
    let mut g = center_cross_grid();
    let rules = vec![GenerationRule::new(
        vec![PipeKind::Cross, PipeKind::Empty],
        vec![PipeKind::Cross, PipeKind::Straight],
    )
    .unwrap()];
    // per direction the rule candidate precedes the spread; selector 0 is
    // the rule match toward North.
    let out = step_local(&mut g, &rules, 0, 1, rng(0, 0));
    match out {
        StepOutcome::Changed(ch) => {
            let expected = Pipe::new(PipeKind::Straight).with_flip(Direction::North);
            assert_eq!(ch, vec![(pos(1, 2), Some(expected))]);
            assert_eq!(g.get(pos(1, 2)), Ok(Some(expected)));
            assert_eq!(g.get(pos(1, 1)), Ok(Some(Pipe::new(PipeKind::Cross))));
        }
        other => panic!("expected Changed, got {:?}", other),
    }
}

#[test]
fn rule_candidate_writes_only_blank_cells() {
    // [Empty, Straight] -> [Straight, Elbow]: the blank focus becomes a
    // Straight; the occupied neighbor is not overwritten with the Elbow.
    let mut g = Grid::new(2, 1);
    g.set(pos(1, 0), Some(Pipe::new(PipeKind::Straight))).unwrap();
    let rules = vec![GenerationRule::new(
        vec![PipeKind::Empty, PipeKind::Straight],
        vec![PipeKind::Straight, PipeKind::Elbow],
    )
    .unwrap()];
    let out = step_local(&mut g, &rules, 0, 1, rng(0, 0));
    match out {
        StepOutcome::Changed(ch) => {
            assert_eq!(ch, vec![(pos(0, 0), Some(Pipe::new(PipeKind::Straight)))]);
        }
        other => panic!("expected Changed, got {:?}", other),
    }
    assert_eq!(g.get(pos(0, 0)), Ok(Some(Pipe::new(PipeKind::Straight))));
    assert_eq!(g.get(pos(1, 0)), Ok(Some(Pipe::new(PipeKind::Straight))));
}

#[test]
fn no_candidates_on_lone_cell_without_neighbors() {
    let mut g = Grid::new(1, 1);
    g.set(pos(0, 0), Some(Pipe::new(PipeKind::Cross))).unwrap();
    let no_rules: Vec<GenerationRule> = vec![];
    let before = g.to_linear();
    let out = step_local(&mut g, &no_rules, 0, 1, rng(0, 0));
    assert!(matches!(out, StepOutcome::NoCandidates));
    assert_eq!(g.to_linear(), before);
}

#[test]
fn no_candidates_when_grid_is_full_of_crosses() {
    // An empty rule set and a grid entirely filled with Cross tiles: no
    // blank connected neighbor exists anywhere, so the step must signal
    // NoCandidates rather than silently doing nothing.
    let mut g = Grid::new(2, 2);
    for x in 0..2 {
        for y in 0..2 {
            g.set(pos(x, y), Some(Pipe::new(PipeKind::Cross))).unwrap();
        }
    }
    let no_rules: Vec<GenerationRule> = vec![];
    let out = step_local(&mut g, &no_rules, 0, 1, rng(5, 7));
    assert!(matches!(out, StepOutcome::NoCandidates));
}

#[test]
fn blank_cells_never_initiate_spreading() {
    // A grid with pipes but no blank cell adjacent to them in a
    // connected direction, and blanks elsewhere: blanks do not spread.
    let mut g = Grid::new(3, 1);
    // A Straight flipped runs North-South: on a 3x1 strip it connects to
    // no existing neighbor, so nothing spreads from it.
    g.set(pos(1, 0), Some(Pipe::new(PipeKind::Straight).with_flip(Direction::North)))
        .unwrap();
    let no_rules: Vec<GenerationRule> = vec![];
    let out = step_local(&mut g, &no_rules, 0, 1, rng(0, 0));
    assert!(matches!(out, StepOutcome::NoCandidates));
}
