use pipe_grid::direction::Direction;
use pipe_grid::error::PipesError;
use pipe_grid::grid::{Grid, Position};
use pipe_grid::kind::{Pipe, PipeKind};

fn pos(x: usize, y: usize) -> Position {
    Position { x, y }
}

#[test]
fn get_out_of_bounds_fails() {
    let g = Grid::new(2, 3);
    assert_eq!(g.get(pos(2, 0)), Err(PipesError::OutOfBounds));
    assert_eq!(g.get(pos(0, 3)), Err(PipesError::OutOfBounds));
    assert_eq!(g.get(pos(7, 9)), Err(PipesError::OutOfBounds));
    assert_eq!(g.get(pos(usize::MAX, 0)), Err(PipesError::OutOfBounds));
}

#[test]
fn set_out_of_bounds_fails_and_leaves_grid_untouched() {
    let mut g = Grid::new(2, 2);
    let p = Pipe::new(PipeKind::Cross);
    assert_eq!(g.set(pos(2, 0), Some(p)), Err(PipesError::OutOfBounds));
    assert_eq!(g.set(pos(0, 2), Some(p)), Err(PipesError::OutOfBounds));
    for x in 0..2 {
        for y in 0..2 {
            assert_eq!(g.get(pos(x, y)), Ok(None));
        }
    }
}

#[test]
fn set_then_get_in_bounds() {
    let mut g = Grid::new(3, 3);
    let p = Pipe::new(PipeKind::T);
    assert_eq!(g.set(pos(2, 1), Some(p)), Ok(()));
    assert_eq!(g.get(pos(2, 1)), Ok(Some(p)));
    assert_eq!(g.get(pos(1, 2)), Ok(None));
    // set overwrites unconditionally
    let q = Pipe::new(PipeKind::Straight);
    assert_eq!(g.set(pos(2, 1), Some(q)), Ok(()));
    assert_eq!(g.get(pos(2, 1)), Ok(Some(q)));
    assert_eq!(g.set(pos(2, 1), None), Ok(()));
    assert_eq!(g.get(pos(2, 1)), Ok(None));
}

#[test]
fn neighbors_at_boundary_are_none() {
    let g = Grid::new(3, 3);
    // south-west corner
    let n = g.neighbors(pos(0, 0));
    assert_eq!(n.len(), 4);
    assert_eq!(n[0], (Direction::North, Some(pos(0, 1))));
    assert_eq!(n[1], (Direction::East, Some(pos(1, 0))));
    assert_eq!(n[2], (Direction::South, None));
    assert_eq!(n[3], (Direction::West, None));
    // north-east corner
    let m = g.neighbors(pos(2, 2));
    assert_eq!(m[0], (Direction::North, None));
    assert_eq!(m[1], (Direction::East, None));
    assert_eq!(m[2], (Direction::South, Some(pos(2, 1))));
    assert_eq!(m[3], (Direction::West, Some(pos(1, 2))));
    // interior cell has all four
    let c = g.neighbors(pos(1, 1));
    assert!(c.iter().all(|(_, n)| n.is_some()));
}

#[test]
fn linear_round_trip_restores_grid() {
    let mut g = Grid::new(3, 2);
    g.set(pos(0, 0), Some(Pipe::new(PipeKind::Cross))).unwrap();
    g.set(pos(2, 0), Some(Pipe::new(PipeKind::Straight).with_flip(Direction::North)))
        .unwrap();
    g.set(pos(1, 1), Some(Pipe::new(PipeKind::Elbow))).unwrap();
    let lin = g.to_linear();
    assert_eq!(lin.len(), 6);
    let rebuilt = Grid::from_linear(3, 2, lin);
    assert_eq!(rebuilt, g);
    assert_eq!(rebuilt.to_linear(), g.to_linear());
}

#[test]
fn linear_round_trip_of_blank_grid() {
    let g = Grid::new(4, 4);
    let rebuilt = Grid::from_linear(4, 4, g.to_linear());
    assert_eq!(rebuilt, g);
}

#[test]
fn to_linear_is_row_major() {
    let mut g = Grid::new(2, 2);
    g.set(pos(1, 0), Some(Pipe::new(PipeKind::Cross))).unwrap();
    let lin = g.to_linear();
    assert_eq!(lin[0], None);
    assert_eq!(lin[1], Some(Pipe::new(PipeKind::Cross)));
    assert_eq!(lin[2], None);
    assert_eq!(lin[3], None);
}

#[test]
fn occupied_count_tracks_sets() {
    let mut g = Grid::new(2, 2);
    assert_eq!(g.occupied_count(), 0);
    g.set(pos(0, 0), Some(Pipe::new(PipeKind::Cross))).unwrap();
    g.set(pos(1, 1), Some(Pipe::new(PipeKind::T))).unwrap();
    assert_eq!(g.occupied_count(), 2);
    g.set(pos(0, 0), None).unwrap();
    assert_eq!(g.occupied_count(), 1);
}

#[test]
fn error_descriptions() {
    assert_eq!(
        PipesError::OutOfBounds.describe(),
        "position outside the grid"
    );
    assert_eq!(
        PipesError::MalformedRule.describe(),
        "pattern and replacement lengths differ"
    );
}

#[test]
fn position_of_inverts_row_major_index() {
    let g = Grid::new(3, 2);
    assert_eq!(g.position_of(0), pos(0, 0));
    assert_eq!(g.position_of(2), pos(2, 0));
    assert_eq!(g.position_of(3), pos(0, 1));
    assert_eq!(g.position_of(5), pos(2, 1));
    assert_eq!(g.cell_count(), 6);
}
