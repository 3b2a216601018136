use pipe_grid::direction::Direction;
use pipe_grid::kind::{Flip, Pipe, PipeKind};

#[test]
fn opposite_pairs() {
    assert_eq!(Direction::North.opposite(), Direction::South);
    assert_eq!(Direction::South.opposite(), Direction::North);
    assert_eq!(Direction::East.opposite(), Direction::West);
    assert_eq!(Direction::West.opposite(), Direction::East);
}

#[test]
fn opposite_involution() {
    for d in [Direction::North, Direction::East, Direction::South, Direction::West] {
        assert_eq!(d.opposite().opposite(), d);
    }
}

#[test]
fn diagonal_mirror_pairs() {
    assert_eq!(Direction::North.diagonal(), Direction::West);
    assert_eq!(Direction::West.diagonal(), Direction::North);
    assert_eq!(Direction::South.diagonal(), Direction::East);
    assert_eq!(Direction::East.diagonal(), Direction::South);
}

#[test]
fn base_connections() {
    assert_eq!(
        PipeKind::Straight.connections(),
        vec![Direction::East, Direction::West]
    );
    assert_eq!(
        PipeKind::Elbow.connections(),
        vec![Direction::South, Direction::West]
    );
    assert_eq!(
        PipeKind::Cross.connections(),
        vec![
            Direction::North,
            Direction::East,
            Direction::South,
            Direction::West
        ]
    );
    assert_eq!(
        PipeKind::T.connections(),
        vec![Direction::North, Direction::East, Direction::South]
    );
    assert_eq!(PipeKind::Empty.connections(), vec![]);
    assert_eq!(PipeKind::Any.connections(), vec![]);
}

#[test]
fn flipped_connections() {
    // A flipped Straight runs along the vertical axis.
    assert_eq!(
        PipeKind::Straight.connections_with_flip(Flip { d: true }),
        vec![Direction::South, Direction::North]
    );
    // A flipped T: North -> West, East -> South, South -> East.
    assert_eq!(
        PipeKind::T.connections_with_flip(Flip { d: true }),
        vec![Direction::West, Direction::South, Direction::East]
    );
    // Unflipped is the base set.
    assert_eq!(
        PipeKind::Elbow.connections_with_flip(Flip { d: false }),
        PipeKind::Elbow.connections()
    );
}

#[test]
fn flip_twice_restores_connections() {
    // Toggling the diagonal flip twice is the identity on connection sets.
    for kind in [
        PipeKind::Straight,
        PipeKind::Elbow,
        PipeKind::Cross,
        PipeKind::T,
        PipeKind::Empty,
    ] {
        let flipped = kind.connections_with_flip(Flip { d: true });
        let twice: Vec<Direction> = flipped.iter().map(|d| d.diagonal()).collect();
        assert_eq!(twice, kind.connections());
    }
}

#[test]
fn char_codec_round_trip() {
    for kind in [
        PipeKind::Any,
        PipeKind::Empty,
        PipeKind::Straight,
        PipeKind::Elbow,
        PipeKind::Cross,
        PipeKind::T,
    ] {
        assert_eq!(PipeKind::from_char(kind.to_char()), Some(kind));
    }
}

#[test]
fn char_codec_rejects_unknown_symbols() {
    assert_eq!(PipeKind::from_char('x'), None);
    assert_eq!(PipeKind::from_char('0'), None);
    assert_eq!(PipeKind::from_char('#'), None);
}

#[test]
fn texture_indices() {
    assert_eq!(PipeKind::Straight.texture_index(), 1);
    assert_eq!(PipeKind::Cross.texture_index(), 2);
    assert_eq!(PipeKind::T.texture_index(), 3);
    assert_eq!(PipeKind::Elbow.texture_index(), 4);
    assert_eq!(PipeKind::Empty.texture_index(), 0);
    assert_eq!(PipeKind::Any.texture_index(), 0);
}

#[test]
fn default_kind_is_straight() {
    assert_eq!(PipeKind::default(), PipeKind::Straight);
}

#[test]
fn default_flip_is_unreflected() {
    assert!(!Flip::default().d);
}

#[test]
fn pipe_new_derives_texture_and_orientation() {
    let p = Pipe::new(PipeKind::Elbow);
    assert_eq!(p.kind, PipeKind::Elbow);
    assert_eq!(p.texture_index, 4);
    assert!(!p.flip.d);
}

#[test]
fn with_flip_only_bends_vertical_straights_and_elbows() {
    assert!(Pipe::new(PipeKind::Straight).with_flip(Direction::North).flip.d);
    assert!(Pipe::new(PipeKind::Straight).with_flip(Direction::South).flip.d);
    assert!(!Pipe::new(PipeKind::Straight).with_flip(Direction::East).flip.d);
    assert!(Pipe::new(PipeKind::Elbow).with_flip(Direction::North).flip.d);
    assert!(!Pipe::new(PipeKind::Cross).with_flip(Direction::North).flip.d);
    assert!(!Pipe::new(PipeKind::T).with_flip(Direction::South).flip.d);
}

#[test]
fn pipe_connections_follow_orientation() {
    let p = Pipe::new(PipeKind::Straight).with_flip(Direction::North);
    assert_eq!(p.connections(), vec![Direction::South, Direction::North]);
    let q = Pipe::new(PipeKind::Cross);
    assert_eq!(q.connections(), PipeKind::Cross.connections());
}
