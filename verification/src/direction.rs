use vstd::prelude::*;

verus! {

/// One of the four cardinal directions in which a pipe edge can join a
/// neighboring cell.
#[derive(Clone, Copy, PartialEq, Eq, Structural, Debug)]
pub enum Direction {
    North,
    East,
    South,
    West,
}

impl Direction {
    /// The direction pointing the opposite way.
    pub open spec fn spec_opposite(self) -> Direction {
        match self {
            Direction::North => Direction::South,
            Direction::South => Direction::North,
            Direction::East => Direction::West,
            Direction::West => Direction::East,
        }
    }

    pub fn opposite(self) -> (r: Direction)
        ensures
            r == self.spec_opposite(),
    {
        match self {
            Direction::North => Direction::South,
            Direction::South => Direction::North,
            Direction::East => Direction::West,
            Direction::West => Direction::East,
        }
    }

    /// Where the diagonal mirror sends this direction: North and West swap,
    /// South and East swap.
    pub open spec fn spec_diagonal(self) -> Direction {
        match self {
            Direction::North => Direction::West,
            Direction::South => Direction::East,
            Direction::East => Direction::South,
            Direction::West => Direction::North,
        }
    }

    pub fn diagonal(self) -> (r: Direction)
        ensures
            r == self.spec_diagonal(),
    {
        match self {
            Direction::North => Direction::West,
            Direction::South => Direction::East,
            Direction::East => Direction::South,
            Direction::West => Direction::North,
        }
    }

    /// Whether this direction runs along the vertical axis.
    pub open spec fn spec_is_vertical(self) -> bool {
        self is North || self is South
    }
}

/// The diagonal mirror applied to every direction of a connection list.
pub open spec fn diagonal_all(s: Seq<Direction>) -> Seq<Direction> {
    s.map_values(|d: Direction| d.spec_diagonal())
}

/// Taking the opposite twice returns the original direction.
pub proof fn lemma_opposite_involution(d: Direction)
    ensures
        d.spec_opposite().spec_opposite() == d,
{
}

/// The diagonal mirror is an involution on single directions.
pub proof fn lemma_diagonal_involution(d: Direction)
    ensures
        d.spec_diagonal().spec_diagonal() == d,
{
}

/// The diagonal mirror is an involution on whole connection lists.
pub proof fn lemma_diagonal_all_involution(s: Seq<Direction>)
    ensures
        diagonal_all(diagonal_all(s)) == s,
{
    assert(diagonal_all(diagonal_all(s)) =~= s);
}

} // verus!
