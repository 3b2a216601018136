use vstd::prelude::*;

use crate::direction::{diagonal_all, Direction};

verus! {

/// The discrete type of a grid cell's pipe.
///
/// `Any` is a pattern-only wildcard: rules may use it to match any cell, but
/// it is never stored in the grid. `Empty` stands for a blank cell inside
/// rule patterns; a blank cell in the grid itself is `None`, not a stored
/// `Empty` pipe.
#[derive(Clone, Copy, PartialEq, Eq, Structural, Debug)]
pub enum PipeKind {
    Any,
    Empty,
    Straight,
    Elbow,
    Cross,
    T,
}

impl Default for PipeKind {
    /// The default pipe kind is a Straight.
    fn default() -> (r: PipeKind)
        ensures
            r is Straight,
    {
        PipeKind::Straight
    }
}

impl PipeKind {
    /// The kinds a grid cell may actually hold.
    pub open spec fn spec_placeable(self) -> bool {
        self is Straight || self is Elbow || self is Cross || self is T
    }

    pub fn placeable(&self) -> (r: bool)
        ensures
            r == self.spec_placeable(),
    {
        match self {
            PipeKind::Straight | PipeKind::Elbow | PipeKind::Cross | PipeKind::T => true,
            PipeKind::Any | PipeKind::Empty => false,
        }
    }

    /// The kind a single character of the compact rule notation denotes,
    /// or `None` for an unknown symbol.
    pub open spec fn spec_from_char(c: char) -> Option<PipeKind> {
        if c == '*' {
            Some(PipeKind::Any)
        } else if c == ' ' {
            Some(PipeKind::Empty)
        } else if c == '-' {
            Some(PipeKind::Straight)
        } else if c == 'l' {
            Some(PipeKind::Elbow)
        } else if c == '+' {
            Some(PipeKind::Cross)
        } else if c == 'T' {
            Some(PipeKind::T)
        } else {
            None
        }
    }

    /// Decode one character of the compact notation. Unknown symbols are
    /// rejected rather than silently mapped to a default kind.
    pub fn from_char(c: char) -> (r: Option<PipeKind>)
        ensures
            r == PipeKind::spec_from_char(c),
    {
        match c {
            '*' => Some(PipeKind::Any),
            ' ' => Some(PipeKind::Empty),
            '-' => Some(PipeKind::Straight),
            'l' => Some(PipeKind::Elbow),
            '+' => Some(PipeKind::Cross),
            'T' => Some(PipeKind::T),
            _ => None,
        }
    }

    /// The character that denotes this kind in the compact notation.
    pub open spec fn spec_to_char(self) -> char {
        match self {
            PipeKind::Any => '*',
            PipeKind::Empty => ' ',
            PipeKind::Straight => '-',
            PipeKind::Elbow => 'l',
            PipeKind::Cross => '+',
            PipeKind::T => 'T',
        }
    }

    pub fn to_char(self) -> (r: char)
        ensures
            r == self.spec_to_char(),
    {
        match self {
            PipeKind::Any => '*',
            PipeKind::Empty => ' ',
            PipeKind::Straight => '-',
            PipeKind::Elbow => 'l',
            PipeKind::Cross => '+',
            PipeKind::T => 'T',
        }
    }

    /// The opaque lookup key the presentation layer uses for this kind's
    /// artwork.
    pub open spec fn spec_texture_index(self) -> u32 {
        match self {
            PipeKind::Straight => 1u32,
            PipeKind::Cross => 2u32,
            PipeKind::Elbow => 4u32,
            PipeKind::T => 3u32,
            PipeKind::Any => 0u32,
            PipeKind::Empty => 0u32,
        }
    }

    pub fn texture_index(&self) -> (r: u32)
        ensures
            r == self.spec_texture_index(),
    {
        match self {
            PipeKind::Straight => 1,
            PipeKind::Cross => 2,
            PipeKind::Elbow => 4,
            PipeKind::T => 3,
            _ => 0,
        }
    }

    /// The base connection directions of this kind, before any orientation
    /// is applied. The wildcard and the blank kind connect nowhere.
    pub open spec fn spec_connections(self) -> Seq<Direction> {
        match self {
            PipeKind::Straight => seq![Direction::East, Direction::West],
            PipeKind::Elbow => seq![Direction::South, Direction::West],
            PipeKind::Cross => seq![
                Direction::North,
                Direction::East,
                Direction::South,
                Direction::West,
            ],
            PipeKind::T => seq![Direction::North, Direction::East, Direction::South],
            PipeKind::Any => Seq::empty(),
            PipeKind::Empty => Seq::empty(),
        }
    }

    pub fn connections(&self) -> (r: Vec<Direction>)
        ensures
            r@ == self.spec_connections(),
    {
        let mut r: Vec<Direction> = Vec::new();
        match self {
            PipeKind::Straight => {
                r.push(Direction::East);
                r.push(Direction::West);
            },
            PipeKind::Elbow => {
                r.push(Direction::South);
                r.push(Direction::West);
            },
            PipeKind::Cross => {
                r.push(Direction::North);
                r.push(Direction::East);
                r.push(Direction::South);
                r.push(Direction::West);
            },
            PipeKind::T => {
                r.push(Direction::North);
                r.push(Direction::East);
                r.push(Direction::South);
            },
            PipeKind::Any | PipeKind::Empty => {},
        }
        proof {
            assert(r@ =~= self.spec_connections());
        }
        r
    }

    /// The effective connection directions of this kind under the given
    /// orientation: the base set, run through the diagonal mirror when the
    /// flip flag is set.
    pub open spec fn spec_connections_with_flip(self, flip: Flip) -> Seq<Direction> {
        if flip.d {
            diagonal_all(self.spec_connections())
        } else {
            self.spec_connections()
        }
    }

    pub fn connections_with_flip(&self, flip: Flip) -> (r: Vec<Direction>)
        ensures
            r@ == self.spec_connections_with_flip(flip),
    {
        let base = self.connections();
        if flip.d {
            let mut out: Vec<Direction> = Vec::new();
            let mut i: usize = 0;
            while i < base.len()
                invariant
                    i <= base.len(),
                    base@ == self.spec_connections(),
                    out@ == diagonal_all(base@.subrange(0, i as int)),
                decreases base.len() - i,
            {
                out.push(base[i].diagonal());
                proof {
                    assert(out@ =~= diagonal_all(base@.subrange(0, i + 1 as int)));
                }
                i = i + 1;
            }
            proof {
                assert(base@.subrange(0, base@.len() as int) =~= base@);
            }
            out
        } else {
            base
        }
    }

    /// Whether the given direction is among this kind's effective
    /// connections under the given orientation.
    pub open spec fn spec_connects(self, flip: Flip, dir: Direction) -> bool {
        self.spec_connections_with_flip(flip).contains(dir)
    }

    pub fn connects(&self, flip: Flip, dir: Direction) -> (r: bool)
        ensures
            r == self.spec_connects(flip, dir),
    {
        let conns = self.connections_with_flip(flip);
        let mut i: usize = 0;
        while i < conns.len()
            invariant
                i <= conns.len(),
                conns@ == self.spec_connections_with_flip(flip),
                forall|j: int| 0 <= j < i ==> conns@[j] != dir,
            decreases conns.len() - i,
        {
            if conns[i] == dir {
                return true;
            }
            i = i + 1;
        }
        false
    }
}

/// Reading a kind back from its own character returns that kind: the compact
/// notation is lossless.
pub proof fn lemma_char_round_trip(k: PipeKind)
    ensures
        PipeKind::spec_from_char(k.spec_to_char()) == Some(k),
{
}

/// Applying the orientation mirror to an already mirrored connection set
/// returns the base set: toggling the flip twice is the identity.
pub proof fn lemma_connections_flip_involution(k: PipeKind)
    ensures
        diagonal_all(diagonal_all(k.spec_connections())) == k.spec_connections(),
        diagonal_all(k.spec_connections_with_flip(Flip { d: true }))
            == k.spec_connections_with_flip(Flip { d: false }),
{
    crate::direction::lemma_diagonal_all_involution(k.spec_connections());
}

/// A cell's orientation: a single diagonal-reflection flag. When `d` is set,
/// the kind's base connections are remapped through the diagonal mirror.
#[derive(Clone, Copy, PartialEq, Eq, Structural, Debug)]
pub struct Flip {
    pub d: bool,
}

impl Default for Flip {
    /// The unreflected orientation.
    fn default() -> (r: Flip)
        ensures
            r == (Flip { d: false }),
    {
        Flip { d: false }
    }
}

/// One placed pipe: its kind, the presentation layer's texture key, and its
/// orientation. The texture key is always derived from the kind, and the
/// effective connectivity is always derived from kind and orientation, so
/// neither can drift out of sync with the stored pair.
#[derive(Clone, Copy, PartialEq, Eq, Structural, Debug)]
pub struct Pipe {
    pub kind: PipeKind,
    pub texture_index: u32,
    pub flip: Flip,
}

impl Pipe {
    /// A pipe whose texture key agrees with its kind.
    pub open spec fn spec_wf(self) -> bool {
        self.texture_index == self.kind.spec_texture_index()
    }

    /// A pipe the grid may store: well formed and of a placeable kind.
    pub open spec fn spec_storable(self) -> bool {
        self.spec_wf() && self.kind.spec_placeable()
    }

    /// The pipe `new` builds for a kind: unflipped, texture key derived.
    pub open spec fn spec_new(kind: PipeKind) -> Pipe {
        Pipe { kind, texture_index: kind.spec_texture_index(), flip: Flip { d: false } }
    }

    pub fn new(kind: PipeKind) -> (r: Pipe)
        ensures
            r == Pipe::spec_new(kind),
            r.spec_wf(),
    {
        Pipe { kind, texture_index: kind.texture_index(), flip: Flip { d: false } }
    }

    /// This pipe's effective connection directions, derived from its kind
    /// and orientation.
    pub open spec fn spec_connections(self) -> Seq<Direction> {
        self.kind.spec_connections_with_flip(self.flip)
    }

    pub fn connections(&self) -> (r: Vec<Direction>)
        ensures
            r@ == self.spec_connections(),
    {
        self.kind.connections_with_flip(self.flip)
    }

    /// Whether this pipe connects toward the given direction.
    pub fn connects(&self, dir: Direction) -> (r: bool)
        ensures
            r == self.spec_connections().contains(dir),
    {
        self.kind.connects(self.flip, dir)
    }

    /// The orientation `with_flip` assigns for an approach direction: the
    /// diagonal flag is set exactly for a Straight or Elbow reached along
    /// the vertical axis.
    pub open spec fn spec_with_flip(self, dir: Direction) -> Pipe {
        Pipe {
            flip: Flip {
                d: dir.spec_is_vertical() && (self.kind is Straight || self.kind is Elbow),
            },
            ..self
        }
    }

    /// Orient this pipe along an approach direction.
    pub fn with_flip(self, dir: Direction) -> (r: Pipe)
        ensures
            r == self.spec_with_flip(dir),
    {
        let vertical = match dir {
            Direction::North | Direction::South => true,
            Direction::East | Direction::West => false,
        };
        let bend = match self.kind {
            PipeKind::Straight | PipeKind::Elbow => true,
            _ => false,
        };
        Pipe { flip: Flip { d: vertical && bend }, ..self }
    }
}

} // verus!
