use vstd::prelude::*;
use crate::util::adjacency::Adjacency;

verus! {

/// A facing of an icon state.
#[derive(Clone, Copy, PartialEq, Eq, Structural, Debug)]
pub enum Direction {
    N,
    S,
    E,
    W,
    NE,
    SE,
    SW,
    NW,
}

impl Direction {
    /// The facing of an icon state that has only one.
    pub const STANDARD: Direction = Direction::S;

    /// The cardinal directions in the order the engine stores them.
    pub open spec fn spec_dmi_cardinals() -> Seq<Direction> {
        seq![Direction::S, Direction::N, Direction::E, Direction::W]
    }

    pub fn dmi_cardinals() -> (r: [Direction; 4])
        ensures
            r@ == Direction::spec_dmi_cardinals(),
    {
        let r = [Direction::S, Direction::N, Direction::E, Direction::W];
        assert(r@ =~= Direction::spec_dmi_cardinals());
        r
    }

    /// All eight directions in the order the engine stores them.
    pub open spec fn spec_dmi_all() -> Seq<Direction> {
        seq![
            Direction::S,
            Direction::N,
            Direction::E,
            Direction::W,
            Direction::SE,
            Direction::SW,
            Direction::NE,
            Direction::NW,
        ]
    }

    pub fn dmi_all() -> (r: [Direction; 8])
        ensures
            r@ == Direction::spec_dmi_all(),
    {
        let r = [
            Direction::S,
            Direction::N,
            Direction::E,
            Direction::W,
            Direction::SE,
            Direction::SW,
            Direction::NE,
            Direction::NW,
        ];
        assert(r@ =~= Direction::spec_dmi_all());
        r
    }

    /// Whether a direction is one of north, south, east, west.
    pub open spec fn spec_is_cardinal(self) -> bool {
        self == Direction::N || self == Direction::S || self == Direction::E || self
            == Direction::W
    }

    #[verifier::when_used_as_spec(spec_is_cardinal)]
    pub fn is_cardinal(self) -> (r: bool)
        ensures
            r == self.spec_is_cardinal(),
    {
        match self {
            Direction::N | Direction::S | Direction::E | Direction::W => true,
            _ => false,
        }
    }

    /// The name of a direction as it appears in diagnostic file names.
    pub open spec fn spec_name(self) -> Seq<char> {
        match self {
            Direction::N => "N"@,
            Direction::S => "S"@,
            Direction::E => "E"@,
            Direction::W => "W"@,
            Direction::NE => "NE"@,
            Direction::SE => "SE"@,
            Direction::SW => "SW"@,
            Direction::NW => "NW"@,
        }
    }

    pub fn name(self) -> (r: &'static str)
        ensures
            r@ == self.spec_name(),
    {
        match self {
            Direction::N => "N",
            Direction::S => "S",
            Direction::E => "E",
            Direction::W => "W",
            Direction::NE => "NE",
            Direction::SE => "SE",
            Direction::SW => "SW",
            Direction::NW => "NW",
        }
    }
}

/// How the directions of the output relate to the input atlas.
#[derive(Clone, Copy, PartialEq, Eq, Structural, Debug)]
pub enum DirectionStrategy {
    /// One direction in, one direction out.
    Standard,
    /// Four directions out, each with its own set of inputs.
    Cardinals,
    /// Four directions out of one set of inputs: each direction shows the
    /// sprite of the rotated adjacency.
    CardinalsRotated,
    /// Eight directions out, each with its own set of inputs.
    All,
}

impl Default for DirectionStrategy {
    fn default() -> (r: DirectionStrategy)
        ensures
            r == DirectionStrategy::Standard,
    {
        DirectionStrategy::Standard
    }
}

impl DirectionStrategy {
    /// The strategy that a number of directions per icon state stands for.
    /// Four directions are read as `Cardinals`: the count alone cannot tell
    /// `Cardinals` from `CardinalsRotated`.
    pub open spec fn spec_count_to_strategy(count: u8) -> Option<DirectionStrategy> {
        if count == 1 {
            Some(DirectionStrategy::Standard)
        } else if count == 4 {
            Some(DirectionStrategy::Cardinals)
        } else if count == 8 {
            Some(DirectionStrategy::All)
        } else {
            None
        }
    }

    #[verifier::when_used_as_spec(spec_count_to_strategy)]
    pub fn count_to_strategy(count: u8) -> (r: Option<DirectionStrategy>)
        ensures
            r == DirectionStrategy::spec_count_to_strategy(count),
    {
        match count {
            1 => Some(DirectionStrategy::Standard),
            4 => Some(DirectionStrategy::Cardinals),
            8 => Some(DirectionStrategy::All),
            _ => None,
        }
    }

    /// The directions that the input atlas holds a set of tiles for.
    pub open spec fn spec_input_vec(self) -> Seq<Direction> {
        match self {
            DirectionStrategy::Standard => seq![Direction::S],
            DirectionStrategy::Cardinals => Direction::spec_dmi_cardinals(),
            DirectionStrategy::CardinalsRotated => seq![Direction::S],
            DirectionStrategy::All => Direction::spec_dmi_all(),
        }
    }

    pub fn input_vec(&self) -> (r: Vec<Direction>)
        ensures
            r@ == self.spec_input_vec(),
    {
        let mut r: Vec<Direction> = Vec::new();
        match self {
            DirectionStrategy::Standard | DirectionStrategy::CardinalsRotated => {
                r.push(Direction::STANDARD);
            },
            DirectionStrategy::Cardinals => {
                r.push(Direction::S);
                r.push(Direction::N);
                r.push(Direction::E);
                r.push(Direction::W);
            },
            DirectionStrategy::All => {
                r.push(Direction::S);
                r.push(Direction::N);
                r.push(Direction::E);
                r.push(Direction::W);
                r.push(Direction::SE);
                r.push(Direction::SW);
                r.push(Direction::NE);
                r.push(Direction::NW);
            },
        }
        assert(r@ =~= self.spec_input_vec());
        r
    }

    /// The directions of each icon state that is produced.
    pub open spec fn spec_output_vec(self) -> Seq<Direction> {
        match self {
            DirectionStrategy::CardinalsRotated => Direction::spec_dmi_cardinals(),
            _ => self.spec_input_vec(),
        }
    }

    pub fn output_vec(&self) -> (r: Vec<Direction>)
        ensures
            r@ == self.spec_output_vec(),
    {
        match self {
            DirectionStrategy::CardinalsRotated => {
                let mut r: Vec<Direction> = Vec::new();
                r.push(Direction::S);
                r.push(Direction::N);
                r.push(Direction::E);
                r.push(Direction::W);
                assert(r@ =~= self.spec_output_vec());
                r
            },
            _ => self.input_vec(),
        }
    }

    /// Each input direction with the position of its set of tiles in the
    /// atlas, in atlas order.
    pub fn input_positions(&self) -> (r: Vec<(Direction, u32)>)
        ensures
            r@.len() == self.spec_input_vec().len(),
            forall|i: int|
                0 <= i < r@.len() ==> #[trigger] r@[i] == (self.spec_input_vec()[i], i as u32),
    {
        let dirs = self.input_vec();
        let mut r: Vec<(Direction, u32)> = Vec::new();
        let mut i: usize = 0;
        while i < dirs.len()
            invariant
                dirs@ == self.spec_input_vec(),
                dirs@.len() <= 8,
                i <= dirs@.len(),
                r@.len() == i,
                forall|k: int| 0 <= k < i ==> #[trigger] r@[k] == (dirs@[k], k as u32),
            decreases dirs@.len() - i,
        {
            r.push((dirs[i], i as u32));
            i += 1;
        }
        r
    }

    /// The adjacency whose sprite an output direction shows for
    /// `adjacency`: the rotated adjacency where directions are rotations,
    /// and else `adjacency` itself.
    pub open spec fn spec_rotate_adjacency(&self, adjacency: Adjacency, direction: Direction) -> Adjacency {
        match self {
            DirectionStrategy::CardinalsRotated => adjacency.spec_rotate_to(direction),
            _ => adjacency,
        }
    }

    pub fn rotate_adjacency(&self, adjacency: Adjacency, direction: Direction) -> (r: Adjacency)
        requires
            *self == DirectionStrategy::CardinalsRotated ==> adjacency.spec_can_rotate_to(direction),
        ensures
            r == self.spec_rotate_adjacency(adjacency, direction),
    {
        match self {
            DirectionStrategy::CardinalsRotated => adjacency.rotate_to(direction),
            _ => adjacency,
        }
    }

    /// The name of a strategy, as configuration files spell it.
    pub open spec fn spec_name(self) -> Seq<char> {
        match self {
            DirectionStrategy::Standard => "Standard"@,
            DirectionStrategy::Cardinals => "Cardinals"@,
            DirectionStrategy::CardinalsRotated => "CardinalsRotated"@,
            DirectionStrategy::All => "All"@,
        }
    }

    pub fn name(self) -> (r: &'static str)
        ensures
            r@ == self.spec_name(),
    {
        match self {
            DirectionStrategy::Standard => "Standard",
            DirectionStrategy::Cardinals => "Cardinals",
            DirectionStrategy::CardinalsRotated => "CardinalsRotated",
            DirectionStrategy::All => "All",
        }
    }

    /// Reading the number of output directions back gives the strategy again,
    /// for each strategy that the count determines.
    pub proof fn lemma_count_round_trip(strategy: DirectionStrategy)
        requires
            strategy != DirectionStrategy::CardinalsRotated,
        ensures
            DirectionStrategy::spec_count_to_strategy(strategy.spec_output_vec().len() as u8)
                == Some(strategy),
    {
    }
}

} // verus!
