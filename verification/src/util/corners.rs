use vstd::prelude::*;
use crate::util::adjacency::{
    spec_turned_clockwise,
    spec_turned_counter,
    spec_turned_half,
    Adjacency,
};
use crate::util::directions::Direction;
use crate::util::text::str_equal;

verus! {

/// A side of a tile, named by the unrotated cardinal direction it faces.
#[derive(Clone, Copy, PartialEq, Eq, Structural, Hash, Debug)]
pub enum Side {
    North,
    South,
    East,
    West,
}

impl Side {
    /// The engine's bit for this side: north 1, south 2, east 4, west 8.
    pub open spec fn spec_byond_dir(&self) -> u8 {
        match self {
            Side::North => 1,
            Side::South => 2,
            Side::East => 4,
            Side::West => 8,
        }
    }

    #[verifier::when_used_as_spec(spec_byond_dir)]
    pub fn byond_dir(&self) -> (r: u8)
        ensures
            r == self.spec_byond_dir(),
    {
        match self {
            Side::North => 1,
            Side::South => 2,
            Side::East => 4,
            Side::West => 8,
        }
    }

    /// The four sides in the order the engine stores directions.
    pub open spec fn spec_dmi_cardinals() -> Seq<Side> {
        seq![Side::South, Side::North, Side::East, Side::West]
    }

    pub fn dmi_cardinals() -> (r: [Side; 4])
        ensures
            r@ == Side::spec_dmi_cardinals(),
    {
        let r = [Side::South, Side::North, Side::East, Side::West];
        assert(r@ =~= Side::spec_dmi_cardinals());
        r
    }

    /// North and south are the vertical sides.
    pub open spec fn spec_is_vertical(self) -> bool {
        self == Side::North || self == Side::South
    }

    #[verifier::when_used_as_spec(spec_is_vertical)]
    pub fn is_vertical(self) -> (r: bool)
        ensures
            r == self.spec_is_vertical(),
    {
        match self {
            Side::North | Side::South => true,
            Side::East | Side::West => false,
        }
    }

    /// The lower-case name of a side.
    pub open spec fn spec_name(self) -> Seq<char> {
        match self {
            Side::North => "north"@,
            Side::South => "south"@,
            Side::East => "east"@,
            Side::West => "west"@,
        }
    }

    pub fn name(self) -> (r: &'static str)
        ensures
            r@ == self.spec_name(),
    {
        match self {
            Side::North => "north",
            Side::South => "south",
            Side::East => "east",
            Side::West => "west",
        }
    }

    /// The side with a given name, if it is the name of a side.
    pub fn from_name(s: &str) -> (r: Option<Side>)
        ensures
            r matches Some(side) ==> side.spec_name() == s@,
            r is None ==> forall|side: Side| side.spec_name() != s@,
    {
        if str_equal(s, "north") {
            Some(Side::North)
        } else if str_equal(s, "south") {
            Some(Side::South)
        } else if str_equal(s, "east") {
            Some(Side::East)
        } else if str_equal(s, "west") {
            Some(Side::West)
        } else {
            None
        }
    }
}

/// A corner of a tile.
#[derive(Clone, Copy, PartialEq, Eq, Structural, Hash, Debug)]
pub enum Corner {
    NorthEast,
    SouthEast,
    SouthWest,
    NorthWest,
}

impl Corner {
    /// The two sides that meet in a corner, as (horizontal, vertical):
    /// the east or west side first, the north or south side second.
    pub open spec fn spec_sides_of_corner(self) -> (Side, Side) {
        match self {
            Corner::NorthEast => (Side::East, Side::North),
            Corner::SouthEast => (Side::East, Side::South),
            Corner::SouthWest => (Side::West, Side::South),
            Corner::NorthWest => (Side::West, Side::North),
        }
    }

    #[verifier::when_used_as_spec(spec_sides_of_corner)]
    pub fn sides_of_corner(self) -> (r: (Side, Side))
        ensures
            r == self.spec_sides_of_corner(),
            !r.0.is_vertical(),
            r.1.is_vertical(),
    {
        match self {
            Corner::NorthEast => (Side::East, Side::North),
            Corner::SouthEast => (Side::East, Side::South),
            Corner::SouthWest => (Side::West, Side::South),
            Corner::NorthWest => (Side::West, Side::North),
        }
    }

    /// The engine's direction bits of a corner: those of its two sides together.
    pub open spec fn spec_byond_dir(self) -> u8 {
        match self {
            Corner::NorthEast => 5,
            Corner::SouthEast => 6,
            Corner::SouthWest => 10,
            Corner::NorthWest => 9,
        }
    }

    #[verifier::when_used_as_spec(spec_byond_dir)]
    pub fn byond_dir(self) -> (r: u8)
        ensures
            r == self.spec_byond_dir(),
            r == self.sides_of_corner().0.byond_dir() + self.sides_of_corner().1.byond_dir(),
    {
        let (horizontal, vertical) = self.sides_of_corner();
        let h: u8 = horizontal.byond_dir();
        let v: u8 = vertical.byond_dir();
        assert(4u8 | 1u8 == 5u8 && 4u8 | 2u8 == 6u8 && 8u8 | 2u8 == 10u8 && 8u8 | 1u8 == 9u8)
            by (bit_vector);
        h | v
    }

    /// The four corners, in declaration order.
    pub open spec fn spec_all() -> Seq<Corner> {
        seq![Corner::NorthEast, Corner::SouthEast, Corner::SouthWest, Corner::NorthWest]
    }

    pub fn all() -> (r: [Corner; 4])
        ensures
            r@ == Corner::spec_all(),
    {
        let r = [Corner::NorthEast, Corner::SouthEast, Corner::SouthWest, Corner::NorthWest];
        assert(r@ =~= Corner::spec_all());
        r
    }

    /// Position of a corner in `all`.
    pub open spec fn spec_ordinal(self) -> int {
        match self {
            Corner::NorthEast => 0,
            Corner::SouthEast => 1,
            Corner::SouthWest => 2,
            Corner::NorthWest => 3,
        }
    }

    pub fn ordinal(self) -> (r: usize)
        ensures
            r == self.spec_ordinal(),
            r < 4,
            Corner::spec_all()[r as int] == self,
    {
        match self {
            Corner::NorthEast => 0,
            Corner::SouthEast => 1,
            Corner::SouthWest => 2,
            Corner::NorthWest => 3,
        }
    }

    /// The name of a corner as it appears in diagnostic file names.
    pub open spec fn spec_name(self) -> Seq<char> {
        match self {
            Corner::NorthEast => "NorthEast"@,
            Corner::SouthEast => "SouthEast"@,
            Corner::SouthWest => "SouthWest"@,
            Corner::NorthWest => "NorthWest"@,
        }
    }

    pub fn name(self) -> (r: &'static str)
        ensures
            r@ == self.spec_name(),
    {
        match self {
            Corner::NorthEast => "NorthEast",
            Corner::SouthEast => "SouthEast",
            Corner::SouthWest => "SouthWest",
            Corner::NorthWest => "NorthWest",
        }
    }
}

/// The role a corner sub-image plays. The first five are the states of
/// ordinary bitmask smoothing; the eight inner and outer kinds are the extra
/// corners of L-shaped walls.
#[derive(Clone, Copy, PartialEq, Eq, Structural, Hash, Debug)]
pub enum CornerType {
    Convex,
    Concave,
    Horizontal,
    Vertical,
    Flat,
    BottomRightInner,
    BottomLeftInner,
    TopRightInner,
    TopLeftInner,
    BottomRightOuter,
    BottomLeftOuter,
    TopRightOuter,
    TopLeftOuter,
}

/// How many corner types there are.
pub const CORNER_TYPE_COUNT: usize = 13;

impl CornerType {
    /// Position of a corner type in declaration order.
    pub open spec fn spec_ordinal(self) -> int {
        match self {
            CornerType::Convex => 0,
            CornerType::Concave => 1,
            CornerType::Horizontal => 2,
            CornerType::Vertical => 3,
            CornerType::Flat => 4,
            CornerType::BottomRightInner => 5,
            CornerType::BottomLeftInner => 6,
            CornerType::TopRightInner => 7,
            CornerType::TopLeftInner => 8,
            CornerType::BottomRightOuter => 9,
            CornerType::BottomLeftOuter => 10,
            CornerType::TopRightOuter => 11,
            CornerType::TopLeftOuter => 12,
        }
    }

    pub fn ordinal(self) -> (r: usize)
        ensures
            r == self.spec_ordinal(),
            r < CORNER_TYPE_COUNT,
    {
        match self {
            CornerType::Convex => 0,
            CornerType::Concave => 1,
            CornerType::Horizontal => 2,
            CornerType::Vertical => 3,
            CornerType::Flat => 4,
            CornerType::BottomRightInner => 5,
            CornerType::BottomLeftInner => 6,
            CornerType::TopRightInner => 7,
            CornerType::TopLeftInner => 8,
            CornerType::BottomRightOuter => 9,
            CornerType::BottomLeftOuter => 10,
            CornerType::TopRightOuter => 11,
            CornerType::TopLeftOuter => 12,
        }
    }

    /// The snake-case name of a corner type, as configuration files spell it.
    pub open spec fn spec_name(self) -> Seq<char> {
        match self {
            CornerType::Convex => "convex"@,
            CornerType::Concave => "concave"@,
            CornerType::Horizontal => "horizontal"@,
            CornerType::Vertical => "vertical"@,
            CornerType::Flat => "flat"@,
            CornerType::BottomRightInner => "bottom_right_inner"@,
            CornerType::BottomLeftInner => "bottom_left_inner"@,
            CornerType::TopRightInner => "top_right_inner"@,
            CornerType::TopLeftInner => "top_left_inner"@,
            CornerType::BottomRightOuter => "bottom_right_outer"@,
            CornerType::BottomLeftOuter => "bottom_left_outer"@,
            CornerType::TopRightOuter => "top_right_outer"@,
            CornerType::TopLeftOuter => "top_left_outer"@,
        }
    }

    pub fn name(self) -> (r: &'static str)
        ensures
            r@ == self.spec_name(),
    {
        match self {
            CornerType::Convex => "convex",
            CornerType::Concave => "concave",
            CornerType::Horizontal => "horizontal",
            CornerType::Vertical => "vertical",
            CornerType::Flat => "flat",
            CornerType::BottomRightInner => "bottom_right_inner",
            CornerType::BottomLeftInner => "bottom_left_inner",
            CornerType::TopRightInner => "top_right_inner",
            CornerType::TopLeftInner => "top_left_inner",
            CornerType::BottomRightOuter => "bottom_right_outer",
            CornerType::BottomLeftOuter => "bottom_left_outer",
            CornerType::TopRightOuter => "top_right_outer",
            CornerType::TopLeftOuter => "top_left_outer",
        }
    }

    /// The kind of corner with a given name, if it is the name of one.
    pub fn from_name(value: &str) -> (r: Option<CornerType>)
        ensures
            r matches Some(kind) ==> kind.spec_name() == value@,
            r is None ==> forall|kind: CornerType| kind.spec_name() != value@,
    {
        if str_equal(value, "convex") {
            Some(CornerType::Convex)
        } else if str_equal(value, "concave") {
            Some(CornerType::Concave)
        } else if str_equal(value, "horizontal") {
            Some(CornerType::Horizontal)
        } else if str_equal(value, "vertical") {
            Some(CornerType::Vertical)
        } else if str_equal(value, "flat") {
            Some(CornerType::Flat)
        } else if str_equal(value, "bottom_right_inner") {
            Some(CornerType::BottomRightInner)
        } else if str_equal(value, "bottom_left_inner") {
            Some(CornerType::BottomLeftInner)
        } else if str_equal(value, "top_right_inner") {
            Some(CornerType::TopRightInner)
        } else if str_equal(value, "top_left_inner") {
            Some(CornerType::TopLeftInner)
        } else if str_equal(value, "bottom_right_outer") {
            Some(CornerType::BottomRightOuter)
        } else if str_equal(value, "bottom_left_outer") {
            Some(CornerType::BottomLeftOuter)
        } else if str_equal(value, "top_right_outer") {
            Some(CornerType::TopRightOuter)
        } else if str_equal(value, "top_left_outer") {
            Some(CornerType::TopLeftOuter)
        } else {
            None
        }
    }

    /// The name of a corner type as it appears in diagnostic file names.
    pub open spec fn spec_debug_name(self) -> Seq<char> {
        match self {
            CornerType::Convex => "Convex"@,
            CornerType::Concave => "Concave"@,
            CornerType::Horizontal => "Horizontal"@,
            CornerType::Vertical => "Vertical"@,
            CornerType::Flat => "Flat"@,
            CornerType::BottomRightInner => "BottomRightInner"@,
            CornerType::BottomLeftInner => "BottomLeftInner"@,
            CornerType::TopRightInner => "TopRightInner"@,
            CornerType::TopLeftInner => "TopLeftInner"@,
            CornerType::BottomRightOuter => "BottomRightOuter"@,
            CornerType::BottomLeftOuter => "BottomLeftOuter"@,
            CornerType::TopRightOuter => "TopRightOuter"@,
            CornerType::TopLeftOuter => "TopLeftOuter"@,
        }
    }

    pub fn debug_name(self) -> (r: &'static str)
        ensures
            r@ == self.spec_debug_name(),
    {
        match self {
            CornerType::Convex => "Convex",
            CornerType::Concave => "Concave",
            CornerType::Horizontal => "Horizontal",
            CornerType::Vertical => "Vertical",
            CornerType::Flat => "Flat",
            CornerType::BottomRightInner => "BottomRightInner",
            CornerType::BottomLeftInner => "BottomLeftInner",
            CornerType::TopRightInner => "TopRightInner",
            CornerType::TopLeftInner => "TopLeftInner",
            CornerType::BottomRightOuter => "BottomRightOuter",
            CornerType::BottomLeftOuter => "BottomLeftOuter",
            CornerType::TopRightOuter => "TopRightOuter",
            CornerType::TopLeftOuter => "TopLeftOuter",
        }
    }
}

/// Which neighbours decide the look of a tile, and so which adjacencies
/// get an icon state and which kinds of corner the atlas supplies.
#[derive(Clone, Copy, PartialEq, Eq, Structural, Debug)]
pub enum CornerSet {
    /// The four cardinal neighbours.
    Cardinal,
    /// All eight neighbours; the atlas adds the flat kind of corner.
    StandardDiagonal,
    /// All eight neighbours, and for each L-shaped tile an inner or outer
    /// variant; the atlas adds the flat kind and the eight inner and outer
    /// kinds.
    CornerDiagonal,
}

impl Default for CornerSet {
    fn default() -> (r: CornerSet)
        ensures
            r == CornerSet::Cardinal,
    {
        CornerSet::Cardinal
    }
}

/// Whether these neighbour bits are two cardinal neighbours that meet in a
/// corner, and nothing else.
pub open spec fn is_diagonal_cardinal(bits: int) -> bool {
    bits == 0x005 || bits == 0x006 || bits == 0x00a || bits == 0x009
}

/// Whether these neighbour bits are a diagonal neighbour with its two
/// sides, and nothing else.
pub open spec fn is_filled_diagonal(bits: int) -> bool {
    bits == 0x015 || bits == 0x026 || bits == 0x04a || bits == 0x089
}

impl CornerSet {
    /// The number of neighbour patterns: two to the number of neighbours
    /// that count.
    pub open spec fn spec_possible_bit_states(&self) -> u16 {
        match self {
            CornerSet::Cardinal => 16,
            CornerSet::StandardDiagonal => 256,
            CornerSet::CornerDiagonal => 256,
        }
    }

    #[verifier::when_used_as_spec(spec_possible_bit_states)]
    pub fn possible_bit_states(&self) -> (r: u16)
        ensures
            r == self.spec_possible_bit_states(),
    {
        match self {
            CornerSet::Cardinal => 16,
            CornerSet::StandardDiagonal => 256,
            CornerSet::CornerDiagonal => 256,
        }
    }

    /// The adjacencies that the corner-diagonal set emits for one neighbour
    /// pattern: the pattern itself, and after it the inner variant of two
    /// sides that meet in a corner, or the outer variant of a diagonal with
    /// its two sides.
    pub open spec fn spec_variants(bits: int) -> Seq<Adjacency> {
        if is_diagonal_cardinal(bits) {
            seq![Adjacency::of_bits(bits as u16), Adjacency::of_bits((bits + 0x100) as u16)]
        } else if is_filled_diagonal(bits) {
            seq![Adjacency::of_bits(bits as u16), Adjacency::of_bits((bits + 0x200) as u16)]
        } else {
            seq![Adjacency::of_bits(bits as u16)]
        }
    }

    /// The adjacencies that the corner-diagonal set emits for the neighbour
    /// patterns below `count`, pattern by pattern.
    pub open spec fn spec_expanded_upto(count: nat) -> Seq<Adjacency>
        decreases count,
    {
        if count == 0 {
            Seq::empty()
        } else {
            CornerSet::spec_expanded_upto((count - 1) as nat) + CornerSet::spec_variants(
                count - 1,
            )
        }
    }

    /// Every adjacency that gets composed, in the order of composition.
    pub open spec fn spec_output_adjacencies(&self) -> Seq<Adjacency> {
        match self {
            CornerSet::CornerDiagonal => CornerSet::spec_expanded_upto(256),
            _ => Seq::new(
                self.spec_possible_bit_states() as nat,
                |i: int| Adjacency::of_bits(i as u16),
            ),
        }
    }

    /// Whether an adjacency is one of those that get composed.
    pub open spec fn spec_emits(&self, adjacency: Adjacency) -> bool {
        match self {
            CornerSet::Cardinal => adjacency@ < 16,
            CornerSet::StandardDiagonal => adjacency@ < 256,
            CornerSet::CornerDiagonal => adjacency@ < 256 || is_diagonal_cardinal(
                adjacency@ - 0x100,
            ) || is_filled_diagonal(adjacency@ - 0x200),
        }
    }

    pub fn output_adjacencies(&self) -> (r: Vec<Adjacency>)
        ensures
            r@ == self.spec_output_adjacencies(),
    {
        let count: u16 = self.possible_bit_states();
        let mut r: Vec<Adjacency> = Vec::new();
        let mut bits: u16 = 0;
        match self {
            CornerSet::CornerDiagonal => {
                while bits < count
                    invariant
                        count == 256,
                        bits <= count,
                        r@ == CornerSet::spec_expanded_upto(bits as nat),
                    decreases count - bits,
                {
                    broadcast use Adjacency::lemma_of_bits, Adjacency::lemma_of_view;

                    let adjacency = Adjacency::from_bits(bits).unwrap();
                    r.push(adjacency);
                    if bits == 0x005 || bits == 0x006 || bits == 0x00a || bits == 0x009 {
                        let marked = Adjacency::from_bits(bits + 0x100).unwrap();
                        r.push(marked);
                    } else if bits == 0x015 || bits == 0x026 || bits == 0x04a || bits == 0x089 {
                        let marked = Adjacency::from_bits(bits + 0x200).unwrap();
                        r.push(marked);
                    }
                    assert(r@ =~= CornerSet::spec_expanded_upto(bits as nat)
                        + CornerSet::spec_variants(bits as int));
                    bits += 1;
                }
            },
            _ => {
                while bits < count
                    invariant
                        count == self.spec_possible_bit_states(),
                        count <= 256,
                        bits <= count,
                        r@.len() == bits,
                        forall|i: int|
                            0 <= i < bits ==> #[trigger] r@[i] == Adjacency::of_bits(i as u16),
                    decreases count - bits,
                {
                    broadcast use Adjacency::lemma_of_bits, Adjacency::lemma_of_view;

                    let adjacency = Adjacency::from_bits(bits).unwrap();
                    r.push(adjacency);
                    bits += 1;
                }
                assert(r@ =~= self.spec_output_adjacencies());
            },
        }
        r
    }

    /// The kinds of corner that the atlas supplies a tile for, in order.
    pub open spec fn spec_corners_used(&self) -> Seq<CornerType> {
        match self {
            CornerSet::Cardinal => seq![
                CornerType::Convex,
                CornerType::Concave,
                CornerType::Horizontal,
                CornerType::Vertical,
            ],
            CornerSet::StandardDiagonal => seq![
                CornerType::Convex,
                CornerType::Concave,
                CornerType::Horizontal,
                CornerType::Vertical,
                CornerType::Flat,
            ],
            CornerSet::CornerDiagonal => seq![
                CornerType::Convex,
                CornerType::Concave,
                CornerType::Horizontal,
                CornerType::Vertical,
                CornerType::Flat,
                CornerType::BottomRightInner,
                CornerType::BottomLeftInner,
                CornerType::TopRightInner,
                CornerType::TopLeftInner,
                CornerType::BottomRightOuter,
                CornerType::BottomLeftOuter,
                CornerType::TopRightOuter,
                CornerType::TopLeftOuter,
            ],
        }
    }

    /// Whether the atlas supplies a tile for a kind of corner.
    pub open spec fn spec_uses(&self, corner_type: CornerType) -> bool {
        corner_type.spec_ordinal() < self.spec_corners_used().len()
    }

    pub fn corners_used(&self) -> (r: Vec<CornerType>)
        ensures
            r@ == self.spec_corners_used(),
            forall|i: int| 0 <= i < r@.len() ==> (#[trigger] r@[i]).spec_ordinal() == i,
    {
        let mut r: Vec<CornerType> = Vec::new();
        r.push(CornerType::Convex);
        r.push(CornerType::Concave);
        r.push(CornerType::Horizontal);
        r.push(CornerType::Vertical);
        match self {
            CornerSet::Cardinal => {},
            CornerSet::StandardDiagonal => {
                r.push(CornerType::Flat);
            },
            CornerSet::CornerDiagonal => {
                r.push(CornerType::Flat);
                r.push(CornerType::BottomRightInner);
                r.push(CornerType::BottomLeftInner);
                r.push(CornerType::TopRightInner);
                r.push(CornerType::TopLeftInner);
                r.push(CornerType::BottomRightOuter);
                r.push(CornerType::BottomLeftOuter);
                r.push(CornerType::TopRightOuter);
                r.push(CornerType::TopLeftOuter);
            },
        }
        assert(r@ =~= self.spec_corners_used());
        r
    }

    /// The adjacencies that the corner-diagonal set emits for the neighbour
    /// patterns below `count` are adjacencies that get composed.
    proof fn lemma_expanded_emitted(count: nat, i: int)
        requires
            count <= 256,
            0 <= i < CornerSet::spec_expanded_upto(count).len(),
        ensures
            CornerSet::CornerDiagonal.spec_emits(CornerSet::spec_expanded_upto(count)[i]),
        decreases count,
    {
        broadcast use Adjacency::lemma_of_bits;

        if count > 0 {
            let before = CornerSet::spec_expanded_upto((count - 1) as nat);
            if i < before.len() {
                CornerSet::lemma_expanded_emitted((count - 1) as nat, i);
            }
        }
    }

    /// Each adjacency that the corner-diagonal set emits for the neighbour
    /// pattern `base` is listed among those for the patterns below any
    /// `count` above `base`.
    proof fn lemma_expanded_lists_below(count: nat, adjacency: Adjacency, base: int)
        requires
            count <= 256,
            CornerSet::CornerDiagonal.spec_emits(adjacency),
            0 <= base < count,
            adjacency@ == base || (adjacency@ == base + 0x100 && is_diagonal_cardinal(base)) || (
            adjacency@ == base + 0x200 && is_filled_diagonal(base)),
        ensures
            CornerSet::spec_expanded_upto(count).contains(adjacency),
        decreases count,
    {
        broadcast use Adjacency::lemma_of_bits, Adjacency::lemma_of_view;

        let before = CornerSet::spec_expanded_upto((count - 1) as nat);
        let here = CornerSet::spec_variants(count - 1);
        let all = CornerSet::spec_expanded_upto(count);
        if base == count - 1 {
            if adjacency@ == base {
                assert(here[0] == adjacency);
                assert(all[before.len() as int] == adjacency);
            } else {
                assert(here[1] == adjacency);
                assert(all[before.len() as int + 1] == adjacency);
            }
        } else {
            CornerSet::lemma_expanded_lists_below((count - 1) as nat, adjacency, base);
            let i = choose|i: int| 0 <= i < before.len() && before[i] == adjacency;
            assert(all[i] == adjacency);
        }
    }

    /// How often an adjacency stands in a list.
    pub open spec fn count_of(list: Seq<Adjacency>, adjacency: Adjacency) -> nat
        decreases list.len(),
    {
        if list.len() == 0 {
            0
        } else {
            CornerSet::count_of(list.drop_last(), adjacency) + if list.last() == adjacency {
                1nat
            } else {
                0nat
            }
        }
    }

    /// An adjacency that stands at two places of a list stands in it at
    /// least twice.
    pub proof fn lemma_count_of_two(list: Seq<Adjacency>, i: int, j: int)
        requires
            0 <= i < j < list.len(),
            list[i] == list[j],
        ensures
            CornerSet::count_of(list, list[i]) >= 2,
        decreases list.len(),
    {
        let rest = list.drop_last();
        if j < list.len() - 1 {
            assert(rest[i] == list[i] && rest[j] == list[j]);
            CornerSet::lemma_count_of_two(rest, i, j);
        } else {
            assert(rest[i] == list[i]);
            CornerSet::lemma_count_of_one(rest, i);
        }
    }

    /// An adjacency that stands in a list stands in it at least once.
    pub proof fn lemma_count_of_one(list: Seq<Adjacency>, i: int)
        requires
            0 <= i < list.len(),
        ensures
            CornerSet::count_of(list, list[i]) >= 1,
        decreases list.len(),
    {
        if i < list.len() - 1 {
            assert(list.drop_last()[i] == list[i]);
            CornerSet::lemma_count_of_one(list.drop_last(), i);
        }
    }

    proof fn lemma_count_of_add(first: Seq<Adjacency>, second: Seq<Adjacency>, adjacency: Adjacency)
        ensures
            CornerSet::count_of(first + second, adjacency) == CornerSet::count_of(first, adjacency)
                + CornerSet::count_of(second, adjacency),
        decreases second.len(),
    {
        if second.len() == 0 {
            assert(first + second =~= first);
        } else {
            assert((first + second).drop_last() =~= first + second.drop_last());
            CornerSet::lemma_count_of_add(first, second.drop_last(), adjacency);
        }
    }

    /// The neighbour pattern from which the corner-diagonal set emits an
    /// adjacency.
    pub open spec fn spec_base(adjacency: Adjacency) -> int {
        if adjacency@ < 256 {
            adjacency@ as int
        } else if adjacency@ < 512 {
            adjacency@ - 0x100
        } else {
            adjacency@ - 0x200
        }
    }

    /// An adjacency that the corner-diagonal set emits stands once among
    /// the adjacencies for the patterns up to its own, and not before.
    proof fn lemma_expanded_count(count: nat, adjacency: Adjacency)
        requires
            count <= 256,
            CornerSet::CornerDiagonal.spec_emits(adjacency),
        ensures
            CornerSet::count_of(CornerSet::spec_expanded_upto(count), adjacency) == if CornerSet::spec_base(
                adjacency,
            ) < count {
                1nat
            } else {
                0nat
            },
        decreases count,
    {
        broadcast use Adjacency::lemma_of_bits, Adjacency::lemma_of_view;

        if count > 0 {
            let before = CornerSet::spec_expanded_upto((count - 1) as nat);
            let here = CornerSet::spec_variants(count - 1);
            CornerSet::lemma_expanded_count((count - 1) as nat, adjacency);
            CornerSet::lemma_count_of_add(before, here, adjacency);
            reveal_with_fuel(CornerSet::count_of, 3);
            if here.len() == 2 {
                assert(here.drop_last() =~= seq![here[0]]);
                assert(here.drop_last().drop_last() =~= Seq::<Adjacency>::empty());
            } else {
                assert(here.drop_last() =~= Seq::<Adjacency>::empty());
            }
        }
    }

    /// Every adjacency that gets composed stands exactly once in the list
    /// of those that get composed.
    pub proof fn lemma_listed_once(&self, adjacency: Adjacency)
        requires
            self.spec_emits(adjacency),
        ensures
            CornerSet::count_of(self.spec_output_adjacencies(), adjacency) == 1,
    {
        match self {
            CornerSet::CornerDiagonal => {
                CornerSet::lemma_expanded_count(256, adjacency);
            },
            _ => {
                let list = self.spec_output_adjacencies();
                CornerSet::lemma_plain_count(list, list.len(), adjacency);
                assert(list.take(list.len() as int) =~= list);
            },
        }
    }

    /// In a list that holds in each place the adjacency with the bits of
    /// the place, an adjacency stands once from its own place on.
    proof fn lemma_plain_count(list: Seq<Adjacency>, count: nat, adjacency: Adjacency)
        requires
            count <= list.len() <= 256,
            forall|i: int| 0 <= i < list.len() ==> #[trigger] list[i] == Adjacency::of_bits(i as u16),
        ensures
            CornerSet::count_of(list.take(count as int), adjacency) == if adjacency@ < count {
                1nat
            } else {
                0nat
            },
        decreases count,
    {
        broadcast use Adjacency::lemma_of_bits, Adjacency::lemma_of_view;

        if count > 0 {
            CornerSet::lemma_plain_count(list, (count - 1) as nat, adjacency);
            assert(list.take(count as int).drop_last() =~= list.take(count - 1));
            assert(list.take(count as int).last() == list[count - 1]);
        }
    }

    /// Two adjacencies that get composed and have the same neighbours, and
    /// either both an edge mark or neither, are the same.
    pub proof fn lemma_emitted_same(&self, a: Adjacency, b: Adjacency)
        requires
            self.spec_emits(a),
            self.spec_emits(b),
            a@ & !crate::util::adjacency::EDGES == b@ & !crate::util::adjacency::EDGES,
            (a@ & crate::util::adjacency::EDGES != 0) == (b@ & crate::util::adjacency::EDGES != 0),
        ensures
            a == b,
    {
        broadcast use Adjacency::lemma_of_bits, Adjacency::lemma_of_view;

        Adjacency::lemma_edge_marks(CornerSet::spec_base(a) as u16);
        Adjacency::lemma_edge_marks(CornerSet::spec_base(b) as u16);
        assert(a@ == b@);
        Adjacency::lemma_of_view(a);
        Adjacency::lemma_of_view(b);
    }

    /// How many of the bit patterns below `count` have no orphaned corner.
    #[verifier::opaque]
    pub open spec fn orphan_free_below(count: nat) -> nat
        decreases count,
    {
        if count == 0 {
            0
        } else {
            CornerSet::orphan_free_below((count - 1) as nat) + CornerSet::orphan_free_one(
                count - 1,
            )
        }
    }

    /// One for a bit pattern without orphaned corner, nothing for another.
    pub open spec fn orphan_free_one(bits: int) -> nat {
        if Adjacency::spec_orphan_free_bits(bits as u16) {
            1
        } else {
            0
        }
    }

    proof fn lemma_orphan_free_four(start: nat)
        ensures
            CornerSet::orphan_free_below(start + 4) == CornerSet::orphan_free_below(start)
                + CornerSet::orphan_free_one(start as int) + CornerSet::orphan_free_one(
                start as int + 1,
            ) + CornerSet::orphan_free_one(start as int + 2) + CornerSet::orphan_free_one(
                start as int + 3,
            ),
    {
        reveal_with_fuel(CornerSet::orphan_free_below, 5);
    }

    /// Of the 16 patterns of cardinal neighbours none has an orphaned
    /// corner; of the 256 patterns of neighbours 47 have none.
    pub proof fn lemma_orphan_free_totals()
        ensures
            CornerSet::orphan_free_below(16) == 16,
            CornerSet::orphan_free_below(256) == 47,
    {
        assert(CornerSet::orphan_free_below(0) == 0) by {
            reveal(CornerSet::orphan_free_below);
        }
        lemma_orphan_free_table(0);
        lemma_orphan_free_table(1);
        lemma_orphan_free_table(2);
        lemma_orphan_free_table(3);
        lemma_orphan_free_table(4);
        lemma_orphan_free_table(5);
        lemma_orphan_free_table(6);
        lemma_orphan_free_table(7);
        lemma_orphan_free_table(8);
        lemma_orphan_free_table(9);
        lemma_orphan_free_table(10);
        lemma_orphan_free_table(11);
        lemma_orphan_free_table(12);
        lemma_orphan_free_table(13);
        lemma_orphan_free_table(14);
        lemma_orphan_free_table(15);
        CornerSet::lemma_orphan_free_four(0);
        CornerSet::lemma_orphan_free_four(4);
        CornerSet::lemma_orphan_free_four(8);
        CornerSet::lemma_orphan_free_four(12);
        CornerSet::lemma_orphan_free_four(16);
        CornerSet::lemma_orphan_free_four(20);
        CornerSet::lemma_orphan_free_four(24);
        CornerSet::lemma_orphan_free_four(28);
        CornerSet::lemma_orphan_free_four(32);
        CornerSet::lemma_orphan_free_four(36);
        CornerSet::lemma_orphan_free_four(40);
        CornerSet::lemma_orphan_free_four(44);
        CornerSet::lemma_orphan_free_four(48);
        CornerSet::lemma_orphan_free_four(52);
        CornerSet::lemma_orphan_free_four(56);
        CornerSet::lemma_orphan_free_four(60);
        CornerSet::lemma_orphan_free_four(64);
        CornerSet::lemma_orphan_free_four(68);
        CornerSet::lemma_orphan_free_four(72);
        CornerSet::lemma_orphan_free_four(76);
        CornerSet::lemma_orphan_free_four(80);
        CornerSet::lemma_orphan_free_four(84);
        CornerSet::lemma_orphan_free_four(88);
        CornerSet::lemma_orphan_free_four(92);
        CornerSet::lemma_orphan_free_four(96);
        CornerSet::lemma_orphan_free_four(100);
        CornerSet::lemma_orphan_free_four(104);
        CornerSet::lemma_orphan_free_four(108);
        CornerSet::lemma_orphan_free_four(112);
        CornerSet::lemma_orphan_free_four(116);
        CornerSet::lemma_orphan_free_four(120);
        CornerSet::lemma_orphan_free_four(124);
        CornerSet::lemma_orphan_free_four(128);
        CornerSet::lemma_orphan_free_four(132);
        CornerSet::lemma_orphan_free_four(136);
        CornerSet::lemma_orphan_free_four(140);
        CornerSet::lemma_orphan_free_four(144);
        CornerSet::lemma_orphan_free_four(148);
        CornerSet::lemma_orphan_free_four(152);
        CornerSet::lemma_orphan_free_four(156);
        CornerSet::lemma_orphan_free_four(160);
        CornerSet::lemma_orphan_free_four(164);
        CornerSet::lemma_orphan_free_four(168);
        CornerSet::lemma_orphan_free_four(172);
        CornerSet::lemma_orphan_free_four(176);
        CornerSet::lemma_orphan_free_four(180);
        CornerSet::lemma_orphan_free_four(184);
        CornerSet::lemma_orphan_free_four(188);
        CornerSet::lemma_orphan_free_four(192);
        CornerSet::lemma_orphan_free_four(196);
        CornerSet::lemma_orphan_free_four(200);
        CornerSet::lemma_orphan_free_four(204);
        CornerSet::lemma_orphan_free_four(208);
        CornerSet::lemma_orphan_free_four(212);
        CornerSet::lemma_orphan_free_four(216);
        CornerSet::lemma_orphan_free_four(220);
        CornerSet::lemma_orphan_free_four(224);
        CornerSet::lemma_orphan_free_four(228);
        CornerSet::lemma_orphan_free_four(232);
        CornerSet::lemma_orphan_free_four(236);
        CornerSet::lemma_orphan_free_four(240);
        CornerSet::lemma_orphan_free_four(244);
        CornerSet::lemma_orphan_free_four(248);
        CornerSet::lemma_orphan_free_four(252);
    }

    /// How many of the neighbour patterns below `count` come with an inner
    /// or outer variant.
    pub open spec fn variants_below(count: int) -> nat {
        let one = |base: int| if base < count {
            1nat
        } else {
            0nat
        };
        one(0x005) + one(0x006) + one(0x009) + one(0x00a) + one(0x015) + one(0x026) + one(0x04a)
            + one(0x089)
    }

    /// How many adjacencies of a list have no orphaned corner.
    pub open spec fn free_count(list: Seq<Adjacency>) -> nat
        decreases list.len(),
    {
        if list.len() == 0 {
            0
        } else {
            CornerSet::free_count(list.drop_last()) + if list.last().spec_has_no_orphaned_corner() {
                1nat
            } else {
                0nat
            }
        }
    }

    proof fn lemma_free_count_add(first: Seq<Adjacency>, second: Seq<Adjacency>)
        ensures
            CornerSet::free_count(first + second) == CornerSet::free_count(first)
                + CornerSet::free_count(second),
        decreases second.len(),
    {
        if second.len() == 0 {
            assert(first + second =~= first);
        } else {
            assert((first + second).drop_last() =~= first + second.drop_last());
            CornerSet::lemma_free_count_add(first, second.drop_last());
        }
    }

    proof fn lemma_plain_free_count(list: Seq<Adjacency>, count: nat)
        requires
            count <= list.len() <= 256,
            forall|i: int| 0 <= i < list.len() ==> #[trigger] list[i] == Adjacency::of_bits(i as u16),
        ensures
            CornerSet::free_count(list.take(count as int)) == CornerSet::orphan_free_below(count),
        decreases count,
    {
        broadcast use Adjacency::lemma_of_bits;

        reveal(CornerSet::orphan_free_below);
        if count > 0 {
            CornerSet::lemma_plain_free_count(list, (count - 1) as nat);
            assert(list.take(count as int).drop_last() =~= list.take(count - 1));
            assert(list.take(count as int).last() == list[count - 1]);
            Adjacency::lemma_orphan_free(list[count - 1]);
        }
    }

    proof fn lemma_expanded_free_count(count: nat)
        requires
            count <= 256,
        ensures
            CornerSet::free_count(CornerSet::spec_expanded_upto(count))
                == CornerSet::orphan_free_below(count) + CornerSet::variants_below(count as int),
        decreases count,
    {
        broadcast use Adjacency::lemma_of_bits;

        reveal(CornerSet::orphan_free_below);
        if count > 0 {
            let before = CornerSet::spec_expanded_upto((count - 1) as nat);
            let here = CornerSet::spec_variants(count - 1);
            CornerSet::lemma_expanded_free_count((count - 1) as nat);
            CornerSet::lemma_free_count_add(before, here);
            reveal_with_fuel(CornerSet::free_count, 3);
            Adjacency::lemma_orphan_free(here[0]);
            lemma_variants_free();
            if here.len() == 2 {
                Adjacency::lemma_orphan_free(here[1]);
                assert(here.drop_last() =~= seq![here[0]]);
                assert(here.drop_last().drop_last() =~= Seq::<Adjacency>::empty());
            } else {
                assert(here.drop_last() =~= Seq::<Adjacency>::empty());
            }
        }
    }

    /// How many of the adjacencies that get composed have no orphaned
    /// corner: 16 of the cardinal set, 47 of the standard diagonal set and
    /// 55 of the corner diagonal set.
    pub proof fn lemma_free_count(&self)
        ensures
            CornerSet::free_count(self.spec_output_adjacencies()) == match self {
                CornerSet::Cardinal => 16nat,
                CornerSet::StandardDiagonal => 47nat,
                CornerSet::CornerDiagonal => 55nat,
            },
    {
        CornerSet::lemma_orphan_free_totals();
        match self {
            CornerSet::CornerDiagonal => {
                CornerSet::lemma_expanded_free_count(256);
            },
            _ => {
                let list = self.spec_output_adjacencies();
                CornerSet::lemma_plain_free_count(list, list.len());
                assert(list.take(list.len() as int) =~= list);
            },
        }
    }

    /// Rotating an adjacency that gets composed gives an adjacency that
    /// gets composed.
    pub proof fn lemma_rotation_emitted(&self, adjacency: Adjacency, direction: Direction)
        requires
            self.spec_emits(adjacency),
        ensures
            self.spec_emits(adjacency.spec_rotate_to(direction)),
    {
        Adjacency::lemma_rotate_to_bits(adjacency, direction);
        lemma_turned_emitted(adjacency@);
    }

    /// Every adjacency that gets composed is in the list of those that get
    /// composed.
    pub proof fn lemma_emitted_is_listed(&self, adjacency: Adjacency)
        requires
            self.spec_emits(adjacency),
        ensures
            self.spec_output_adjacencies().contains(adjacency),
    {
        broadcast use Adjacency::lemma_of_bits, Adjacency::lemma_of_view;

        match self {
            CornerSet::CornerDiagonal => {
                let base: int = if adjacency@ < 256 {
                    adjacency@ as int
                } else if adjacency@ < 512 {
                    adjacency@ - 0x100
                } else {
                    adjacency@ - 0x200
                };
                CornerSet::lemma_expanded_lists_below(256, adjacency, base);
            },
            _ => {
                assert(self.spec_output_adjacencies()[adjacency@ as int] == adjacency);
            },
        }
    }

    /// Every adjacency in the list of those that get composed is one that
    /// gets composed.
    pub proof fn lemma_output_adjacencies_emitted(&self, i: int)
        requires
            0 <= i < self.spec_output_adjacencies().len(),
        ensures
            self.spec_emits(self.spec_output_adjacencies()[i]),
    {
        broadcast use Adjacency::lemma_of_bits;

        match self {
            CornerSet::CornerDiagonal => {
                CornerSet::lemma_expanded_emitted(256, i);
            },
            _ => {},
        }
    }

    /// Each quadrant of an adjacency that gets composed shows a kind of
    /// corner that the atlas supplies.
    pub proof fn lemma_corner_type_is_used(&self, adjacency: Adjacency, corner: Corner)
        requires
            self.spec_emits(adjacency),
        ensures
            self.spec_uses(adjacency.spec_get_corner_type(corner)),
            self.spec_corners_used().contains(adjacency.spec_get_corner_type(corner)),
    {
        broadcast use Adjacency::lemma_of_bits;

        let kind = adjacency.spec_get_corner_type(corner);
        lemma_low_bits(adjacency@);
        let used = self.spec_corners_used();
        assert(used[kind.spec_ordinal()] == kind);
    }

    /// The name of a corner set, as configuration files spell it.
    pub open spec fn spec_name(self) -> Seq<char> {
        match self {
            CornerSet::Cardinal => "Cardinal"@,
            CornerSet::StandardDiagonal => "StandardDiagonal"@,
            CornerSet::CornerDiagonal => "CornerDiagonal"@,
        }
    }

    pub fn name(self) -> (r: &'static str)
        ensures
            r@ == self.spec_name(),
    {
        match self {
            CornerSet::Cardinal => "Cardinal",
            CornerSet::StandardDiagonal => "StandardDiagonal",
            CornerSet::CornerDiagonal => "CornerDiagonal",
        }
    }
}

/// Which patterns of cardinal neighbours go with each pattern of diagonal
/// neighbours without leaving a corner orphaned. The pattern of diagonal
/// neighbours is the bit pattern above its last four bits, `c` the pattern
/// of cardinal neighbours.
proof fn lemma_orphan_free_table(c: u16)
    by (bit_vector)
    requires
        c < 16,
    ensures
        Adjacency::spec_orphan_free_bits((0x000u16 + c) as u16) == true,
        Adjacency::spec_orphan_free_bits((0x010u16 + c) as u16) == (c == 5 || c == 7 || c == 13 || c == 15),
        Adjacency::spec_orphan_free_bits((0x020u16 + c) as u16) == (c == 6 || c == 7 || c == 14 || c == 15),
        Adjacency::spec_orphan_free_bits((0x030u16 + c) as u16) == (c == 7 || c == 15),
        Adjacency::spec_orphan_free_bits((0x040u16 + c) as u16) == (c == 10 || c == 11 || c == 14 || c == 15),
        Adjacency::spec_orphan_free_bits((0x050u16 + c) as u16) == (c == 15),
        Adjacency::spec_orphan_free_bits((0x060u16 + c) as u16) == (c == 14 || c == 15),
        Adjacency::spec_orphan_free_bits((0x070u16 + c) as u16) == (c == 15),
        Adjacency::spec_orphan_free_bits((0x080u16 + c) as u16) == (c == 9 || c == 11 || c == 13 || c == 15),
        Adjacency::spec_orphan_free_bits((0x090u16 + c) as u16) == (c == 13 || c == 15),
        Adjacency::spec_orphan_free_bits((0x0a0u16 + c) as u16) == (c == 15),
        Adjacency::spec_orphan_free_bits((0x0b0u16 + c) as u16) == (c == 15),
        Adjacency::spec_orphan_free_bits((0x0c0u16 + c) as u16) == (c == 11 || c == 15),
        Adjacency::spec_orphan_free_bits((0x0d0u16 + c) as u16) == (c == 15),
        Adjacency::spec_orphan_free_bits((0x0e0u16 + c) as u16) == (c == 15),
        Adjacency::spec_orphan_free_bits((0x0f0u16 + c) as u16) == (c == 15),
{
}

/// The neighbour patterns that come with a variant, and their variants,
/// have no orphaned corner.
proof fn lemma_variants_free()
    by (bit_vector)
    ensures
        Adjacency::spec_orphan_free_bits(0x005) && Adjacency::spec_orphan_free_bits(0x105),
        Adjacency::spec_orphan_free_bits(0x006) && Adjacency::spec_orphan_free_bits(0x106),
        Adjacency::spec_orphan_free_bits(0x009) && Adjacency::spec_orphan_free_bits(0x109),
        Adjacency::spec_orphan_free_bits(0x00a) && Adjacency::spec_orphan_free_bits(0x10a),
        Adjacency::spec_orphan_free_bits(0x015) && Adjacency::spec_orphan_free_bits(0x215),
        Adjacency::spec_orphan_free_bits(0x026) && Adjacency::spec_orphan_free_bits(0x226),
        Adjacency::spec_orphan_free_bits(0x04a) && Adjacency::spec_orphan_free_bits(0x24a),
        Adjacency::spec_orphan_free_bits(0x089) && Adjacency::spec_orphan_free_bits(0x289),
{
}

/// Whether the corner-diagonal set composes the adjacency with these bits.
spec fn corner_emitted(a: u16) -> bool {
    a < 256 || a == 261 || a == 262 || a == 266 || a == 265 || a == 533 || a == 550 || a == 586
        || a == 649
}

proof fn lemma_turned_emitted(a: u16)
    by (bit_vector)
    ensures
        a < 16 ==> spec_turned_half(a) < 16 && spec_turned_counter(a) < 16
            && spec_turned_clockwise(a) < 16,
        a < 256 ==> spec_turned_half(a) < 256 && spec_turned_counter(a) < 256
            && spec_turned_clockwise(a) < 256,
        corner_emitted(a) ==> corner_emitted(spec_turned_half(a)) && corner_emitted(
            spec_turned_counter(a),
        ) && corner_emitted(spec_turned_clockwise(a)),
{
}

/// What small bit patterns cannot hold.
proof fn lemma_low_bits(a: u16)
    by (bit_vector)
    ensures
        a < 256 ==> a & 0x300 == 0,
        a < 16 ==> a & 0x010 != 0x010 && a & 0x020 != 0x020 && a & 0x040 != 0x040 && a & 0x080
            != 0x080,
{
}

} // verus!
