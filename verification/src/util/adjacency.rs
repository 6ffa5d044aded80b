use vstd::prelude::*;
use vstd::string::*;
use crate::util::corners::{Corner, CornerType, Side};
use crate::util::directions::Direction;
use crate::util::text::{
    decimal,
    decimal_string,
    decimal_value,
    digit_value,
    lemma_decimal_digits,
    lemma_decimal_injective,
    lemma_decimal_round_trip,
};

verus! {

pub const N: u16 = 0x001;

pub const S: u16 = 0x002;

pub const E: u16 = 0x004;

pub const W: u16 = 0x008;

pub const NE: u16 = 0x010;

pub const SE: u16 = 0x020;

pub const SW: u16 = 0x040;

pub const NW: u16 = 0x080;

pub const INNER_EDGE: u16 = 0x100;

pub const OUTER_EDGE: u16 = 0x200;

pub const N_S: u16 = 0x003;

pub const E_W: u16 = 0x00c;

pub const EDGES: u16 = 0x300;

pub const CARDINALS: u16 = 0x00f;

/// The eight neighbour bits, without the edge marks.
pub const NEIGHBOURS: u16 = 0x0ff;

/// Every bit that an adjacency can hold.
pub const ALL: u16 = 0x3ff;

/// The text that does not stand for an adjacency.
#[derive(Debug, PartialEq, Eq)]
pub struct InvalidAdjacencyError;

/// The set of neighbours that a tile connects to, with two marks that tell
/// the inner and the outer variant of an L-shaped tile from the plain one.
/// Its view is its bit pattern, which holds none but the ten known bits.
#[derive(Clone, Copy, Debug, PartialEq, Eq, Structural, PartialOrd, Ord, Hash)]
pub struct Adjacency(u16);

impl View for Adjacency {
    type V = u16;

    closed spec fn view(&self) -> u16 {
        self.0
    }
}

impl From<Corner> for Adjacency {
    fn from(corner: Corner) -> (r: Adjacency) {
        Adjacency::from_corner(corner)
    }
}

impl vstd::std_specs::convert::FromSpecImpl<Corner> for Adjacency {
    open spec fn obeys_from_spec() -> bool {
        true
    }

    open spec fn from_spec(corner: Corner) -> Adjacency {
        Adjacency::spec_from_corner(corner)
    }
}

impl From<Side> for Adjacency {
    fn from(side: Side) -> (r: Adjacency) {
        Adjacency::from_side(side)
    }
}

impl vstd::std_specs::convert::FromSpecImpl<Side> for Adjacency {
    open spec fn obeys_from_spec() -> bool {
        true
    }

    open spec fn from_spec(side: Side) -> Adjacency {
        Adjacency::spec_from_side(side)
    }
}

impl core::ops::BitOr for Adjacency {
    type Output = Adjacency;

    fn bitor(self, rhs: Adjacency) -> (r: Adjacency) {
        self.union(rhs)
    }
}

impl vstd::std_specs::ops::BitOrSpecImpl for Adjacency {
    open spec fn obeys_bitor_spec() -> bool {
        true
    }

    open spec fn bitor_req(self, rhs: Adjacency) -> bool {
        true
    }

    open spec fn bitor_spec(self, rhs: Adjacency) -> Adjacency {
        self.spec_union(rhs)
    }
}

/// A bit pattern with every neighbour turned half way round.
pub open spec fn spec_turned_half(bits: u16) -> u16 {
    ((bits & 0x005) << 1) | ((bits & 0x00a) >> 1) | ((bits & 0x030) << 2) | ((bits & 0x0c0) >> 2)
        | (bits & 0x300)
}

/// A bit pattern with every neighbour turned a quarter counter-clockwise.
pub open spec fn spec_turned_counter(bits: u16) -> u16 {
    ((bits & 0x011) << 3) | ((bits & 0x002) << 1) | ((bits & 0x00c) >> 2) | ((bits & 0x0e0) >> 1)
        | (bits & 0x300)
}

/// A bit pattern with every neighbour turned a quarter clockwise.
pub open spec fn spec_turned_clockwise(bits: u16) -> u16 {
    ((bits & 0x003) << 2) | ((bits & 0x004) >> 1) | ((bits & 0x088) >> 3) | ((bits & 0x070) << 1)
        | (bits & 0x300)
}

/// A bit pattern with every neighbour moved by the rotation that a
/// direction names: half way round for north, a quarter counter-clockwise
/// for east, a quarter clockwise for west, and not at all for any other
/// direction. The edge marks stay.
pub open spec fn spec_turned(bits: u16, direction: Direction) -> u16 {
    match direction {
        Direction::N => spec_turned_half(bits),
        Direction::E => spec_turned_counter(bits),
        Direction::W => spec_turned_clockwise(bits),
        _ => bits,
    }
}

/// The first `count` bits of the fixed order together.
pub open spec fn spec_low_mask(count: nat) -> u16 {
    if count == 0 {
        0x000
    } else if count == 1 {
        0x001
    } else if count == 2 {
        0x003
    } else if count == 3 {
        0x007
    } else if count == 4 {
        0x00f
    } else if count == 5 {
        0x01f
    } else if count == 6 {
        0x03f
    } else if count == 7 {
        0x07f
    } else if count == 8 {
        0x0ff
    } else if count == 9 {
        0x1ff
    } else {
        0x3ff
    }
}

proof fn lemma_turn_nothing(a: u16)
    by (bit_vector)
    ensures
        a & 0 == 0,
        spec_turned_half(0) == 0,
        spec_turned_counter(0) == 0,
        spec_turned_clockwise(0) == 0,
        a <= 0x3ff ==> a & 0x3ff == a,
        a <= 0x3ff ==> spec_turned_half(a) <= 0x3ff && spec_turned_counter(a) <= 0x3ff
            && spec_turned_clockwise(a) <= 0x3ff,
{
}

proof fn lemma_turns_undo(a: u16)
    by (bit_vector)
    requires
        a <= 0x3ff,
    ensures
        spec_turned_half(spec_turned_half(a)) == a,
        spec_turned_clockwise(spec_turned_counter(a)) == a,
        spec_turned_counter(spec_turned_clockwise(a)) == a,
{
}

proof fn lemma_turn_half_steps(a: u16)
    by (bit_vector)
    ensures
        a & 0x001 == 0x001 ==> spec_turned_half(a & 0x001) == spec_turned_half(
            a & 0x000,
        ) | 0x002,
        a & 0x001 != 0x001 ==> spec_turned_half(a & 0x001) == spec_turned_half(
            a & 0x000,
        ),
        a & 0x002 == 0x002 ==> spec_turned_half(a & 0x003) == spec_turned_half(
            a & 0x001,
        ) | 0x001,
        a & 0x002 != 0x002 ==> spec_turned_half(a & 0x003) == spec_turned_half(
            a & 0x001,
        ),
        a & 0x004 == 0x004 ==> spec_turned_half(a & 0x007) == spec_turned_half(
            a & 0x003,
        ) | 0x008,
        a & 0x004 != 0x004 ==> spec_turned_half(a & 0x007) == spec_turned_half(
            a & 0x003,
        ),
        a & 0x008 == 0x008 ==> spec_turned_half(a & 0x00f) == spec_turned_half(
            a & 0x007,
        ) | 0x004,
        a & 0x008 != 0x008 ==> spec_turned_half(a & 0x00f) == spec_turned_half(
            a & 0x007,
        ),
        a & 0x010 == 0x010 ==> spec_turned_half(a & 0x01f) == spec_turned_half(
            a & 0x00f,
        ) | 0x040,
        a & 0x010 != 0x010 ==> spec_turned_half(a & 0x01f) == spec_turned_half(
            a & 0x00f,
        ),
        a & 0x020 == 0x020 ==> spec_turned_half(a & 0x03f) == spec_turned_half(
            a & 0x01f,
        ) | 0x080,
        a & 0x020 != 0x020 ==> spec_turned_half(a & 0x03f) == spec_turned_half(
            a & 0x01f,
        ),
        a & 0x040 == 0x040 ==> spec_turned_half(a & 0x07f) == spec_turned_half(
            a & 0x03f,
        ) | 0x010,
        a & 0x040 != 0x040 ==> spec_turned_half(a & 0x07f) == spec_turned_half(
            a & 0x03f,
        ),
        a & 0x080 == 0x080 ==> spec_turned_half(a & 0x0ff) == spec_turned_half(
            a & 0x07f,
        ) | 0x020,
        a & 0x080 != 0x080 ==> spec_turned_half(a & 0x0ff) == spec_turned_half(
            a & 0x07f,
        ),
        a & 0x100 == 0x100 ==> spec_turned_half(a & 0x1ff) == spec_turned_half(
            a & 0x0ff,
        ) | 0x100,
        a & 0x100 != 0x100 ==> spec_turned_half(a & 0x1ff) == spec_turned_half(
            a & 0x0ff,
        ),
        a & 0x200 == 0x200 ==> spec_turned_half(a & 0x3ff) == spec_turned_half(
            a & 0x1ff,
        ) | 0x200,
        a & 0x200 != 0x200 ==> spec_turned_half(a & 0x3ff) == spec_turned_half(
            a & 0x1ff,
        ),
{
}

proof fn lemma_turn_counter_steps(a: u16)
    by (bit_vector)
    ensures
        a & 0x001 == 0x001 ==> spec_turned_counter(a & 0x001) == spec_turned_counter(
            a & 0x000,
        ) | 0x008,
        a & 0x001 != 0x001 ==> spec_turned_counter(a & 0x001) == spec_turned_counter(
            a & 0x000,
        ),
        a & 0x002 == 0x002 ==> spec_turned_counter(a & 0x003) == spec_turned_counter(
            a & 0x001,
        ) | 0x004,
        a & 0x002 != 0x002 ==> spec_turned_counter(a & 0x003) == spec_turned_counter(
            a & 0x001,
        ),
        a & 0x004 == 0x004 ==> spec_turned_counter(a & 0x007) == spec_turned_counter(
            a & 0x003,
        ) | 0x001,
        a & 0x004 != 0x004 ==> spec_turned_counter(a & 0x007) == spec_turned_counter(
            a & 0x003,
        ),
        a & 0x008 == 0x008 ==> spec_turned_counter(a & 0x00f) == spec_turned_counter(
            a & 0x007,
        ) | 0x002,
        a & 0x008 != 0x008 ==> spec_turned_counter(a & 0x00f) == spec_turned_counter(
            a & 0x007,
        ),
        a & 0x010 == 0x010 ==> spec_turned_counter(a & 0x01f) == spec_turned_counter(
            a & 0x00f,
        ) | 0x080,
        a & 0x010 != 0x010 ==> spec_turned_counter(a & 0x01f) == spec_turned_counter(
            a & 0x00f,
        ),
        a & 0x020 == 0x020 ==> spec_turned_counter(a & 0x03f) == spec_turned_counter(
            a & 0x01f,
        ) | 0x010,
        a & 0x020 != 0x020 ==> spec_turned_counter(a & 0x03f) == spec_turned_counter(
            a & 0x01f,
        ),
        a & 0x040 == 0x040 ==> spec_turned_counter(a & 0x07f) == spec_turned_counter(
            a & 0x03f,
        ) | 0x020,
        a & 0x040 != 0x040 ==> spec_turned_counter(a & 0x07f) == spec_turned_counter(
            a & 0x03f,
        ),
        a & 0x080 == 0x080 ==> spec_turned_counter(a & 0x0ff) == spec_turned_counter(
            a & 0x07f,
        ) | 0x040,
        a & 0x080 != 0x080 ==> spec_turned_counter(a & 0x0ff) == spec_turned_counter(
            a & 0x07f,
        ),
        a & 0x100 == 0x100 ==> spec_turned_counter(a & 0x1ff) == spec_turned_counter(
            a & 0x0ff,
        ) | 0x100,
        a & 0x100 != 0x100 ==> spec_turned_counter(a & 0x1ff) == spec_turned_counter(
            a & 0x0ff,
        ),
        a & 0x200 == 0x200 ==> spec_turned_counter(a & 0x3ff) == spec_turned_counter(
            a & 0x1ff,
        ) | 0x200,
        a & 0x200 != 0x200 ==> spec_turned_counter(a & 0x3ff) == spec_turned_counter(
            a & 0x1ff,
        ),
{
}

proof fn lemma_turn_clockwise_steps(a: u16)
    by (bit_vector)
    ensures
        a & 0x001 == 0x001 ==> spec_turned_clockwise(a & 0x001) == spec_turned_clockwise(
            a & 0x000,
        ) | 0x004,
        a & 0x001 != 0x001 ==> spec_turned_clockwise(a & 0x001) == spec_turned_clockwise(
            a & 0x000,
        ),
        a & 0x002 == 0x002 ==> spec_turned_clockwise(a & 0x003) == spec_turned_clockwise(
            a & 0x001,
        ) | 0x008,
        a & 0x002 != 0x002 ==> spec_turned_clockwise(a & 0x003) == spec_turned_clockwise(
            a & 0x001,
        ),
        a & 0x004 == 0x004 ==> spec_turned_clockwise(a & 0x007) == spec_turned_clockwise(
            a & 0x003,
        ) | 0x002,
        a & 0x004 != 0x004 ==> spec_turned_clockwise(a & 0x007) == spec_turned_clockwise(
            a & 0x003,
        ),
        a & 0x008 == 0x008 ==> spec_turned_clockwise(a & 0x00f) == spec_turned_clockwise(
            a & 0x007,
        ) | 0x001,
        a & 0x008 != 0x008 ==> spec_turned_clockwise(a & 0x00f) == spec_turned_clockwise(
            a & 0x007,
        ),
        a & 0x010 == 0x010 ==> spec_turned_clockwise(a & 0x01f) == spec_turned_clockwise(
            a & 0x00f,
        ) | 0x020,
        a & 0x010 != 0x010 ==> spec_turned_clockwise(a & 0x01f) == spec_turned_clockwise(
            a & 0x00f,
        ),
        a & 0x020 == 0x020 ==> spec_turned_clockwise(a & 0x03f) == spec_turned_clockwise(
            a & 0x01f,
        ) | 0x040,
        a & 0x020 != 0x020 ==> spec_turned_clockwise(a & 0x03f) == spec_turned_clockwise(
            a & 0x01f,
        ),
        a & 0x040 == 0x040 ==> spec_turned_clockwise(a & 0x07f) == spec_turned_clockwise(
            a & 0x03f,
        ) | 0x080,
        a & 0x040 != 0x040 ==> spec_turned_clockwise(a & 0x07f) == spec_turned_clockwise(
            a & 0x03f,
        ),
        a & 0x080 == 0x080 ==> spec_turned_clockwise(a & 0x0ff) == spec_turned_clockwise(
            a & 0x07f,
        ) | 0x010,
        a & 0x080 != 0x080 ==> spec_turned_clockwise(a & 0x0ff) == spec_turned_clockwise(
            a & 0x07f,
        ),
        a & 0x100 == 0x100 ==> spec_turned_clockwise(a & 0x1ff) == spec_turned_clockwise(
            a & 0x0ff,
        ) | 0x100,
        a & 0x100 != 0x100 ==> spec_turned_clockwise(a & 0x1ff) == spec_turned_clockwise(
            a & 0x0ff,
        ),
        a & 0x200 == 0x200 ==> spec_turned_clockwise(a & 0x3ff) == spec_turned_clockwise(
            a & 0x1ff,
        ) | 0x200,
        a & 0x200 != 0x200 ==> spec_turned_clockwise(a & 0x3ff) == spec_turned_clockwise(
            a & 0x1ff,
        ),
{
}

proof fn lemma_turn_stay_steps(a: u16)
    by (bit_vector)
    ensures
        a & 0x001 == 0x001 ==> a & 0x001 == (a & 0x000) | 0x001,
        a & 0x001 != 0x001 ==> a & 0x001 == a & 0x000,
        a & 0x002 == 0x002 ==> a & 0x003 == (a & 0x001) | 0x002,
        a & 0x002 != 0x002 ==> a & 0x003 == a & 0x001,
        a & 0x004 == 0x004 ==> a & 0x007 == (a & 0x003) | 0x004,
        a & 0x004 != 0x004 ==> a & 0x007 == a & 0x003,
        a & 0x008 == 0x008 ==> a & 0x00f == (a & 0x007) | 0x008,
        a & 0x008 != 0x008 ==> a & 0x00f == a & 0x007,
        a & 0x010 == 0x010 ==> a & 0x01f == (a & 0x00f) | 0x010,
        a & 0x010 != 0x010 ==> a & 0x01f == a & 0x00f,
        a & 0x020 == 0x020 ==> a & 0x03f == (a & 0x01f) | 0x020,
        a & 0x020 != 0x020 ==> a & 0x03f == a & 0x01f,
        a & 0x040 == 0x040 ==> a & 0x07f == (a & 0x03f) | 0x040,
        a & 0x040 != 0x040 ==> a & 0x07f == a & 0x03f,
        a & 0x080 == 0x080 ==> a & 0x0ff == (a & 0x07f) | 0x080,
        a & 0x080 != 0x080 ==> a & 0x0ff == a & 0x07f,
        a & 0x100 == 0x100 ==> a & 0x1ff == (a & 0x0ff) | 0x100,
        a & 0x100 != 0x100 ==> a & 0x1ff == a & 0x0ff,
        a & 0x200 == 0x200 ==> a & 0x3ff == (a & 0x1ff) | 0x200,
        a & 0x200 != 0x200 ==> a & 0x3ff == a & 0x1ff,
{
}

/// Facts on the bit patterns that the functions below rely on.
proof fn lemma_bits(a: u16, b: u16)
    by (bit_vector)
    ensures
        a <= 0x3ff && b <= 0x3ff ==> (a | b) <= 0x3ff,
        a <= 0x3ff ==> (a & !b) <= 0x3ff,
        (a & !0x300) & !0x300 == a & !0x300,
        a & !0x300 <= a,
        a & 0x300 == 0 ==> a & !0x300 == a,
        a <= 0x3ff ==> a & !0x300 <= 0xff,
        a <= 0xff ==> a & 0x300 == 0 && (a | 0x100) <= 0x3ff && (a | 0x200) <= 0x3ff,
        a <= 0xff ==> (a | 0x100) & !0x300 == a && (a | 0x200) & !0x300 == a,
        a <= 0xff ==> (a | 0x100) & 0x300 != 0 && (a | 0x200) & 0x300 != 0,
        (a | b) & b == b,
        a & 0 == 0,
{
}

impl Adjacency {
    /// An adjacency holds none but the ten known bits.
    #[verifier::type_invariant]
    pub open spec fn known_bits_only(self) -> bool {
        self@ <= ALL
    }

    /// The adjacency with a given bit pattern.
    pub closed spec fn of_bits(bits: u16) -> Adjacency {
        Adjacency(bits)
    }

    pub broadcast proof fn lemma_of_bits(bits: u16)
        ensures
            (#[trigger] Adjacency::of_bits(bits))@ == bits,
    {
    }

    /// An adjacency is its bit pattern: equal patterns, equal adjacencies.
    pub broadcast proof fn lemma_of_view(a: Adjacency)
        ensures
            #[trigger] Adjacency::of_bits(a@) == a,
    {
    }

    /// The adjacency with the given bits; `None` where a bit outside the ten
    /// known ones is set.
    pub fn from_bits(bits: u16) -> (r: Option<Adjacency>)
        ensures
            r is Some <==> bits <= ALL,
            r matches Some(a) ==> a@ == bits,
    {
        if bits <= ALL {
            Some(Adjacency(bits))
        } else {
            None
        }
    }

    pub fn bits(self) -> (r: u16)
        ensures
            r == self@,
            r <= ALL,
    {
        proof {
            use_type_invariant(&self);
        }
        self.0
    }

    /// The adjacency without any neighbour.
    pub fn empty() -> (r: Adjacency)
        ensures
            r@ == 0,
    {
        Adjacency(0)
    }

    pub fn n() -> (r: Adjacency)
        ensures
            r@ == N,
    {
        Adjacency(N)
    }

    pub fn s() -> (r: Adjacency)
        ensures
            r@ == S,
    {
        Adjacency(S)
    }

    pub fn e() -> (r: Adjacency)
        ensures
            r@ == E,
    {
        Adjacency(E)
    }

    pub fn w() -> (r: Adjacency)
        ensures
            r@ == W,
    {
        Adjacency(W)
    }

    pub fn ne() -> (r: Adjacency)
        ensures
            r@ == NE,
    {
        Adjacency(NE)
    }

    pub fn se() -> (r: Adjacency)
        ensures
            r@ == SE,
    {
        Adjacency(SE)
    }

    pub fn sw() -> (r: Adjacency)
        ensures
            r@ == SW,
    {
        Adjacency(SW)
    }

    pub fn nw() -> (r: Adjacency)
        ensures
            r@ == NW,
    {
        Adjacency(NW)
    }

    pub fn inner_edge() -> (r: Adjacency)
        ensures
            r@ == INNER_EDGE,
    {
        Adjacency(INNER_EDGE)
    }

    pub fn outer_edge() -> (r: Adjacency)
        ensures
            r@ == OUTER_EDGE,
    {
        Adjacency(OUTER_EDGE)
    }

    pub fn edges() -> (r: Adjacency)
        ensures
            r@ == EDGES,
    {
        Adjacency(EDGES)
    }

    pub fn cardinals() -> (r: Adjacency)
        ensures
            r@ == CARDINALS,
    {
        Adjacency(CARDINALS)
    }

    /// Every neighbour of either adjacency.
    pub open spec fn spec_union(self, other: Adjacency) -> Adjacency {
        Adjacency::of_bits(self@ | other@)
    }

    pub fn union(self, other: Adjacency) -> (r: Adjacency)
        ensures
            r == self.spec_union(other),
            r@ == self@ | other@,
    {
        proof {
            use_type_invariant(&self);
            use_type_invariant(&other);
            lemma_bits(self.0, other.0);
        }
        Adjacency(self.0 | other.0)
    }

    /// The neighbours of `self` that `other` lacks.
    pub open spec fn spec_difference(self, other: Adjacency) -> Adjacency {
        Adjacency::of_bits(self@ & !other@)
    }

    pub fn difference(self, other: Adjacency) -> (r: Adjacency)
        ensures
            r == self.spec_difference(other),
            r@ == self@ & !other@,
    {
        proof {
            use_type_invariant(&self);
            lemma_bits(self.0, other.0);
        }
        Adjacency(self.0 & !other.0)
    }

    /// Whether every neighbour of `other` is one of `self`.
    pub open spec fn spec_contains(self, other: Adjacency) -> bool {
        self@ & other@ == other@
    }

    #[verifier::when_used_as_spec(spec_contains)]
    pub fn contains(self, other: Adjacency) -> (r: bool)
        ensures
            r == self.spec_contains(other),
    {
        self.0 & other.0 == other.0
    }

    /// Whether the two have a neighbour in common.
    pub open spec fn spec_intersects(self, other: Adjacency) -> bool {
        self@ & other@ != 0
    }

    #[verifier::when_used_as_spec(spec_intersects)]
    pub fn intersects(self, other: Adjacency) -> (r: bool)
        ensures
            r == self.spec_intersects(other),
    {
        self.0 & other.0 != 0
    }

    /// The neighbour bit of a side.
    pub open spec fn spec_from_side(side: Side) -> Adjacency {
        match side {
            Side::North => Adjacency::of_bits(N),
            Side::South => Adjacency::of_bits(S),
            Side::East => Adjacency::of_bits(E),
            Side::West => Adjacency::of_bits(W),
        }
    }

    pub fn from_side(side: Side) -> (r: Adjacency)
        ensures
            r == Adjacency::spec_from_side(side),
    {
        match side {
            Side::North => Adjacency(N),
            Side::South => Adjacency(S),
            Side::East => Adjacency(E),
            Side::West => Adjacency(W),
        }
    }

    /// The diagonal neighbour bit of a corner.
    pub open spec fn spec_from_corner(corner: Corner) -> Adjacency {
        match corner {
            Corner::NorthEast => Adjacency::of_bits(NE),
            Corner::SouthEast => Adjacency::of_bits(SE),
            Corner::SouthWest => Adjacency::of_bits(SW),
            Corner::NorthWest => Adjacency::of_bits(NW),
        }
    }

    pub fn from_corner(corner: Corner) -> (r: Adjacency)
        ensures
            r == Adjacency::spec_from_corner(corner),
            r.spec_is_corner(),
    {
        proof {
            lemma_bits(NE, 0);
            lemma_bits(SE, 0);
            lemma_bits(SW, 0);
            lemma_bits(NW, 0);
        }
        match corner {
            Corner::NorthEast => Adjacency(NE),
            Corner::SouthEast => Adjacency(SE),
            Corner::SouthWest => Adjacency(SW),
            Corner::NorthWest => Adjacency(NW),
        }
    }

    /// The cardinal neighbours in the order the engine stores directions.
    pub fn dmi_cardinals() -> (r: [Adjacency; 4])
        ensures
            r@ == seq![
                Adjacency::of_bits(S),
                Adjacency::of_bits(N),
                Adjacency::of_bits(E),
                Adjacency::of_bits(W),
            ],
    {
        let r = [Adjacency(S), Adjacency(N), Adjacency(E), Adjacency(W)];
        assert(r@ =~= seq![
            Adjacency::of_bits(S),
            Adjacency::of_bits(N),
            Adjacency::of_bits(E),
            Adjacency::of_bits(W),
        ]);
        r
    }

    /// The four diagonal neighbours.
    pub open spec fn spec_diagonals() -> Seq<Adjacency> {
        seq![
            Adjacency::of_bits(NE),
            Adjacency::of_bits(SE),
            Adjacency::of_bits(SW),
            Adjacency::of_bits(NW),
        ]
    }

    pub fn diagonals() -> (r: [Adjacency; 4])
        ensures
            r@ == Adjacency::spec_diagonals(),
    {
        let r = [Adjacency(NE), Adjacency(SE), Adjacency(SW), Adjacency(NW)];
        assert(r@ =~= Adjacency::spec_diagonals());
        r
    }

    /// The four pairs of cardinal neighbours that meet in a corner.
    pub open spec fn spec_diagonal_cardinals() -> Seq<Adjacency> {
        seq![
            Adjacency::of_bits(0x005),
            Adjacency::of_bits(0x006),
            Adjacency::of_bits(0x00a),
            Adjacency::of_bits(0x009),
        ]
    }

    pub fn diagonal_cardinals() -> (r: Vec<Adjacency>)
        ensures
            r@ == Adjacency::spec_diagonal_cardinals(),
    {
        let mut r: Vec<Adjacency> = Vec::new();
        r.push(Adjacency(0x005));
        r.push(Adjacency(0x006));
        r.push(Adjacency(0x00a));
        r.push(Adjacency(0x009));
        assert(r@ =~= Adjacency::spec_diagonal_cardinals());
        r
    }

    /// Each diagonal neighbour together with its two sides.
    pub open spec fn spec_filled_diagonals() -> Seq<Adjacency> {
        seq![
            Adjacency::of_bits(0x015),
            Adjacency::of_bits(0x026),
            Adjacency::of_bits(0x04a),
            Adjacency::of_bits(0x089),
        ]
    }

    pub fn filled_diagonals() -> (r: Vec<Adjacency>)
        ensures
            r@ == Adjacency::spec_filled_diagonals(),
            forall|i: int|
                0 <= i < 4 ==> {
                    let d = Adjacency::spec_diagonals()[i];
                    let sides = d.spec_corner_sides();
                    (#[trigger] r@[i])@ == d@ | sides.0@ | sides.1@
                },
    {
        let diagonals = Adjacency::diagonals();
        let mut r: Vec<Adjacency> = Vec::new();
        let mut i: usize = 0;
        while i < 4
            invariant
                i <= 4,
                diagonals@ == Adjacency::spec_diagonals(),
                r@.len() == i,
                forall|k: int|
                    0 <= k < i ==> #[trigger] r@[k] == Adjacency::spec_filled_diagonals()[k],
                forall|k: int|
                    0 <= k < i ==> {
                        let d = Adjacency::spec_diagonals()[k];
                        let sides = d.spec_corner_sides();
                        (#[trigger] r@[k])@ == d@ | sides.0@ | sides.1@
                    },
            decreases 4 - i,
        {
            let d = diagonals[i];
            proof {
                lemma_bits(d.0, 0);
                lemma_corner_unions();
            }
            let (vertical, horizontal) = d.corner_sides();
            let filled = d.union(vertical).union(horizontal);
            r.push(filled);
            i += 1;
        }
        assert(r@ =~= Adjacency::spec_filled_diagonals());
        r
    }

    /// Whether this is one diagonal neighbour, edge marks aside.
    pub open spec fn spec_is_corner(self) -> bool {
        let base = self@ & !EDGES;
        base == NE || base == SE || base == SW || base == NW
    }

    /// The two sides of a diagonal neighbour, as (vertical, horizontal):
    /// the north or south neighbour first, the east or west one second.
    pub open spec fn spec_corner_sides(self) -> (Adjacency, Adjacency) {
        let base = self@ & !EDGES;
        if base == NE {
            (Adjacency::of_bits(N), Adjacency::of_bits(E))
        } else if base == SE {
            (Adjacency::of_bits(S), Adjacency::of_bits(E))
        } else if base == SW {
            (Adjacency::of_bits(S), Adjacency::of_bits(W))
        } else {
            (Adjacency::of_bits(N), Adjacency::of_bits(W))
        }
    }

    /// The sides of a diagonal neighbour. Only a diagonal neighbour has
    /// them: the caller passes one of the four, with or without edge marks.
    pub fn corner_sides(self) -> (r: (Adjacency, Adjacency))
        requires
            self.spec_is_corner(),
        ensures
            r == self.spec_corner_sides(),
    {
        let base: u16 = self.0 & !EDGES;
        if base == NE {
            (Adjacency(N), Adjacency(E))
        } else if base == SE {
            (Adjacency(S), Adjacency(E))
        } else if base == SW {
            (Adjacency(S), Adjacency(W))
        } else {
            (Adjacency(N), Adjacency(W))
        }
    }

    /// Whether both sides of the diagonal neighbour `corner` are neighbours.
    pub open spec fn spec_adjacent_corners_filled(self, corner: Adjacency) -> bool {
        let sides = corner.spec_corner_sides();
        self.spec_contains(sides.0) && self.spec_contains(sides.1)
    }

    pub fn adjacent_corners_filled(self, corner: Adjacency) -> (r: bool)
        requires
            corner.spec_is_corner(),
        ensures
            r == self.spec_adjacent_corners_filled(corner),
    {
        let (first, second) = corner.corner_sides();
        self.contains(first) && self.contains(second)
    }

    /// Whether every diagonal neighbour comes with both of its sides.
    pub open spec fn spec_has_no_orphaned_corner(self) -> bool {
        &&& self@ & NE == NE ==> self@ & N == N && self@ & E == E
        &&& self@ & SE == SE ==> self@ & S == S && self@ & E == E
        &&& self@ & SW == SW ==> self@ & S == S && self@ & W == W
        &&& self@ & NW == NW ==> self@ & N == N && self@ & W == W
    }

    #[verifier::when_used_as_spec(spec_has_no_orphaned_corner)]
    pub fn has_no_orphaned_corner(self) -> (r: bool)
        ensures
            r == self.spec_has_no_orphaned_corner(),
    {
        let diagonals = Adjacency::diagonals();
        let first = diagonals[0];
        let second = diagonals[1];
        let third = diagonals[2];
        let fourth = diagonals[3];
        proof {
            lemma_bits(NE, 0);
            lemma_bits(SE, 0);
            lemma_bits(SW, 0);
            lemma_bits(NW, 0);
        }
        if self.contains(first) && !self.adjacent_corners_filled(first) {
            return false;
        }
        if self.contains(second) && !self.adjacent_corners_filled(second) {
            return false;
        }
        if self.contains(third) && !self.adjacent_corners_filled(third) {
            return false;
        }
        if self.contains(fourth) && !self.adjacent_corners_filled(fourth) {
            return false;
        }
        true
    }

    pub fn ref_has_no_orphaned_corner(&self) -> (r: bool)
        ensures
            r == self.spec_has_no_orphaned_corner(),
    {
        self.has_no_orphaned_corner()
    }

    /// The single bits in their fixed order: the cardinal neighbours, the
    /// diagonal neighbours, the inner and the outer edge mark.
    pub open spec fn spec_flags() -> Seq<u16> {
        seq![N, S, E, W, NE, SE, SW, NW, INNER_EDGE, OUTER_EDGE]
    }

    /// The single bits among the first `count` of the fixed order that
    /// `self` holds, in that order.
    pub open spec fn spec_set_flags_upto(self, count: nat) -> Seq<Adjacency>
        decreases count,
    {
        if count == 0 {
            Seq::empty()
        } else {
            let rest = self.spec_set_flags_upto((count - 1) as nat);
            let flag = Adjacency::spec_flags()[count - 1];
            if self@ & flag == flag {
                rest.push(Adjacency::of_bits(flag))
            } else {
                rest
            }
        }
    }

    /// The single bits that `self` holds, in the fixed order.
    pub open spec fn spec_set_flags_vec(self) -> Seq<Adjacency> {
        self.spec_set_flags_upto(10)
    }

    pub fn set_flags_vec(self) -> (r: Vec<Adjacency>)
        ensures
            r@ == self.spec_set_flags_vec(),
    {
        let full: [u16; 10] = [N, S, E, W, NE, SE, SW, NW, INNER_EDGE, OUTER_EDGE];
        assert(full@ =~= Adjacency::spec_flags());
        let mut r: Vec<Adjacency> = Vec::new();
        let mut i: usize = 0;
        while i < 10
            invariant
                i <= 10,
                full@ == Adjacency::spec_flags(),
                r@ == self.spec_set_flags_upto(i as nat),
            decreases 10 - i,
        {
            let flag: u16 = full[i];
            if self.0 & flag == flag {
                r.push(Adjacency(flag));
            }
            i += 1;
        }
        r
    }

    /// The kind of corner sub-image that the quadrant `corner` of a tile
    /// with these neighbours shows.
    ///
    /// With an edge mark set, the neighbours without the marks decide, for
    /// all four quadrants alike: two sides that meet in a corner give the
    /// inner kind of that corner, the same with their diagonal the outer
    /// kind, anything else the convex kind. Without a mark the two sides of
    /// the quadrant and its diagonal decide.
    pub open spec fn spec_get_corner_type(self, corner: Corner) -> CornerType {
        let diagonal = Adjacency::spec_from_corner(corner);
        let sides = diagonal.spec_corner_sides();
        let base = self@ & !EDGES;
        if self@ & EDGES != 0 {
            if base == 0x006 {
                CornerType::BottomRightInner
            } else if base == 0x00a {
                CornerType::BottomLeftInner
            } else if base == 0x005 {
                CornerType::TopRightInner
            } else if base == 0x009 {
                CornerType::TopLeftInner
            } else if base == 0x026 {
                CornerType::BottomRightOuter
            } else if base == 0x04a {
                CornerType::BottomLeftOuter
            } else if base == 0x015 {
                CornerType::TopRightOuter
            } else if base == 0x089 {
                CornerType::TopLeftOuter
            } else {
                CornerType::Convex
            }
        } else if self.spec_contains(sides.0) && self.spec_contains(sides.1) {
            if self.spec_contains(diagonal) {
                CornerType::Flat
            } else {
                CornerType::Concave
            }
        } else if self.spec_contains(sides.0) {
            CornerType::Vertical
        } else if self.spec_contains(sides.1) {
            CornerType::Horizontal
        } else {
            CornerType::Convex
        }
    }

    pub fn get_corner_type(self, corner: Corner) -> (r: CornerType)
        ensures
            r == self.spec_get_corner_type(corner),
    {
        let adj_corner = Adjacency::from_corner(corner);
        let (vertical, horizontal) = adj_corner.corner_sides();
        if self.intersects(Adjacency::edges()) {
            let base: u16 = self.difference(Adjacency::edges()).bits();
            if base == 0x006 {
                CornerType::BottomRightInner
            } else if base == 0x00a {
                CornerType::BottomLeftInner
            } else if base == 0x005 {
                CornerType::TopRightInner
            } else if base == 0x009 {
                CornerType::TopLeftInner
            } else if base == 0x026 {
                CornerType::BottomRightOuter
            } else if base == 0x04a {
                CornerType::BottomLeftOuter
            } else if base == 0x015 {
                CornerType::TopRightOuter
            } else if base == 0x089 {
                CornerType::TopLeftOuter
            } else {
                CornerType::Convex
            }
        } else if self.contains(vertical) && self.contains(horizontal) {
            if self.contains(adj_corner) {
                CornerType::Flat
            } else {
                CornerType::Concave
            }
        } else if self.contains(vertical) {
            CornerType::Vertical
        } else if self.contains(horizontal) {
            CornerType::Horizontal
        } else {
            CornerType::Convex
        }
    }

    /// The text form: the neighbour bits in decimal, followed by `-d` where
    /// an edge mark is set.
    pub open spec fn spec_pretty_print(self) -> Seq<char> {
        let number = decimal((self@ & !EDGES) as nat);
        if self@ & EDGES != 0 {
            number + seq!['-', 'd']
        } else {
            number
        }
    }

    pub fn pretty_print(self) -> (r: String)
        ensures
            r@ == self.spec_pretty_print(),
    {
        let number_bits: u16 = self.0 & !EDGES;
        let mut pretty_string = decimal_string(number_bits as u128);
        if self.intersects(Adjacency::edges()) {
            proof {
                reveal_strlit("-d");
            }
            pretty_string.append("-d");
            assert(pretty_string@ =~= self.spec_pretty_print());
        }
        pretty_string
    }

    /// Whether this is exactly one of the eight neighbours.
    pub open spec fn spec_is_single_neighbour(self) -> bool {
        self@ == N || self@ == S || self@ == E || self@ == W || self@ == NE || self@ == SE
            || self@ == SW || self@ == NW
    }

    /// A single bit under the rotation that a direction names: south leaves
    /// a neighbour in place, north turns it half way round, east a quarter
    /// turn counter-clockwise, west a quarter turn clockwise. The two edge
    /// marks stay as they are under every rotation.
    pub open spec fn spec_rotate_dir(self, direction: Direction) -> Adjacency {
        match direction {
            Direction::N => if self@ == N {
                Adjacency::of_bits(S)
            } else if self@ == S {
                Adjacency::of_bits(N)
            } else if self@ == E {
                Adjacency::of_bits(W)
            } else if self@ == W {
                Adjacency::of_bits(E)
            } else if self@ == NE {
                Adjacency::of_bits(SW)
            } else if self@ == SE {
                Adjacency::of_bits(NW)
            } else if self@ == SW {
                Adjacency::of_bits(NE)
            } else if self@ == NW {
                Adjacency::of_bits(SE)
            } else {
                self
            },
            Direction::E => if self@ == N {
                Adjacency::of_bits(W)
            } else if self@ == S {
                Adjacency::of_bits(E)
            } else if self@ == E {
                Adjacency::of_bits(N)
            } else if self@ == W {
                Adjacency::of_bits(S)
            } else if self@ == NE {
                Adjacency::of_bits(NW)
            } else if self@ == SE {
                Adjacency::of_bits(NE)
            } else if self@ == SW {
                Adjacency::of_bits(SE)
            } else if self@ == NW {
                Adjacency::of_bits(SW)
            } else {
                self
            },
            Direction::W => if self@ == N {
                Adjacency::of_bits(E)
            } else if self@ == S {
                Adjacency::of_bits(W)
            } else if self@ == E {
                Adjacency::of_bits(S)
            } else if self@ == W {
                Adjacency::of_bits(N)
            } else if self@ == NE {
                Adjacency::of_bits(SE)
            } else if self@ == SE {
                Adjacency::of_bits(SW)
            } else if self@ == SW {
                Adjacency::of_bits(NW)
            } else if self@ == NW {
                Adjacency::of_bits(NE)
            } else {
                self
            },
            _ => self,
        }
    }

    /// Rotates a single bit. South rotates nothing and takes any adjacency;
    /// the other cardinal directions take one of the eight neighbours or
    /// one of the two edge marks, which stay as they are; there is no
    /// rotation to a diagonal direction.
    pub fn rotate_dir(self, direction: Direction) -> (r: Adjacency)
        requires
            direction == Direction::S || (direction.is_cardinal()
                && Adjacency::spec_is_single_bit(self@)),
        ensures
            r == self.spec_rotate_dir(direction),
            direction != Direction::S ==> Adjacency::spec_is_single_bit(r@),
            self.spec_is_single_neighbour() ==> r.spec_is_single_neighbour(),
    {
        let bits: u16 = self.0;
        match direction {
            Direction::N => if bits == N {
                Adjacency(S)
            } else if bits == S {
                Adjacency(N)
            } else if bits == E {
                Adjacency(W)
            } else if bits == W {
                Adjacency(E)
            } else if bits == NE {
                Adjacency(SW)
            } else if bits == SE {
                Adjacency(NW)
            } else if bits == SW {
                Adjacency(NE)
            } else if bits == NW {
                Adjacency(SE)
            } else {
                self
            },
            Direction::E => if bits == N {
                Adjacency(W)
            } else if bits == S {
                Adjacency(E)
            } else if bits == E {
                Adjacency(N)
            } else if bits == W {
                Adjacency(S)
            } else if bits == NE {
                Adjacency(NW)
            } else if bits == SE {
                Adjacency(NE)
            } else if bits == SW {
                Adjacency(SE)
            } else if bits == NW {
                Adjacency(SW)
            } else {
                self
            },
            Direction::W => if bits == N {
                Adjacency(E)
            } else if bits == S {
                Adjacency(W)
            } else if bits == E {
                Adjacency(S)
            } else if bits == W {
                Adjacency(N)
            } else if bits == NE {
                Adjacency(SE)
            } else if bits == SE {
                Adjacency(SW)
            } else if bits == SW {
                Adjacency(NW)
            } else if bits == NW {
                Adjacency(NE)
            } else {
                self
            },
            _ => self,
        }
    }

    /// The bits of the single neighbours of `flags`, each rotated, together.
    pub open spec fn spec_rotated_bits(flags: Seq<Adjacency>, direction: Direction) -> u16
        decreases flags.len(),
    {
        if flags.len() == 0 {
            0
        } else {
            Adjacency::spec_rotated_bits(flags.drop_last(), direction)
                | flags.last().spec_rotate_dir(direction)@
        }
    }

    /// Every neighbour of `self` rotated as `rotate_dir` rotates one. The
    /// adjacency without neighbours stays as it is.
    pub open spec fn spec_rotate_to(self, direction: Direction) -> Adjacency {
        if self@ == 0 {
            self
        } else {
            Adjacency::of_bits(Adjacency::spec_rotated_bits(self.spec_set_flags_vec(), direction))
        }
    }

    /// Whether `rotate_to` takes this adjacency and direction: a cardinal
    /// direction takes any adjacency, and the adjacency without neighbours
    /// goes with any direction.
    pub open spec fn spec_can_rotate_to(self, direction: Direction) -> bool {
        self@ == 0 || direction.is_cardinal()
    }

    #[verifier::rlimit(40)]
    pub fn rotate_to(self, direction: Direction) -> (r: Adjacency)
        requires
            self.spec_can_rotate_to(direction),
        ensures
            r == self.spec_rotate_to(direction),
            r@ == spec_turned(self@, direction),
    {
        proof {
            use_type_invariant(&self);
            Adjacency::lemma_rotate_to_bits(self, direction);
        }
        let flags = self.set_flags_vec();
        if flags.len() == 0 {
            proof {
                self.lemma_set_flags_nonempty();
            }
            return self;
        }
        proof {
            self.lemma_set_flags_nonempty();
        }
        let mut acc: u16 = 0;
        let mut i: usize = 0;
        while i < flags.len()
            invariant
                i <= flags@.len(),
                flags@ == self.spec_set_flags_vec(),
                self.spec_can_rotate_to(direction),
                self@ != 0,
                self@ <= ALL,
                acc == Adjacency::spec_rotated_bits(flags@.take(i as int), direction),
                acc <= ALL,
            decreases flags@.len() - i,
        {
            let flag = flags[i];
            proof {
                self.lemma_set_flags_member(10, i as int);
            }
            let rotated = flag.rotate_dir(direction);
            proof {
                lemma_union_bounds(acc, rotated.0);
                assert(flags@.take(i as int + 1).drop_last() =~= flags@.take(i as int));
            }
            acc = acc | rotated.0;
            i += 1;
        }
        assert(flags@.take(flags@.len() as int) =~= flags@);
        Adjacency(acc)
    }

    /// The bits of the single bits among the first `count` of the fixed
    /// order that an adjacency holds, each rotated, together are the
    /// rotated bits of what the adjacency holds of those `count`.
    proof fn lemma_rotated_upto(self, direction: Direction, count: nat)
        requires
            count <= 10,
        ensures
            Adjacency::spec_rotated_bits(self.spec_set_flags_upto(count), direction)
                == spec_turned(self@ & spec_low_mask(count), direction),
        decreases count,
    {
        if count == 0 {
            lemma_turn_nothing(self@);
        } else {
            self.lemma_rotated_upto(direction, (count - 1) as nat);
            let before = self.spec_set_flags_upto((count - 1) as nat);
            let flag = Adjacency::spec_flags()[count - 1];
            if self@ & flag == flag {
                assert(before.push(Adjacency::of_bits(flag)).drop_last() =~= before);
            }
            lemma_turn_half_steps(self@);
            lemma_turn_counter_steps(self@);
            lemma_turn_clockwise_steps(self@);
            lemma_turn_stay_steps(self@);
            if count == 1 {
            } else if count == 2 {
            } else if count == 3 {
            } else if count == 4 {
            } else if count == 5 {
            } else if count == 6 {
            } else if count == 7 {
            } else if count == 8 {
            } else if count == 9 {
            } else {
            }
        }
    }

    /// Rotating an adjacency moves each of its neighbours as `spec_turned`
    /// says and leaves its edge marks.
    pub proof fn lemma_rotate_to_bits(adjacency: Adjacency, direction: Direction)
        requires
            adjacency@ <= ALL,
        ensures
            adjacency.spec_rotate_to(direction)@ == spec_turned(adjacency@, direction),
            adjacency.spec_rotate_to(direction)@ <= ALL,
    {
        adjacency.lemma_rotated_upto(direction, 10);
        lemma_turn_nothing(adjacency@);
    }

    /// An adjacency turned half way round twice is back in place, and so is
    /// one turned a quarter one way and then a quarter the other way.
    pub proof fn lemma_rotate_to_undo(adjacency: Adjacency)
        requires
            adjacency@ <= ALL,
        ensures
            adjacency.spec_rotate_to(Direction::S) == adjacency,
            adjacency.spec_rotate_to(Direction::N).spec_rotate_to(Direction::N) == adjacency,
            adjacency.spec_rotate_to(Direction::E).spec_rotate_to(Direction::W) == adjacency,
            adjacency.spec_rotate_to(Direction::W).spec_rotate_to(Direction::E) == adjacency,
    {
        let half = adjacency.spec_rotate_to(Direction::N);
        let counter = adjacency.spec_rotate_to(Direction::E);
        let clockwise = adjacency.spec_rotate_to(Direction::W);
        Adjacency::lemma_rotate_to_bits(adjacency, Direction::S);
        Adjacency::lemma_rotate_to_bits(adjacency, Direction::N);
        Adjacency::lemma_rotate_to_bits(adjacency, Direction::E);
        Adjacency::lemma_rotate_to_bits(adjacency, Direction::W);
        Adjacency::lemma_rotate_to_bits(half, Direction::N);
        Adjacency::lemma_rotate_to_bits(counter, Direction::W);
        Adjacency::lemma_rotate_to_bits(clockwise, Direction::E);
        lemma_turns_undo(adjacency@);
        Adjacency::lemma_of_view(adjacency);
        Adjacency::lemma_of_view(adjacency.spec_rotate_to(Direction::S));
        Adjacency::lemma_of_view(half.spec_rotate_to(Direction::N));
        Adjacency::lemma_of_view(counter.spec_rotate_to(Direction::W));
        Adjacency::lemma_of_view(clockwise.spec_rotate_to(Direction::E));
    }

    /// An adjacency with a neighbour or a mark holds at least one single bit.
    proof fn lemma_set_flags_nonempty(self)
        requires
            self@ <= ALL,
        ensures
            self.spec_set_flags_vec().len() == 0 <==> self@ == 0,
    {
        reveal_with_fuel(Adjacency::spec_set_flags_upto, 11);
        lemma_some_flag(self.0);
    }

    /// Each entry of the single bits of `self` is one of the ten, and one
    /// that `self` holds.
    proof fn lemma_set_flags_member(self, count: nat, i: int)
        requires
            count <= 10,
            0 <= i < self.spec_set_flags_upto(count).len(),
        ensures
            ({
                let flag = self.spec_set_flags_upto(count)[i]@;
                &&& self@ & flag == flag
                &&& Adjacency::spec_is_single_bit(flag)
            }),
        decreases count,
    {
        if count > 0 {
            let rest = self.spec_set_flags_upto((count - 1) as nat);
            if i < rest.len() {
                self.lemma_set_flags_member((count - 1) as nat, i);
            } else {
                assert(Adjacency::spec_flags()[count - 1] == self.spec_set_flags_upto(count)[i]@);
            }
        }
    }

    /// Whether a bit pattern is one of the ten single bits.
    pub open spec fn spec_is_single_bit(bits: u16) -> bool {
        bits == N || bits == S || bits == E || bits == W || bits == NE || bits == SE || bits
            == SW || bits == NW || bits == INNER_EDGE || bits == OUTER_EDGE
    }

    /// Whether, in a bit pattern, every diagonal neighbour comes with both
    /// of its sides.
    pub open spec fn spec_orphan_free_bits(bits: u16) -> bool {
        &&& bits & NE == NE ==> bits & N == N && bits & E == E
        &&& bits & SE == SE ==> bits & S == S && bits & E == E
        &&& bits & SW == SW ==> bits & S == S && bits & W == W
        &&& bits & NW == NW ==> bits & N == N && bits & W == W
    }

    /// An adjacency has no orphaned corner exactly where its bit pattern
    /// has none.
    pub proof fn lemma_orphan_free(adjacency: Adjacency)
        ensures
            adjacency.spec_has_no_orphaned_corner() == Adjacency::spec_orphan_free_bits(
                adjacency@,
            ),
    {
    }

    /// Two adjacencies with the same text form have the same neighbours,
    /// and either both an edge mark or neither.
    pub proof fn lemma_pretty_print_injective(a: Adjacency, b: Adjacency)
        requires
            a.spec_pretty_print() == b.spec_pretty_print(),
        ensures
            a@ & !EDGES == b@ & !EDGES,
            (a@ & EDGES != 0) == (b@ & EDGES != 0),
    {
        let base_a = (a@ & !EDGES) as nat;
        let base_b = (b@ & !EDGES) as nat;
        let digits_a = decimal(base_a);
        let digits_b = decimal(base_b);
        let text = a.spec_pretty_print();
        lemma_decimal_round_trip(base_a);
        lemma_decimal_round_trip(base_b);
        if a@ & EDGES != 0 && b@ & EDGES == 0 {
            assert(text[text.len() - 1] == 'd');
            lemma_decimal_digits(base_b, digits_b.len() - 1);
        } else if a@ & EDGES == 0 && b@ & EDGES != 0 {
            assert(text[text.len() - 1] == 'd');
            lemma_decimal_digits(base_a, digits_a.len() - 1);
        } else if a@ & EDGES != 0 {
            assert(digits_a =~= text.take(text.len() - 2));
            assert(digits_b =~= text.take(text.len() - 2));
            lemma_decimal_injective(base_a, base_b);
        } else {
            lemma_decimal_injective(base_a, base_b);
        }
    }

    /// Where the edge marks of a bit pattern of ten bits stand: an
    /// adjacency below 256 has none and is all neighbours; 256 or 512 more
    /// than such an adjacency has a mark and the neighbours of that
    /// adjacency.
    pub proof fn lemma_edge_marks(bits: u16)
        requires
            bits < 256,
        ensures
            bits & EDGES == 0,
            bits & !EDGES == bits,
            ((bits + 0x100) as u16) & EDGES != 0,
            ((bits + 0x100) as u16) & !EDGES == bits,
            ((bits + 0x200) as u16) & EDGES != 0,
            ((bits + 0x200) as u16) & !EDGES == bits,
    {
        lemma_marks(bits);
    }

    /// Rotating by south changes nothing. A single bit turned half way
    /// round twice is back in place, and so is one turned a quarter
    /// counter-clockwise and then a quarter clockwise.
    pub proof fn lemma_rotations_undo(adjacency: Adjacency)
        ensures
            adjacency.spec_rotate_dir(Direction::S) == adjacency,
            Adjacency::spec_is_single_bit(adjacency@) ==> adjacency.spec_rotate_dir(
                Direction::N,
            ).spec_rotate_dir(Direction::N) == adjacency,
            Adjacency::spec_is_single_bit(adjacency@) ==> adjacency.spec_rotate_dir(
                Direction::E,
            ).spec_rotate_dir(Direction::W) == adjacency,
            Adjacency::spec_is_single_bit(adjacency@) ==> adjacency.spec_rotate_dir(
                Direction::W,
            ).spec_rotate_dir(Direction::E) == adjacency,
    {
    }

    /// The adjacency that a text stands for: a decimal number of at most
    /// 1023, which may have a `+` in front and `-d` behind. The number gives
    /// the bits. `-d` sets the inner edge mark where the number sets neither
    /// edge mark. `None` for any other text.
    pub open spec fn spec_from_str(text: Seq<char>) -> Option<Adjacency> {
        match decimal_value(Adjacency::spec_digits_of(text)) {
            Some(value) => if value <= ALL {
                if Adjacency::spec_is_marked(text) && (value as u16) & EDGES == 0 {
                    Some(Adjacency::of_bits((value as u16) | INNER_EDGE))
                } else {
                    Some(Adjacency::of_bits(value as u16))
                }
            } else {
                None
            },
            None => None,
        }
    }

    /// Whether a text ends in `-d`.
    pub open spec fn spec_is_marked(text: Seq<char>) -> bool {
        text.len() >= 2 && text[text.len() - 2] == '-' && text[text.len() - 1] == 'd'
    }

    /// The part of a text that is to be a decimal number: the text without
    /// `-d` at its end and without `+` at its start.
    pub open spec fn spec_digits_of(text: Seq<char>) -> Seq<char> {
        let signed = if Adjacency::spec_is_marked(text) {
            text.take(text.len() - 2)
        } else {
            text
        };
        if signed.len() >= 1 && signed[0] == '+' {
            signed.skip(1)
        } else {
            signed
        }
    }

    /// Reading the text form of an adjacency gives the adjacency again,
    /// unless it has the outer edge mark, which the text form does not
    /// tell from the inner one.
    pub proof fn lemma_text_round_trip(adjacency: Adjacency)
        requires
            adjacency@ <= ALL,
            adjacency@ & OUTER_EDGE == 0,
        ensures
            Adjacency::spec_from_str(adjacency.spec_pretty_print()) == Some(adjacency),
    {
        let base = adjacency@ & !EDGES;
        let digits = decimal(base as nat);
        let text = adjacency.spec_pretty_print();
        lemma_decimal_round_trip(base as nat);
        lemma_decimal_digits(base as nat, 0);
        lemma_decimal_digits(base as nat, digits.len() - 1);
        lemma_inner_mark(adjacency@);
        Adjacency::lemma_of_view(adjacency);
        if adjacency@ & EDGES != 0 {
            assert(Adjacency::spec_is_marked(text));
            assert(text.take(text.len() - 2) =~= digits);
            assert(Adjacency::spec_digits_of(text) == digits);
        } else {
            assert(text == digits);
            assert(!Adjacency::spec_is_marked(text));
            assert(Adjacency::spec_digits_of(text) == digits);
        }
    }

    /// Reads an adjacency from its text form.
    #[verifier::rlimit(40)]
    pub fn from_str(text: &str) -> (r: Result<Adjacency, InvalidAdjacencyError>)
        ensures
            r is Ok <==> Adjacency::spec_from_str(text@) is Some,
            r matches Ok(a) ==> Some(a) == Adjacency::spec_from_str(text@),
    {
        let len = text.unicode_len();
        let marked = len >= 2 && text.get_char(len - 2) == '-' && text.get_char(len - 1) == 'd';
        let end: usize = if marked {
            len - 2
        } else {
            len
        };
        let start: usize = if end >= 1 && text.get_char(0) == '+' {
            1
        } else {
            0
        };
        let ghost digits = Adjacency::spec_digits_of(text@);
        assert(digits =~= text@.subrange(start as int, end as int));
        if start == end {
            return Err(InvalidAdjacencyError);
        }
        let mut value: u16 = 0;
        let mut i: usize = start;
        while i < end
            invariant
                start <= i <= end <= text@.len(),
                start < end,
                digits == Adjacency::spec_digits_of(text@),
                digits == text@.subrange(start as int, end as int),
                value <= ALL,
                i == start ==> value == 0,
                i > start ==> decimal_value(text@.subrange(start as int, i as int)) == Some(
                    value as nat,
                ),
            decreases end - i,
        {
            let c = text.get_char(i);
            let ghost prefix = text@.subrange(start as int, i as int);
            let ghost next = text@.subrange(start as int, i as int + 1);
            proof {
                assert(next.drop_last() =~= prefix);
                assert(next.last() == c);
                if i == start {
                    assert(next.len() == 1);
                    assert(next[0] == c);
                }
            }
            let digit: u16 = match digit_of(c) {
                Some(d) => d,
                None => {
                    proof {
                        lemma_decimal_value_prefix(digits, i - start + 1);
                        assert(digits.take(i - start + 1) =~= next);
                    }
                    return Err(InvalidAdjacencyError);
                },
            };
            let wide: u16 = value * 10 + digit;
            assert(decimal_value(next) == Some(wide as nat));
            if wide > ALL {
                proof {
                    lemma_decimal_value_prefix(digits, i - start + 1);
                    assert(digits.take(i - start + 1) =~= next);
                }
                return Err(InvalidAdjacencyError);
            }
            value = wide;
            i += 1;
        }
        assert(text@.subrange(start as int, end as int) =~= digits);
        if marked && value & EDGES == 0 {
            proof {
                lemma_bits(value, INNER_EDGE);
            }
            Ok(Adjacency(value | INNER_EDGE))
        } else {
            Ok(Adjacency(value))
        }
    }
}

/// The value of a decimal digit character.
fn digit_of(c: char) -> (r: Option<u16>)
    ensures
        r is Some <==> digit_value(c) is Some,
        r matches Some(d) ==> digit_value(c) == Some(d as nat) && d < 10,
{
    if c == '0' {
        Some(0)
    } else if c == '1' {
        Some(1)
    } else if c == '2' {
        Some(2)
    } else if c == '3' {
        Some(3)
    } else if c == '4' {
        Some(4)
    } else if c == '5' {
        Some(5)
    } else if c == '6' {
        Some(6)
    } else if c == '7' {
        Some(7)
    } else if c == '8' {
        Some(8)
    } else if c == '9' {
        Some(9)
    } else {
        None
    }
}

/// A run of digits stands for a number at least as large as each of its
/// prefixes does, and for none where a prefix stands for none.
proof fn lemma_decimal_value_prefix(s: Seq<char>, count: int)
    requires
        1 <= count <= s.len(),
    ensures
        decimal_value(s.take(count)) is None ==> decimal_value(s) is None,
        decimal_value(s) matches Some(whole) ==> decimal_value(s.take(count)).unwrap() <= whole,
    decreases s.len(),
{
    if count < s.len() {
        assert(s.drop_last().take(count) =~= s.take(count));
        lemma_decimal_value_prefix(s.drop_last(), count);
    } else {
        assert(s.take(count) =~= s);
    }
}

proof fn lemma_marks(a: u16)
    by (bit_vector)
    requires
        a < 256,
    ensures
        a & 0x300 == 0,
        a & !0x300 == a,
        ((a + 0x100) as u16) & 0x300 != 0,
        ((a + 0x100) as u16) & !0x300 == a,
        ((a + 0x200) as u16) & 0x300 != 0,
        ((a + 0x200) as u16) & !0x300 == a,
{
}

proof fn lemma_inner_mark(a: u16)
    by (bit_vector)
    requires
        a <= 0x3ff,
        a & 0x200 == 0,
    ensures
        a & !0x300 <= 0xff,
        (a & !0x300) & 0x300 == 0,
        a & 0x300 != 0 ==> (a & !0x300) | 0x100 == a,
        a & 0x300 == 0 ==> a & !0x300 == a,
{
}

proof fn lemma_corner_unions()
    by (bit_vector)
    ensures
        0x010u16 | 0x001u16 | 0x004u16 == 0x015u16,
        0x020u16 | 0x002u16 | 0x004u16 == 0x026u16,
        0x040u16 | 0x002u16 | 0x008u16 == 0x04au16,
        0x080u16 | 0x001u16 | 0x008u16 == 0x089u16,
{
}

proof fn lemma_some_flag(a: u16)
    by (bit_vector)
    ensures
        a <= 0x3ff && a != 0 ==> a & 0x001 == 0x001 || a & 0x002 == 0x002 || a & 0x004 == 0x004
            || a & 0x008 == 0x008 || a & 0x010 == 0x010 || a & 0x020 == 0x020 || a & 0x040
            == 0x040 || a & 0x080 == 0x080 || a & 0x100 == 0x100 || a & 0x200 == 0x200,
        a == 0 ==> a & 0x001 != 0x001 && a & 0x002 != 0x002 && a & 0x004 != 0x004 && a & 0x008
            != 0x008 && a & 0x010 != 0x010 && a & 0x020 != 0x020 && a & 0x040 != 0x040 && a
            & 0x080 != 0x080 && a & 0x100 != 0x100 && a & 0x200 != 0x200,
{
}

proof fn lemma_union_bounds(a: u16, b: u16)
    by (bit_vector)
    ensures
        a <= 0x3ff && b <= 0x3ff ==> (a | b) <= 0x3ff,
        a <= 0x0ff && b <= 0x0ff ==> (a | b) <= 0x0ff,
        a <= 0x00f && b <= 0x00f ==> (a | b) <= 0x00f,
{
}

} // verus!
