use vstd::prelude::*;
use crate::util::adjacency::Adjacency;
use crate::util::corners::{CornerType, Side, CORNER_TYPE_COUNT};
use crate::util::text::str_equal;

verus! {

/// The size of one tile of the input atlas, in pixels.
#[derive(Clone, Copy, Debug, PartialEq, Eq, Structural)]
pub struct IconSize {
    pub x: u32,
    pub y: u32,
}

/// Where in an output tile the composed image is drawn.
#[derive(Clone, Copy, Debug, PartialEq, Eq, Structural)]
pub struct OutputIconPosition {
    pub x: u32,
    pub y: u32,
}

/// The size of one tile of the output, in pixels.
#[derive(Clone, Copy, Debug, PartialEq, Eq, Structural)]
pub struct OutputIconSize {
    pub x: u32,
    pub y: u32,
}

/// The point inside a tile at which it is cut into its four corners.
#[derive(Clone, Copy, Debug, PartialEq, Eq, Structural)]
pub struct CutPosition {
    pub x: u32,
    pub y: u32,
}

/// The column, within the tiles of one direction, of the tile of each kind
/// of corner. Its view lists the column of each kind by the kind's ordinal.
#[derive(Debug, PartialEq, Eq)]
pub struct Positions {
    slots: Vec<Option<u32>>,
}

/// How many entries of a table are filled.
pub open spec fn filled_count(slots: Seq<Option<u32>>) -> nat
    decreases slots.len(),
{
    if slots.len() == 0 {
        0
    } else {
        filled_count(slots.drop_last()) + if slots.last() is Some {
            1nat
        } else {
            0nat
        }
    }
}

impl View for Positions {
    type V = Seq<Option<u32>>;

    closed spec fn view(&self) -> Seq<Option<u32>> {
        self.slots@
    }
}

impl Clone for Positions {
    fn clone(&self) -> (r: Positions)
        ensures
            r@ == self@,
    {
        proof {
            use_type_invariant(self);
        }
        let mut slots: Vec<Option<u32>> = Vec::new();
        let mut i: usize = 0;
        while i < self.slots.len()
            invariant
                i <= self.slots@.len(),
                slots@ == self.slots@.take(i as int),
            decreases self.slots@.len() - i,
        {
            slots.push(self.slots[i]);
            assert(slots@ =~= self.slots@.take(i + 1));
            i += 1;
        }
        assert(slots@ =~= self.slots@);
        proof {
            use_type_invariant(self);
        }
        Positions { slots }
    }
}

impl Positions {
    /// The table has an entry, filled or not, for each kind of corner.
    #[verifier::type_invariant]
    pub open spec fn one_slot_per_kind(&self) -> bool {
        self@.len() == CORNER_TYPE_COUNT
    }

    /// The column of a kind of corner, if it has one.
    pub open spec fn spec_get(&self, key: CornerType) -> Option<u32> {
        self@[key.spec_ordinal()]
    }

    /// The number of kinds of corner that have a column.
    pub open spec fn spec_count(&self) -> nat {
        filled_count(self@)
    }

    /// The table without any column.
    pub fn new() -> (r: Positions)
        ensures
            r@ == Seq::new(CORNER_TYPE_COUNT as nat, |i: int| None::<u32>),
    {
        let mut slots: Vec<Option<u32>> = Vec::new();
        let mut i: usize = 0;
        while i < CORNER_TYPE_COUNT
            invariant
                i <= CORNER_TYPE_COUNT,
                slots@.len() == i,
                forall|k: int| 0 <= k < i ==> slots@[k] == None::<u32>,
            decreases CORNER_TYPE_COUNT - i,
        {
            slots.push(None);
            i += 1;
        }
        assert(slots@ =~= Seq::new(CORNER_TYPE_COUNT as nat, |i: int| None::<u32>));
        Positions { slots }
    }

    /// Sets the column of a kind of corner.
    pub fn insert(&mut self, key: CornerType, position: u32)
        ensures
            final(self)@ == old(self)@.update(key.spec_ordinal(), Some(position)),
    {
        proof {
            use_type_invariant(&*self);
        }
        let place: usize = key.ordinal();
        let mut slots: Vec<Option<u32>> = Vec::new();
        let mut i: usize = 0;
        while i < self.slots.len()
            invariant
                i <= self.slots@.len(),
                place < self.slots@.len(),
                slots@ == self.slots@.update(place as int, Some(position)).take(i as int),
            decreases self.slots@.len() - i,
        {
            if i == place {
                slots.push(Some(position));
            } else {
                slots.push(self.slots[i]);
            }
            assert(slots@ =~= self.slots@.update(place as int, Some(position)).take(i + 1));
            i += 1;
        }
        assert(slots@ =~= self.slots@.update(place as int, Some(position)));
        proof {
            use_type_invariant(&*self);
        }
        *self = Positions { slots };
    }

    pub fn get(&self, key: CornerType) -> (r: Option<u32>)
        ensures
            r == self.spec_get(key),
    {
        proof {
            use_type_invariant(self);
        }
        self.slots[key.ordinal()]
    }

    pub fn count(&self) -> (r: usize)
        ensures
            r == self.spec_count(),
            r <= CORNER_TYPE_COUNT,
    {
        proof {
            use_type_invariant(self);
        }
        let mut r: usize = 0;
        let mut i: usize = 0;
        while i < self.slots.len()
            invariant
                i <= self.slots@.len() == CORNER_TYPE_COUNT,
                r == filled_count(self.slots@.take(i as int)),
                r <= i,
            decreases self.slots@.len() - i,
        {
            assert(self.slots@.take(i + 1).drop_last() =~= self.slots@.take(i as int));
            if self.slots[i].is_some() {
                r += 1;
            }
            i += 1;
        }
        assert(self.slots@.take(i as int) =~= self.slots@);
        r
    }
}

/// The tiles of the atlas that hold a whole sprite for one adjacency each,
/// with the column of each within the tiles of one direction. No adjacency
/// is listed twice.
#[derive(Debug, PartialEq, Eq)]
pub struct Prefabs {
    entries: Vec<(Adjacency, u32)>,
}

/// The place of the entry for `key` in a list of entries, seen from the
/// end of its first `count` entries; -1 where none of them is for `key`.
pub open spec fn entry_index(entries: Seq<(Adjacency, u32)>, key: Adjacency, count: nat) -> int
    decreases count,
{
    if count == 0 {
        -1
    } else if entries[count - 1].0 == key {
        count - 1
    } else {
        entry_index(entries, key, (count - 1) as nat)
    }
}

/// Where `entry_index` points there is an entry for the key, and where it
/// points nowhere there is none.
pub proof fn lemma_entry_index(entries: Seq<(Adjacency, u32)>, key: Adjacency, count: nat)
    requires
        count <= entries.len(),
    ensures
        -1 <= entry_index(entries, key, count) < count,
        entry_index(entries, key, count) >= 0 ==> entries[entry_index(entries, key, count)].0
            == key,
        entry_index(entries, key, count) == -1 ==> forall|i: int|
            0 <= i < count ==> (#[trigger] entries[i]).0 != key,
    decreases count,
{
    if count > 0 && entries[count - 1].0 != key {
        lemma_entry_index(entries, key, (count - 1) as nat);
    }
}

impl View for Prefabs {
    type V = Seq<(Adjacency, u32)>;

    closed spec fn view(&self) -> Seq<(Adjacency, u32)> {
        self.entries@
    }
}

impl Clone for Prefabs {
    fn clone(&self) -> (r: Prefabs)
        ensures
            r@ == self@,
    {
        proof {
            use_type_invariant(self);
        }
        let mut entries: Vec<(Adjacency, u32)> = Vec::new();
        let mut i: usize = 0;
        while i < self.entries.len()
            invariant
                i <= self.entries@.len(),
                entries@ == self.entries@.take(i as int),
            decreases self.entries@.len() - i,
        {
            entries.push(self.entries[i]);
            assert(entries@ =~= self.entries@.take(i + 1));
            i += 1;
        }
        assert(entries@ =~= self.entries@);
        proof {
            use_type_invariant(self);
            assert forall|i: int, j: int| 0 <= i < j < entries@.len() implies (
            #[trigger] entries@[i]).0 != (#[trigger] entries@[j]).0 by {
                assert(self@[i].0 != self@[j].0);
            }
        }
        Prefabs { entries }
    }
}

impl Prefabs {
    /// No adjacency has two entries.
    #[verifier::type_invariant]
    pub open spec fn keys_distinct(&self) -> bool {
        forall|i: int, j: int|
            0 <= i < j < self@.len() ==> (#[trigger] self@[i]).0 != (#[trigger] self@[j]).0
    }

    /// The column of the tile for an adjacency, if there is one.
    pub open spec fn spec_get(&self, key: Adjacency) -> Option<u32> {
        let index = entry_index(self@, key, self@.len());
        if index >= 0 {
            Some(self@[index].1)
        } else {
            None
        }
    }

    /// The list without any entry.
    pub fn new() -> (r: Prefabs)
        ensures
            r@.len() == 0,
    {
        Prefabs { entries: Vec::new() }
    }

    /// Where in the list the entry for `key` stands.
    pub fn find(&self, key: Adjacency) -> (r: Option<usize>)
        ensures
            match r {
                Some(index) => index == entry_index(self@, key, self@.len()) && index
                    < self@.len(),
                None => entry_index(self@, key, self@.len()) == -1,
            },
    {
        let mut count: usize = self.entries.len();
        while count > 0
            invariant
                count <= self.entries@.len(),
                entry_index(self@, key, self@.len()) == entry_index(self@, key, count as nat),
            decreases count,
        {
            if self.entries[count - 1].0 == key {
                return Some(count - 1);
            }
            count -= 1;
        }
        None
    }

    /// Sets the column of the tile for an adjacency: in place where the
    /// adjacency has an entry, in a new last entry where it has none.
    pub fn insert(&mut self, key: Adjacency, position: u32)
        ensures
            final(self).spec_get(key) == Some(position),
            ({
                let index = entry_index(old(self)@, key, old(self)@.len());
                if index >= 0 {
                    final(self)@ == old(self)@.update(index, (key, position))
                } else {
                    final(self)@ == old(self)@.push((key, position))
                }
            }),
    {
        proof {
            use_type_invariant(&*self);
            lemma_entry_index(self@, key, self@.len());
        }
        let found = self.find(key);
        let ghost wanted = match found {
            Some(index) => self.entries@.update(index as int, (key, position)),
            None => self.entries@.push((key, position)),
        };
        let mut entries: Vec<(Adjacency, u32)> = Vec::new();
        let mut i: usize = 0;
        while i < self.entries.len()
            invariant
                i <= self.entries@.len(),
                found matches Some(index) ==> index < self.entries@.len(),
                wanted == match found {
                    Some(index) => self.entries@.update(index as int, (key, position)),
                    None => self.entries@.push((key, position)),
                },
                entries@ == wanted.take(i as int),
            decreases self.entries@.len() - i,
        {
            if found == Some(i) {
                entries.push((key, position));
            } else {
                entries.push(self.entries[i]);
            }
            assert(entries@ =~= wanted.take(i + 1));
            i += 1;
        }
        if found.is_none() {
            entries.push((key, position));
        }
        assert(entries@ =~= wanted);
        proof {
            use_type_invariant(&*self);
            lemma_entry_index(self@, key, self@.len());
            if found is Some {
                lemma_same_keys(self.entries@, wanted, key, wanted.len());
            }
        }
        *self = Prefabs { entries };
    }

    pub fn get(&self, key: Adjacency) -> (r: Option<u32>)
        ensures
            r == self.spec_get(key),
    {
        proof {
            lemma_entry_index(self@, key, self@.len());
        }
        match self.find(key) {
            Some(index) => Some(self.entries[index].1),
            None => None,
        }
    }

    pub fn contains_key(&self, key: Adjacency) -> (r: bool)
        ensures
            r == self.spec_get(key) is Some,
    {
        self.find(key).is_some()
    }

    pub fn count(&self) -> (r: usize)
        ensures
            r == self@.len(),
    {
        self.entries.len()
    }

    /// The entries in the order in which their adjacencies were first set.
    pub fn entries(&self) -> (r: &Vec<(Adjacency, u32)>)
        ensures
            r@ == self@,
    {
        &self.entries
    }
}

/// Two lists with the same keys in the same places hold the entry for a key
/// in the same place.
proof fn lemma_same_keys(
    a: Seq<(Adjacency, u32)>,
    b: Seq<(Adjacency, u32)>,
    key: Adjacency,
    count: nat,
)
    requires
        a.len() == b.len(),
        count <= a.len(),
        forall|i: int| 0 <= i < a.len() ==> (#[trigger] a[i]).0 == b[i].0,
    ensures
        entry_index(a, key, count) == entry_index(b, key, count),
    decreases count,
{
    if count > 0 {
        assert(a[count - 1].0 == b[count - 1].0);
        lemma_same_keys(a, b, key, (count - 1) as nat);
    }
}

/// How an animation runs: the delay of each frame, in delay units, and
/// whether it runs backwards after it ran forwards.
#[derive(Clone, Debug, PartialEq, Eq)]
pub struct Animation {
    pub delays: Vec<u32>,
    pub rewind: Option<bool>,
}

/// For each side of a tile, how far from the tile's border the cut for the
/// directional slices lies.
#[derive(Clone, Copy, Debug, PartialEq, Eq, Structural)]
pub struct SlicePoint {
    pub north: Option<u32>,
    pub south: Option<u32>,
    pub east: Option<u32>,
    pub west: Option<u32>,
}

impl SlicePoint {
    pub open spec fn spec_get(&self, side: Side) -> Option<u32> {
        match side {
            Side::North => self.north,
            Side::South => self.south,
            Side::East => self.east,
            Side::West => self.west,
        }
    }

    #[verifier::when_used_as_spec(spec_get)]
    pub fn get(&self, side: Side) -> (r: Option<u32>)
        ensures
            r == self.spec_get(side),
    {
        match side {
            Side::North => self.north,
            Side::South => self.south,
            Side::East => self.east,
            Side::West => self.west,
        }
    }
}

/// A list of keys with a text for each, in the order in which it was
/// written down.
#[derive(Clone, Debug, PartialEq, Eq)]
pub struct StringMap(pub Vec<(String, String)>);

/// The keys and texts of a list, as texts.
pub open spec fn string_pairs(entries: Seq<(String, String)>) -> Seq<(Seq<char>, Seq<char>)> {
    entries.map_values(|entry: (String, String)| (entry.0@, entry.1@))
}

impl View for StringMap {
    type V = Seq<(Seq<char>, Seq<char>)>;

    open spec fn view(&self) -> Seq<(Seq<char>, Seq<char>)> {
        string_pairs(self.0@)
    }
}

/// Whether one of the first `count` entries of a list has the key `key`.
pub open spec fn has_key(entries: Seq<(Seq<char>, Seq<char>)>, key: Seq<char>) -> bool {
    exists|i: int| 0 <= i < entries.len() && (#[trigger] entries[i]).0 == key
}

impl StringMap {
    pub fn contains_key(&self, key: &str) -> (r: bool)
        ensures
            r == has_key(self@, key@),
    {
        let mut i: usize = 0;
        while i < self.0.len()
            invariant
                i <= self.0@.len(),
                forall|k: int| 0 <= k < i ==> (#[trigger] self@[k]).0 != key@,
            decreases self.0@.len() - i,
        {
            if str_equal(self.0[i].0.as_str(), key) {
                assert(self@[i as int].0 == key@);
                return true;
            }
            i += 1;
        }
        false
    }
}

} // verus!
