use vstd::prelude::*;
use vstd::string::*;
use crate::config::blocks::cutters::{has_key, StringMap};
use crate::icon::{delay_values, Icon, IconState, IconStateView, IconView, DELAY_UNITS_PER_TICK};
use crate::util::icon_ops::delays_total;
use crate::util::adjacency::Adjacency;
use crate::operations::error::ProcessorError;
use crate::operations::format_converter::error::{
    InconsistentDelay,
    InconsistentDirs,
    RestrorationError,
};
use crate::operations::{InputIcon, OperationMode, OutputImage, OutputText, ProcessorPayload};
use crate::raster::{Raster, RasterView};
use crate::util::delays::{spec_text_delays, text_delays};
use crate::util::directions::DirectionStrategy;
use crate::util::text::{
    after_hyphen,
    before_hyphen,
    decimal,
    decimal_string,
    has_hyphen,
    join,
    joined,
    split_at_hyphen,
    str_equal,
    texts,
};

verus! {

/// The configuration of the operation that packs a cut icon back into a
/// flat atlas: the suffixes of the icon states to pack, in the order of
/// their columns; states to pack as prefabs behind them, each with the
/// adjacency it stands for; and settings to write into the configuration
/// of the atlas as they are.
#[derive(Clone, Debug, PartialEq, Eq)]
pub struct BitmaskSliceReconstruct {
    pub extract: Vec<String>,
    pub bespoke: Option<StringMap>,
    pub set: Option<StringMap>,
}

/// The prefix that the names of the states of an icon carry: what stands
/// before the first hyphen of the name of the first state, if that name
/// has a hyphen.
pub open spec fn spec_output_prefix(icon: IconView) -> Option<Seq<char>> {
    if icon.states.len() > 0 && has_hyphen(icon.states[0].name) {
        Some(before_hyphen(icon.states[0].name))
    } else {
        None
    }
}

/// The prefix that names with a hyphen are held against: the prefix of the
/// icon, or nothing where it has none.
pub open spec fn spec_expected_prefix(icon: IconView) -> Seq<char> {
    match spec_output_prefix(icon) {
        Some(prefix) => prefix,
        None => Seq::empty(),
    }
}

/// The names, among the first `count` states, that have a hyphen and
/// another prefix than the icon.
pub open spec fn spec_prefix_problems(icon: IconView, count: nat) -> Seq<Seq<char>>
    decreases count,
{
    if count == 0 {
        Seq::empty()
    } else {
        let before = spec_prefix_problems(icon, (count - 1) as nat);
        let name = icon.states[count - 1].name;
        if has_hyphen(name) && before_hyphen(name) != spec_expected_prefix(icon) {
            before.push(name)
        } else {
            before
        }
    }
}

/// The suffix of each state of an icon: what stands behind the first
/// hyphen of its name, or the whole name where it has no hyphen.
pub open spec fn spec_suffixes(icon: IconView) -> Seq<Seq<char>> {
    Seq::new(icon.states.len(), |i: int| after_hyphen(icon.states[i].name))
}

/// Where a text stands last among the first `count` texts of a list; -1
/// where it is none of them.
pub open spec fn last_index_of(list: Seq<Seq<char>>, key: Seq<char>, count: nat) -> int
    decreases count,
{
    if count == 0 {
        -1
    } else if list[count - 1] == key {
        count - 1
    } else {
        last_index_of(list, key, (count - 1) as nat)
    }
}

/// Where a text stands last in a list of strings.
pub fn find_last(list: &Vec<String>, key: &str) -> (r: Option<usize>)
    ensures
        match r {
            Some(index) => index == last_index_of(texts(list@), key@, list@.len()) && index
                < list@.len(),
            None => last_index_of(texts(list@), key@, list@.len()) == -1,
        },
{
    let mut count: usize = list.len();
    while count > 0
        invariant
            count <= list@.len(),
            last_index_of(texts(list@), key@, list@.len()) == last_index_of(
                texts(list@),
                key@,
                count as nat,
            ),
        decreases count,
    {
        assert(texts(list@)[count - 1] == list@[count - 1]@);
        if str_equal(list[count - 1].as_str(), key) {
            return Some(count - 1);
        }
        count -= 1;
    }
    None
}

/// The keys of a list of keys and texts.
pub open spec fn keys_of(entries: Seq<(Seq<char>, Seq<char>)>) -> Seq<Seq<char>> {
    entries.map_values(|entry: (Seq<char>, Seq<char>)| entry.0)
}

impl BitmaskSliceReconstruct {
    /// The suffixes that get a column of the atlas, in the order of their
    /// columns: those to extract, and behind them those to pack as
    /// prefabs.
    pub open spec fn spec_combined(&self) -> Seq<Seq<char>> {
        texts(self.extract@) + match self.bespoke {
            Some(bespoke) => keys_of(bespoke@),
            None => Seq::empty(),
        }
    }

    /// The column that a suffix names: the last place at which it is
    /// listed; -1 where it is not listed.
    pub open spec fn spec_position(&self, suffix: Seq<char>) -> int {
        last_index_of(self.spec_combined(), suffix, self.spec_combined().len())
    }

    /// Whether a state with this suffix is packed: whether the suffix is
    /// listed.
    pub open spec fn spec_is_selected(&self, suffix: Seq<char>) -> bool {
        self.spec_position(suffix) >= 0
    }

    /// The states that would be lost among the first `count`: the suffix,
    /// in round brackets, of each state that is not packed and whose suffix
    /// does not stand for an adjacency.
    pub open spec fn spec_dropped(&self, icon: IconView, count: nat) -> Seq<Seq<char>>
        decreases count,
    {
        if count == 0 {
            Seq::empty()
        } else {
            let before = self.spec_dropped(icon, (count - 1) as nat);
            let suffix = spec_suffixes(icon)[count - 1];
            if !self.spec_is_selected(suffix) && Adjacency::spec_from_str(suffix) is None {
                before.push(seq!['('] + suffix + seq![')'])
            } else {
                before
            }
        }
    }

    /// The states among the first `count` of the first `limit` states of an
    /// icon whose suffix names column `position`, by their place in the
    /// icon.
    pub open spec fn spec_bucket(&self, icon: IconView, position: int, count: nat) -> Seq<int>
        decreases count,
    {
        if count == 0 {
            Seq::empty()
        } else {
            let before = self.spec_bucket(icon, position, (count - 1) as nat);
            if self.spec_position(spec_suffixes(icon)[count - 1]) == position {
                before.push(count - 1)
            } else {
                before
            }
        }
    }

    /// The states that are packed, in the order of their columns: first by
    /// the column that the suffix names, then by their place in the icon.
    /// Listed are the states whose suffix names one of the first `columns`
    /// columns.
    pub open spec fn spec_order_upto(&self, icon: IconView, columns: nat) -> Seq<int>
        decreases columns,
    {
        if columns == 0 {
            Seq::empty()
        } else {
            self.spec_order_upto(icon, (columns - 1) as nat) + self.spec_bucket(
                icon,
                columns - 1,
                icon.states.len(),
            )
        }
    }

    /// The states that are packed, in the order of their columns.
    pub open spec fn spec_order(&self, icon: IconView) -> Seq<int> {
        self.spec_order_upto(icon, self.spec_combined().len())
    }

    /// The suffixes that get a column, as strings.
    fn combined(&self) -> (r: Vec<String>)
        ensures
            texts(r@) == self.spec_combined(),
    {
        let mut r: Vec<String> = Vec::new();
        let mut i: usize = 0;
        while i < self.extract.len()
            invariant
                i <= self.extract@.len(),
                texts(r@) == texts(self.extract@).take(i as int),
            decreases self.extract@.len() - i,
        {
            let ghost so_far = texts(r@);
            let entry = self.extract[i].as_str().to_owned();
            r.push(entry);
            assert(texts(r@) =~= so_far.push(self.extract@[i as int]@));
            assert(texts(r@) =~= texts(self.extract@).take(i + 1));
            i += 1;
        }
        assert(texts(self.extract@).take(i as int) =~= texts(self.extract@));
        match &self.bespoke {
            Some(bespoke) => {
                let mut k: usize = 0;
                while k < bespoke.0.len()
                    invariant
                        k <= bespoke.0@.len(),
                        texts(r@) == texts(self.extract@) + keys_of(bespoke@).take(k as int),
                    decreases bespoke.0@.len() - k,
                {
                    let ghost so_far = texts(r@);
                    let entry = bespoke.0[k].0.as_str().to_owned();
                    r.push(entry);
                    assert(texts(r@) =~= so_far.push(bespoke.0@[k as int].0@));
                    assert(texts(r@) =~= texts(self.extract@) + keys_of(bespoke@).take(k + 1));
                    k += 1;
                }
                assert(keys_of(bespoke@).take(k as int) =~= keys_of(bespoke@));
            },
            None => {
                assert(texts(r@) =~= self.spec_combined());
            },
        }
        r
    }
}

/// The names of the states of an icon, each split at its first hyphen.
fn split_names(icon: &Icon) -> (r: Vec<(bool, String, String)>)
    ensures
        r@.len() == icon@.states.len(),
        forall|i: int|
            0 <= i < r@.len() ==> {
                let name = icon@.states[i].name;
                &&& (#[trigger] r@[i]).0 == has_hyphen(name)
                &&& r@[i].1@ == before_hyphen(name)
                &&& r@[i].2@ == after_hyphen(name)
            },
{
    let mut r: Vec<(bool, String, String)> = Vec::new();
    let mut i: usize = 0;
    while i < icon.states.len()
        invariant
            i <= icon.states@.len(),
            r@.len() == i,
            forall|k: int|
                0 <= k < i ==> {
                    let name = icon@.states[k].name;
                    &&& (#[trigger] r@[k]).0 == has_hyphen(name)
                    &&& r@[k].1@ == before_hyphen(name)
                    &&& r@[k].2@ == after_hyphen(name)
                },
        decreases icon.states@.len() - i,
    {
        assert(icon@.states[i as int] == icon.states@[i as int]@);
        r.push(split_at_hyphen(icon.states[i].name.as_str()));
        i += 1;
    }
    r
}

/// Whether `names` lists the names of the states of an icon, each split at
/// its first hyphen.
pub open spec fn is_split_names(names: Seq<(bool, String, String)>, icon: IconView) -> bool {
    &&& names.len() == icon.states.len()
    &&& forall|i: int|
        0 <= i < names.len() ==> {
            let name = icon.states[i].name;
            &&& (#[trigger] names[i]).0 == has_hyphen(name)
            &&& names[i].1@ == before_hyphen(name)
            &&& names[i].2@ == after_hyphen(name)
        }
}

/// The column that the suffix of each state names, if it names one.
pub open spec fn is_positions(
    positions: Seq<Option<usize>>,
    config: BitmaskSliceReconstruct,
    icon: IconView,
) -> bool {
    &&& positions.len() == icon.states.len()
    &&& forall|i: int|
        0 <= i < positions.len() ==> match #[trigger] positions[i] {
            Some(position) => position == config.spec_position(spec_suffixes(icon)[i]),
            None => config.spec_position(spec_suffixes(icon)[i]) == -1,
        }
}

/// The places of a list as numbers.
pub open spec fn places(order: Seq<usize>) -> Seq<int> {
    order.map_values(|place: usize| place as int)
}

/// The names of the states that carry another prefix than the icon.
fn prefix_problems(icon: &Icon, names: &Vec<(bool, String, String)>) -> (r: Vec<String>)
    requires
        is_split_names(names@, icon@),
    ensures
        texts(r@) == spec_prefix_problems(icon@, icon@.states.len()),
{
    let mut r: Vec<String> = Vec::new();
    if names.len() == 0 {
        return r;
    }
    let no_prefix = String::new();
    let expected: &str = if names[0].0 {
        names[0].1.as_str()
    } else {
        no_prefix.as_str()
    };
    assert(expected@ =~= spec_expected_prefix(icon@));
    let mut i: usize = 0;
    while i < names.len()
        invariant
            i <= names@.len(),
            is_split_names(names@, icon@),
            expected@ == spec_expected_prefix(icon@),
            texts(r@) == spec_prefix_problems(icon@, i as nat),
        decreases names@.len() - i,
    {
        let ghost so_far = texts(r@);
        assert(icon@.states[i as int] == icon.states@[i as int]@);
        if names[i].0 && !str_equal(names[i].1.as_str(), expected) {
            r.push(icon.states[i].name.as_str().to_owned());
            assert(texts(r@) =~= so_far.push(icon@.states[i as int].name));
        }
        i += 1;
    }
    r
}

impl BitmaskSliceReconstruct {
    /// The column that the suffix of each state names.
    fn positions(&self, icon: &Icon, names: &Vec<(bool, String, String)>, combined: &Vec<String>) -> (r:
        Vec<Option<usize>>)
        requires
            is_split_names(names@, icon@),
            texts(combined@) == self.spec_combined(),
        ensures
            is_positions(r@, *self, icon@),
    {
        let mut r: Vec<Option<usize>> = Vec::new();
        let mut i: usize = 0;
        while i < names.len()
            invariant
                i <= names@.len(),
                is_split_names(names@, icon@),
                texts(combined@) == self.spec_combined(),
                r@.len() == i,
                forall|k: int|
                    0 <= k < i ==> match #[trigger] r@[k] {
                        Some(position) => position == self.spec_position(spec_suffixes(icon@)[k]),
                        None => self.spec_position(spec_suffixes(icon@)[k]) == -1,
                    },
            decreases names@.len() - i,
        {
            r.push(find_last(combined, names[i].2.as_str()));
            i += 1;
        }
        r
    }

    /// The suffix, in round brackets, of each state that would be lost.
    fn dropped_states(
        &self,
        icon: &Icon,
        names: &Vec<(bool, String, String)>,
        positions: &Vec<Option<usize>>,
    ) -> (r: Vec<String>)
        requires
            is_split_names(names@, icon@),
            is_positions(positions@, *self, icon@),
        ensures
            texts(r@) == self.spec_dropped(icon@, icon@.states.len()),
    {
        proof {
            reveal_strlit("(");
            reveal_strlit(")");
        }
        let mut r: Vec<String> = Vec::new();
        let mut i: usize = 0;
        while i < names.len()
            invariant
                i <= names@.len(),
                is_split_names(names@, icon@),
                is_positions(positions@, *self, icon@),
                "("@ == seq!['('],
                ")"@ == seq![')'],
                texts(r@) == self.spec_dropped(icon@, i as nat),
            decreases names@.len() - i,
        {
            let ghost so_far = texts(r@);
            let suffix = names[i].2.as_str();
            if positions[i].is_none() && Adjacency::from_str(suffix).is_err() {
                let mut entry = String::from_str("(");
                entry.append(suffix);
                entry.append(")");
                r.push(entry);
                assert(texts(r@) =~= so_far.push(seq!['('] + suffix@ + seq![')']));
            }
            i += 1;
        }
        r
    }

    /// The places of the states that are packed, in the order of their
    /// columns.
    fn order(&self, icon: &Icon, positions: &Vec<Option<usize>>, columns: usize) -> (r: Vec<usize>)
        requires
            is_positions(positions@, *self, icon@),
            columns == self.spec_combined().len(),
        ensures
            places(r@) == self.spec_order(icon@),
            forall|i: int| 0 <= i < r@.len() ==> #[trigger] r@[i] < icon@.states.len(),
    {
        let mut r: Vec<usize> = Vec::new();
        let mut column: usize = 0;
        while column < columns
            invariant
                column <= columns,
                is_positions(positions@, *self, icon@),
                places(r@) == self.spec_order_upto(icon@, column as nat),
                forall|i: int| 0 <= i < r@.len() ==> #[trigger] r@[i] < icon@.states.len(),
            decreases columns - column,
        {
            let ghost before = places(r@);
            let mut i: usize = 0;
            while i < positions.len()
                invariant
                    i <= positions@.len(),
                    is_positions(positions@, *self, icon@),
                    places(r@) == before + self.spec_bucket(icon@, column as int, i as nat),
                    forall|k: int| 0 <= k < r@.len() ==> #[trigger] r@[k] < icon@.states.len(),
                decreases positions@.len() - i,
            {
                let ghost so_far = places(r@);
                if positions[i] == Some(column) {
                    r.push(i);
                    assert(places(r@) =~= so_far.push(i as int));
                    assert(places(r@) =~= before + self.spec_bucket(
                        icon@,
                        column as int,
                        (i + 1) as nat,
                    ));
                }
                i += 1;
            }
            column += 1;
        }
        r
    }
}

/// The largest number of directions among the first `count` states of an
/// order; 0 where there is none.
pub open spec fn spec_max_dirs(icon: IconView, order: Seq<int>, count: nat) -> nat
    decreases count,
{
    if count == 0 {
        0
    } else {
        let before = spec_max_dirs(icon, order, (count - 1) as nat);
        let dirs = icon.states[order[count - 1]].dirs;
        if dirs > before {
            dirs
        } else {
            before
        }
    }
}

/// The number of directions of the atlas: the largest number of directions
/// of a packed state, and 1 where no state is packed.
pub open spec fn spec_most_directions(icon: IconView, order: Seq<int>) -> nat {
    if order.len() == 0 {
        1
    } else {
        spec_max_dirs(icon, order, order.len())
    }
}

/// The largest number of frames among the first `count` states of an
/// order; 0 where there is none.
pub open spec fn spec_max_frames(icon: IconView, order: Seq<int>, count: nat) -> nat
    decreases count,
{
    if count == 0 {
        0
    } else {
        let before = spec_max_frames(icon, order, (count - 1) as nat);
        let frames = icon.states[order[count - 1]].frames;
        if frames > before {
            frames
        } else {
            before
        }
    }
}

/// The number of rows of the atlas: the largest number of frames of a
/// packed state, and 1 where no state is packed.
pub open spec fn spec_longest_frame(icon: IconView, order: Seq<int>) -> nat {
    if order.len() == 0 {
        1
    } else {
        spec_max_frames(icon, order, order.len())
    }
}

/// The place in the icon of the state, among the first `count` of an
/// order, whose delays are those of the animation: the last of the states
/// with the most delays. -1 where none of them has delays.
pub open spec fn spec_canonical_at(icon: IconView, order: Seq<int>, count: nat) -> int
    decreases count,
{
    if count == 0 {
        -1
    } else {
        let before = spec_canonical_at(icon, order, (count - 1) as nat);
        let here = order[count - 1];
        match icon.states[here].delay {
            None => before,
            Some(delays) => if before >= 0 && icon.states[before].delay.unwrap().len()
                > delays.len() {
                before
            } else {
                here
            },
        }
    }
}

/// The delays of the animation of the atlas, if a packed state has delays.
pub open spec fn spec_canonical(icon: IconView, order: Seq<int>) -> Option<Seq<nat>> {
    let at = spec_canonical_at(icon, order, order.len());
    if at >= 0 {
        icon.states[at].delay
    } else {
        None
    }
}

/// Whether the atlas runs backwards after it ran forwards: as the first
/// packed state does.
pub open spec fn spec_rewind(icon: IconView, order: Seq<int>) -> bool {
    order.len() > 0 && icon.states[order[0]].rewind
}

proof fn lemma_canonical_at(icon: IconView, order: Seq<int>, count: nat)
    requires
        count <= order.len(),
        forall|i: int| 0 <= i < order.len() ==> 0 <= #[trigger] order[i] < icon.states.len(),
    ensures
        -1 <= spec_canonical_at(icon, order, count) < icon.states.len(),
        spec_canonical_at(icon, order, count) >= 0 ==> icon.states[spec_canonical_at(
            icon,
            order,
            count,
        )].delay is Some && exists|i: int|
            0 <= i < count && order[i] == spec_canonical_at(icon, order, count),
    decreases count,
{
    if count > 0 {
        lemma_canonical_at(icon, order, (count - 1) as nat);
        let at = spec_canonical_at(icon, order, count);
        if at >= 0 {
            if at == order[count - 1] {
                assert(order[count - 1] == at);
            } else {
                let i = choose|i: int|
                    0 <= i < count - 1 && order[i] == spec_canonical_at(
                        icon,
                        order,
                        (count - 1) as nat,
                    );
                assert(order[i] == at);
            }
        }
    }
}

proof fn lemma_max_frames(icon: IconView, order: Seq<int>, count: nat, i: int)
    requires
        0 <= i < count <= order.len(),
    ensures
        icon.states[order[i]].frames <= spec_max_frames(icon, order, count),
        icon.states[order[i]].dirs <= spec_max_dirs(icon, order, count),
    decreases count,
{
    if i < count - 1 {
        lemma_max_frames(icon, order, (count - 1) as nat, i);
    }
}

/// What is left of a delay, and how far into the delays of the animation
/// one has come, when delays of the animation are taken off it from
/// `index` on for as long as something is left.
pub open spec fn consume(canonical: Seq<nat>, index: int, rest: int) -> (int, int)
    decreases canonical.len() - index,
{
    if rest > 0 && 0 <= index < canonical.len() {
        consume(canonical, index + 1, rest - canonical[index])
    } else {
        (index, rest)
    }
}

/// Whether what is left of a delay is half a tick or more off nothing.
pub open spec fn misaligned(rest: int) -> bool {
    2 * rest >= DELAY_UNITS_PER_TICK || 2 * rest <= -(DELAY_UNITS_PER_TICK as int)
}

/// How the first `count` frames of a state are laid out on the rows of the
/// atlas: the frame that each row shows, the number of delays of the
/// animation that are used up, and whether a frame ended half a tick or
/// more off the end of a delay of the animation. Each frame is shown for as
/// many rows as delays of the animation go into its delay. The layout ends
/// at the first frame that ends off.
pub open spec fn plan(frame_delays: Seq<nat>, canonical: Seq<nat>, count: nat) -> (
    Seq<int>,
    int,
    bool,
)
    decreases count,
{
    if count == 0 {
        (Seq::empty(), 0, false)
    } else {
        let before = plan(frame_delays, canonical, (count - 1) as nat);
        if before.2 {
            before
        } else {
            let end = consume(canonical, before.1, frame_delays[count - 1] as int);
            (
                before.0 + Seq::new((end.0 - before.1) as nat, |i: int| count - 1),
                end.0,
                misaligned(end.1),
            )
        }
    }
}

proof fn lemma_consume(canonical: Seq<nat>, index: int, rest: int)
    requires
        0 <= index <= canonical.len(),
    ensures
        index <= consume(canonical, index, rest).0 <= canonical.len(),
        consume(canonical, index, rest).1 <= rest || rest <= 0,
    decreases canonical.len() - index,
{
    if rest > 0 && index < canonical.len() {
        lemma_consume(canonical, index + 1, rest - canonical[index]);
    }
}

proof fn lemma_plan(frame_delays: Seq<nat>, canonical: Seq<nat>, count: nat)
    ensures
        0 <= plan(frame_delays, canonical, count).1 <= canonical.len(),
        plan(frame_delays, canonical, count).0.len() == plan(frame_delays, canonical, count).1,
        forall|y: int|
            0 <= y < plan(frame_delays, canonical, count).0.len() ==> 0 <= #[trigger] plan(
                frame_delays,
                canonical,
                count,
            ).0[y] < count,
    decreases count,
{
    if count > 0 {
        lemma_plan(frame_delays, canonical, (count - 1) as nat);
        let before = plan(frame_delays, canonical, (count - 1) as nat);
        if !before.2 {
            lemma_consume(canonical, before.1, frame_delays[count - 1] as int);
        }
    }
}

/// The delays of a list as 64-bit numbers.
pub open spec fn wide_values(delays: Seq<u64>) -> Seq<nat> {
    delays.map_values(|delay: u64| delay as nat)
}

/// Lays the first `count` frames of a state out on the rows of the atlas:
/// the frame that each row shows, or `None` where a frame ends half a tick
/// or more off the end of a delay of the animation.
#[verifier::rlimit(40)]
fn plan_rows(frame_delays: &Vec<u64>, canonical: &Vec<u32>, count: usize) -> (r: Option<Vec<usize>>)
    requires
        count <= frame_delays@.len(),
    ensures
        match r {
            Some(rows) => {
                let planned = plan(
                    wide_values(frame_delays@),
                    delay_values(canonical@),
                    count as nat,
                );
                !planned.2 && places(rows@) == planned.0
            },
            None => plan(wide_values(frame_delays@), delay_values(canonical@), count as nat).2,
        },
{
    let ghost delays = wide_values(frame_delays@);
    let ghost steps = delay_values(canonical@);
    let mut rows: Vec<usize> = Vec::new();
    let mut index: usize = 0;
    let mut j: usize = 0;
    while j < count
        invariant
            j <= count <= frame_delays@.len(),
            delays == wide_values(frame_delays@),
            steps == delay_values(canonical@),
            index <= canonical@.len(),
            plan(delays, steps, j as nat) == (places(rows@), index as int, false),
        decreases count - j,
    {
        let ghost before = places(rows@);
        let ghost start = index;
        let mut rest: i128 = frame_delays[j] as i128;
        while rest > 0 && index < canonical.len()
            invariant
                j < count,
                start <= index <= canonical@.len(),
                steps == delay_values(canonical@),
                -(u32::MAX as int) <= rest <= u64::MAX,
                consume(steps, start as int, delays[j as int] as int) == consume(
                    steps,
                    index as int,
                    rest as int,
                ),
                places(rows@) == before + Seq::new((index - start) as nat, |i: int| j as int),
            decreases canonical@.len() - index,
        {
            let ghost so_far = places(rows@);
            rest = rest - canonical[index] as i128;
            index += 1;
            rows.push(j);
            assert(places(rows@) =~= so_far.push(j as int));
            assert(places(rows@) =~= before + Seq::new((index - start) as nat, |i: int| j as int));
        }
        if 2 * rest >= DELAY_UNITS_PER_TICK as i128 || 2 * rest <= -(DELAY_UNITS_PER_TICK as i128) {
            proof {
                lemma_plan_stays_broken(delays, steps, (j + 1) as nat, count as nat);
            }
            return None;
        }
        j += 1;
    }
    Some(rows)
}

/// A layout that ended at a frame stays as it is for more frames.
proof fn lemma_plan_stays_broken(frame_delays: Seq<nat>, canonical: Seq<nat>, at: nat, count: nat)
    requires
        at <= count,
        plan(frame_delays, canonical, at).2,
    ensures
        plan(frame_delays, canonical, count) == plan(frame_delays, canonical, at),
    decreases count,
{
    if at < count {
        lemma_plan_stays_broken(frame_delays, canonical, at, (count - 1) as nat);
    }
}

/// The delays of the frames of a state as they are laid out: its own
/// delays, or where it has none one delay as long as the whole animation.
pub open spec fn spec_frame_delays(state: IconStateView, canonical: Seq<nat>) -> Seq<nat> {
    match state.delay {
        Some(delays) => delays,
        None => seq![delays_total(canonical)],
    }
}

/// The number of frames of a state that are laid out: those that have a
/// delay.
pub open spec fn spec_pairs(state: IconStateView, canonical: Seq<nat>) -> nat {
    let delays = spec_frame_delays(state, canonical).len();
    if delays <= state.frames {
        delays
    } else {
        state.frames
    }
}

/// The frame of a state that each row of the atlas shows, or `None` where
/// the delays of the state do not fit the delays of the animation. A state
/// with the delays of the animation, or in an atlas without animation,
/// shows its frames row by row. The frames of any other state are laid out
/// along the delays of the animation.
pub open spec fn spec_rows(state: IconStateView, canonical: Option<Seq<nat>>) -> Option<Seq<int>> {
    if canonical is Some && state.delay != canonical {
        let planned = plan(
            spec_frame_delays(state, canonical.unwrap()),
            canonical.unwrap(),
            spec_pairs(state, canonical.unwrap()),
        );
        if planned.2 {
            None
        } else {
            Some(planned.0)
        }
    } else {
        Some(Seq::new(state.frames, |y: int| y))
    }
}

/// The rows of a state, and none where its delays do not fit.
pub open spec fn spec_rows_or_none(state: IconStateView, canonical: Option<Seq<nat>>) -> Seq<int> {
    match spec_rows(state, canonical) {
        Some(rows) => rows,
        None => Seq::empty(),
    }
}

/// The states among the first `count` of an order that have another
/// number of directions than the atlas, by their place in the icon.
pub open spec fn spec_dir_problems(icon: IconView, order: Seq<int>, count: nat) -> Seq<int>
    decreases count,
{
    if count == 0 {
        Seq::empty()
    } else {
        let before = spec_dir_problems(icon, order, (count - 1) as nat);
        if icon.states[order[count - 1]].dirs != spec_most_directions(icon, order) {
            before.push(order[count - 1])
        } else {
            before
        }
    }
}

/// The states among the first `count` of an order that have the number of
/// directions of the atlas and delays that do not fit the delays of the
/// animation, by their place in the icon.
pub open spec fn spec_delay_problems(icon: IconView, order: Seq<int>, count: nat) -> Seq<int>
    decreases count,
{
    if count == 0 {
        Seq::empty()
    } else {
        let before = spec_delay_problems(icon, order, (count - 1) as nat);
        let state = icon.states[order[count - 1]];
        if state.dirs == spec_most_directions(icon, order) && spec_rows(
            state,
            spec_canonical(icon, order),
        ) is None {
            before.push(order[count - 1])
        } else {
            before
        }
    }
}

proof fn lemma_delay_values_equal(a: Seq<u32>, b: Seq<u32>)
    ensures
        delay_values(a) == delay_values(b) <==> a == b,
{
    if delay_values(a) == delay_values(b) {
        assert(a.len() == delay_values(a).len());
        assert(b.len() == delay_values(b).len());
        assert forall|i: int| 0 <= i < a.len() implies a[i] == b[i] by {
            assert(delay_values(a)[i] == a[i] as nat);
            assert(delay_values(b)[i] == b[i] as nat);
        }
        assert(a =~= b);
    }
}

/// The delays of an animation together.
fn total_delay(canonical: &Vec<u32>) -> (r: u64)
    requires
        canonical@.len() <= u32::MAX,
    ensures
        r == delays_total(delay_values(canonical@)),
{
    let mut r: u64 = 0;
    let mut i: usize = 0;
    while i < canonical.len()
        invariant
            i <= canonical@.len() <= u32::MAX,
            r == delays_total(delay_values(canonical@.take(i as int))),
            r <= i * u32::MAX,
        decreases canonical@.len() - i,
    {
        proof {
            let next = canonical@.take(i + 1);
            assert(delay_values(next).drop_last() =~= delay_values(canonical@.take(i as int)));
            assert((i + 1) * u32::MAX == i * u32::MAX + u32::MAX) by (nonlinear_arith);
            assert((i + 1) * u32::MAX <= u32::MAX * u32::MAX) by (nonlinear_arith)
                requires
                    i + 1 <= u32::MAX,
            ;
        }
        r = r + canonical[i] as u64;
        i += 1;
    }
    assert(canonical@.take(i as int) =~= canonical@);
    r
}

/// The frame of a state that each row of the atlas shows.
#[verifier::rlimit(40)]
fn state_rows(state: &IconState, canonical: Option<&Vec<u32>>) -> (r: Option<Vec<usize>>)
    requires
        state@.wf(),
        canonical matches Some(steps) ==> steps@.len() <= u32::MAX,
    ensures
        match r {
            Some(rows) => spec_rows(
                state@,
                match canonical {
                    Some(steps) => Some(delay_values(steps@)),
                    None => None,
                },
            ) == Some(places(rows@)),
            None => spec_rows(
                state@,
                match canonical {
                    Some(steps) => Some(delay_values(steps@)),
                    None => None,
                },
            ) is None,
        },
{
    let fitting: bool = match canonical {
        None => true,
        Some(steps) => match &state.delay {
            Some(delays) => {
                proof {
                    lemma_delay_values_equal(delays@, steps@);
                }
                let same = *delays == *steps;
                proof {
                    if same {
                        assert(delays@ =~= steps@);
                    }
                }
                same
            },
            None => false,
        },
    };
    if fitting {
        let mut rows: Vec<usize> = Vec::new();
        let mut y: usize = 0;
        while y < state.frames as usize
            invariant
                y <= state.frames,
                places(rows@) == Seq::new(y as nat, |i: int| i),
            decreases state.frames - y,
        {
            let ghost so_far = places(rows@);
            rows.push(y);
            assert(places(rows@) =~= so_far.push(y as int));
            assert(places(rows@) =~= Seq::new((y + 1) as nat, |i: int| i));
            y += 1;
        }
        return Some(rows);
    }
    let steps = canonical.unwrap();
    let mut frame_delays: Vec<u64> = Vec::new();
    match &state.delay {
        Some(delays) => {
            let mut i: usize = 0;
            while i < delays.len()
                invariant
                    i <= delays@.len(),
                    wide_values(frame_delays@) == delay_values(delays@).take(i as int),
                decreases delays@.len() - i,
            {
                let ghost so_far = wide_values(frame_delays@);
                frame_delays.push(delays[i] as u64);
                assert(wide_values(frame_delays@) =~= so_far.push(delays@[i as int] as nat));
                assert(wide_values(frame_delays@) =~= delay_values(delays@).take(i + 1));
                i += 1;
            }
            assert(delay_values(delays@).take(i as int) =~= delay_values(delays@));
        },
        None => {
            frame_delays.push(total_delay(steps));
            assert(wide_values(frame_delays@) =~= seq![delays_total(delay_values(steps@))]);
        },
    }
    let pairs: usize = if frame_delays.len() as u64 <= state.frames as u64 {
        frame_delays.len()
    } else {
        state.frames as usize
    };
    plan_rows(&frame_delays, steps, pairs)
}

/// Whether `order` lists places of states of an icon.
pub open spec fn in_range(order: Seq<int>, icon: IconView) -> bool {
    forall|i: int| 0 <= i < order.len() ==> 0 <= #[trigger] order[i] < icon.states.len()
}

/// The number of directions and of rows of the atlas, the place of the
/// state whose delays are those of the animation, and whether the atlas
/// runs backwards.
#[verifier::rlimit(40)]
fn summarize(icon: &Icon, order: &Vec<usize>) -> (r: (u8, u32, Option<usize>, bool))
    requires
        in_range(places(order@), icon@),
    ensures
        r.0 == spec_most_directions(icon@, places(order@)),
        r.1 == spec_longest_frame(icon@, places(order@)),
        match r.2 {
            Some(at) => at == spec_canonical_at(icon@, places(order@), order@.len()) && at
                < icon@.states.len() && icon.states@[at as int].delay is Some,
            None => spec_canonical_at(icon@, places(order@), order@.len()) == -1,
        },
        r.3 == spec_rewind(icon@, places(order@)),
{
    let ghost listed = places(order@);
    if order.len() == 0 {
        return (1, 1, None, false);
    }
    let mut most_directions: u8 = 0;
    let mut longest_frame: u32 = 0;
    let mut canonical_at: Option<usize> = None;
    let mut x: usize = 0;
    while x < order.len()
        invariant
            x <= order@.len(),
            listed == places(order@),
            in_range(listed, icon@),
            most_directions == spec_max_dirs(icon@, listed, x as nat),
            longest_frame == spec_max_frames(icon@, listed, x as nat),
            match canonical_at {
                Some(at) => at == spec_canonical_at(icon@, listed, x as nat) && at
                    < icon@.states.len() && icon.states@[at as int].delay is Some,
                None => spec_canonical_at(icon@, listed, x as nat) == -1,
            },
        decreases order@.len() - x,
    {
        assert(listed[x as int] == order@[x as int]);
        let place: usize = order[x];
        assert(icon@.states[place as int] == icon.states@[place as int]@);
        let state = &icon.states[place];
        if state.dirs > most_directions {
            most_directions = state.dirs;
        }
        if state.frames > longest_frame {
            longest_frame = state.frames;
        }
        match &state.delay {
            Some(delays) => {
                let keep: bool = match canonical_at {
                    Some(at) => {
                        assert(icon@.states[at as int] == icon.states@[at as int]@);
                        match &icon.states[at].delay {
                            Some(longest) => longest.len() > delays.len(),
                            None => false,
                        }
                    },
                    None => false,
                };
                if !keep {
                    canonical_at = Some(place);
                }
            },
            None => {},
        }
        x += 1;
    }
    assert(listed[0] == order@[0]);
    assert(icon@.states[order@[0] as int] == icon.states@[order@[0] as int]@);
    let rewind: bool = icon.states[order[0]].rewind;
    (most_directions, longest_frame, canonical_at, rewind)
}

/// Whether `problems` names the states at the given places with their
/// delays.
pub open spec fn is_delay_problem_list(
    problems: Seq<InconsistentDelay>,
    icon: IconView,
    at: Seq<int>,
) -> bool {
    &&& problems.len() == at.len()
    &&& forall|k: int|
        0 <= k < problems.len() ==> {
            &&& (#[trigger] problems[k]).state@ == spec_suffixes(icon)[at[k]]
            &&& delay_values(problems[k].delays@) == match icon.states[at[k]].delay {
                Some(delays) => delays,
                None => Seq::empty(),
            }
        }
}

/// Whether `problems` names the states at the given places with their
/// numbers of directions.
pub open spec fn is_dir_problem_list(
    problems: Seq<InconsistentDirs>,
    icon: IconView,
    at: Seq<int>,
) -> bool {
    &&& problems.len() == at.len()
    &&& forall|k: int|
        0 <= k < problems.len() ==> {
            &&& (#[trigger] problems[k]).state@ == spec_suffixes(icon)[at[k]]
            &&& problems[k].dirs == icon.states[at[k]].dirs
        }
}

/// A copy of a list of delays.
fn copy_delays(delays: &Vec<u32>) -> (r: Vec<u32>)
    ensures
        r@ == delays@,
{
    let mut r: Vec<u32> = Vec::new();
    let mut i: usize = 0;
    while i < delays.len()
        invariant
            i <= delays@.len(),
            r@ == delays@.take(i as int),
        decreases delays@.len() - i,
    {
        r.push(delays[i]);
        assert(r@ =~= delays@.take(i + 1));
        i += 1;
    }
    assert(delays@.take(i as int) =~= delays@);
    r
}

/// The states at the given places with their delays.
fn delay_problem_list(icon: &Icon, names: &Vec<(bool, String, String)>, at: &Vec<usize>) -> (r: Vec<
    InconsistentDelay,
>)
    requires
        is_split_names(names@, icon@),
        in_range(places(at@), icon@),
    ensures
        is_delay_problem_list(r@, icon@, places(at@)),
{
    let mut r: Vec<InconsistentDelay> = Vec::new();
    let mut k: usize = 0;
    while k < at.len()
        invariant
            k <= at@.len(),
            is_split_names(names@, icon@),
            in_range(places(at@), icon@),
            r@.len() == k,
            forall|j: int|
                0 <= j < k ==> {
                    &&& (#[trigger] r@[j]).state@ == spec_suffixes(icon@)[places(at@)[j]]
                    &&& delay_values(r@[j].delays@) == match icon@.states[places(
                        at@,
                    )[j]].delay {
                        Some(delays) => delays,
                        None => Seq::empty(),
                    }
                },
        decreases at@.len() - k,
    {
        assert(places(at@)[k as int] == at@[k as int]);
        let place: usize = at[k];
        assert(icon@.states[place as int] == icon.states@[place as int]@);
        let delays: Vec<u32> = match &icon.states[place].delay {
            Some(delays) => copy_delays(delays),
            None => Vec::new(),
        };
        assert(delay_values(delays@) =~= match icon@.states[place as int].delay {
            Some(delays) => delays,
            None => Seq::empty(),
        });
        r.push(InconsistentDelay { state: names[place].2.as_str().to_owned(), delays });
        k += 1;
    }
    r
}

/// The states at the given places with their numbers of directions.
fn dir_problem_list(icon: &Icon, names: &Vec<(bool, String, String)>, at: &Vec<usize>) -> (r: Vec<
    InconsistentDirs,
>)
    requires
        is_split_names(names@, icon@),
        in_range(places(at@), icon@),
    ensures
        is_dir_problem_list(r@, icon@, places(at@)),
{
    let mut r: Vec<InconsistentDirs> = Vec::new();
    let mut k: usize = 0;
    while k < at.len()
        invariant
            k <= at@.len(),
            is_split_names(names@, icon@),
            in_range(places(at@), icon@),
            r@.len() == k,
            forall|j: int|
                0 <= j < k ==> {
                    &&& (#[trigger] r@[j]).state@ == spec_suffixes(icon@)[places(at@)[j]]
                    &&& r@[j].dirs == icon@.states[places(at@)[j]].dirs
                },
        decreases at@.len() - k,
    {
        assert(places(at@)[k as int] == at@[k as int]);
        let place: usize = at[k];
        assert(icon@.states[place as int] == icon.states@[place as int]@);
        r.push(
            InconsistentDirs {
                state: names[place].2.as_str().to_owned(),
                dirs: icon.states[place].dirs,
            },
        );
        k += 1;
    }
    r
}

/// Whether `all_rows` lists the rows of each state of an order.
pub open spec fn is_all_rows(
    all_rows: Seq<Vec<usize>>,
    icon: IconView,
    order: Seq<int>,
    count: int,
) -> bool {
    &&& all_rows.len() == count
    &&& forall|x: int|
        0 <= x < count ==> places((#[trigger] all_rows[x])@) == spec_rows_or_none(
            icon.states[order[x]],
            spec_canonical(icon, order),
        )
}

/// The rows of each state of an order, the states whose delays do not fit
/// and the states with another number of directions than the atlas.
#[verifier::rlimit(40)]
fn collect_rows(icon: &Icon, order: &Vec<usize>, most_directions: u8, canonical_at: Option<usize>) -> (r:
    (Vec<Vec<usize>>, Vec<usize>, Vec<usize>))
    requires
        icon@.wf(),
        in_range(places(order@), icon@),
        most_directions == spec_most_directions(icon@, places(order@)),
        match canonical_at {
            Some(at) => at == spec_canonical_at(icon@, places(order@), order@.len()) && at
                < icon@.states.len() && icon.states@[at as int].delay is Some,
            None => spec_canonical_at(icon@, places(order@), order@.len()) == -1,
        },
    ensures
        is_all_rows(r.0@, icon@, places(order@), order@.len() as int),
        places(r.1@) == spec_delay_problems(icon@, places(order@), order@.len()),
        places(r.2@) == spec_dir_problems(icon@, places(order@), order@.len()),
        in_range(places(r.1@), icon@),
        in_range(places(r.2@), icon@),
{
    let ghost listed = places(order@);
    let ghost steps = spec_canonical(icon@, listed);
    let canonical: Option<&Vec<u32>> = match canonical_at {
        Some(at) => {
            assert(icon@.states[at as int] == icon.states@[at as int]@);
            assert(icon@.states[at as int].wf());
            match &icon.states[at].delay {
                Some(delays) => Some(delays),
                None => None,
            }
        },
        None => None,
    };
    assert(steps == match canonical {
        Some(delays) => Some(delay_values(delays@)),
        None => None,
    });
    let mut all_rows: Vec<Vec<usize>> = Vec::new();
    let mut delay_problems: Vec<usize> = Vec::new();
    let mut dir_problems: Vec<usize> = Vec::new();
    let mut x: usize = 0;
    while x < order.len()
        invariant
            x <= order@.len(),
            icon@.wf(),
            listed == places(order@),
            in_range(listed, icon@),
            most_directions == spec_most_directions(icon@, listed),
            steps == spec_canonical(icon@, listed),
            steps == match canonical {
                Some(delays) => Some(delay_values(delays@)),
                None => None,
            },
            canonical matches Some(delays) ==> delays@.len() <= u32::MAX,
            is_all_rows(all_rows@, icon@, listed, x as int),
            places(delay_problems@) == spec_delay_problems(icon@, listed, x as nat),
            places(dir_problems@) == spec_dir_problems(icon@, listed, x as nat),
            in_range(places(delay_problems@), icon@),
            in_range(places(dir_problems@), icon@),
        decreases order@.len() - x,
    {
        assert(listed[x as int] == order@[x as int]);
        let place: usize = order[x];
        assert(icon@.states[place as int] == icon.states@[place as int]@);
        assert(icon@.states[place as int].wf());
        let state = &icon.states[place];
        let ghost delay_before = places(delay_problems@);
        let ghost dir_before = places(dir_problems@);
        let rows = state_rows(state, canonical);
        if state.dirs != most_directions {
            dir_problems.push(place);
            assert(places(dir_problems@) =~= dir_before.push(place as int));
        } else if rows.is_none() {
            delay_problems.push(place);
            assert(places(delay_problems@) =~= delay_before.push(place as int));
        }
        let kept: Vec<usize> = match rows {
            Some(rows) => rows,
            None => Vec::new(),
        };
        assert(places(kept@) =~= spec_rows_or_none(icon@.states[place as int], steps));
        all_rows.push(kept);
        x += 1;
    }
    (all_rows, delay_problems, dir_problems)
}

impl BitmaskSliceReconstruct {
    /// The width of the atlas: a tile for each packed state and direction.
    pub open spec fn spec_atlas_width(&self, icon: IconView) -> nat {
        icon.width * self.spec_order(icon).len() * spec_most_directions(
            icon,
            self.spec_order(icon),
        )
    }

    /// The height of the atlas: a tile for each row.
    pub open spec fn spec_atlas_height(&self, icon: IconView) -> nat {
        icon.height * spec_longest_frame(icon, self.spec_order(icon))
    }

    /// What packing an icon asks of it: that it is well formed, and that
    /// the atlas is no wider and no higher than 32 bits can say and no
    /// larger than the largest allocation.
    pub open spec fn spec_can_reconstruct(&self, icon: IconView) -> bool {
        &&& icon.wf()
        &&& icon.width <= u32::MAX
        &&& icon.height <= u32::MAX
        &&& self.spec_atlas_width(icon) <= u32::MAX
        &&& self.spec_atlas_height(icon) <= u32::MAX
        &&& 4 * self.spec_atlas_width(icon) * self.spec_atlas_height(icon) <= isize::MAX
    }

    /// The atlas as it stands before the image of direction `i` of row `y`
    /// of the state in column `x` is put in: a transparent canvas with the
    /// images before that one, going by column, row and direction. The
    /// image of direction `i` of row `y` of the state in column `x` stands
    /// `i` times the number of columns and `x` tiles from the left, and `y`
    /// tiles from the top.
    pub open spec fn spec_painted(&self, icon: IconView, x: int, y: int, i: int) -> RasterView
        decreases x, y, i,
    {
        let order = self.spec_order(icon);
        let most = spec_most_directions(icon, order) as int;
        let canonical = spec_canonical(icon, order);
        if x < 0 || y < 0 || i < 0 {
            RasterView::blank(0, 0)
        } else if i > 0 {
            let state = icon.states[order[x]];
            let rows = spec_rows_or_none(state, canonical);
            self.spec_painted(icon, x, y, i - 1).replaced(
                state.images[rows[y] * most + (i - 1)],
                (x * icon.width + (i - 1) * order.len() * icon.width) as nat,
                (y * icon.height) as nat,
            )
        } else if y > 0 {
            self.spec_painted(icon, x, y - 1, most)
        } else if x > 0 {
            self.spec_painted(
                icon,
                x - 1,
                spec_rows_or_none(icon.states[order[x - 1]], canonical).len() as int,
                0,
            )
        } else {
            RasterView::blank(self.spec_atlas_width(icon), self.spec_atlas_height(icon))
        }
    }

    /// The atlas: every row of every packed state, direction by direction.
    pub open spec fn spec_atlas(&self, icon: IconView) -> RasterView {
        self.spec_painted(icon, self.spec_order(icon).len() as int, 0, 0)
    }

    /// The lines that set the prefabs of the atlas: for each state that is
    /// packed as a prefab, the adjacency it stands for and its column.
    pub open spec fn spec_prefab_lines(&self) -> Seq<Seq<char>> {
        match self.bespoke {
            Some(bespoke) => seq!["[prefabs]"@] + Seq::new(
                bespoke@.len(),
                |i: int| bespoke@[i].1 + " = "@ + decimal((self.extract@.len() + i) as nat),
            ) + seq![Seq::<char>::empty()],
            None => Seq::empty(),
        }
    }

    /// The lines that carry the settings of the configuration over.
    pub open spec fn spec_set_lines(&self) -> Seq<Seq<char>> {
        match self.set {
            Some(set) => Seq::new(set@.len(), |i: int| set@[i].0 + " = "@ + set@[i].1) + seq![
                Seq::<char>::empty(),
            ],
            None => Seq::empty(),
        }
    }

    /// The line that sets the output name, where the icon has a prefix.
    pub open spec fn spec_prefix_lines(icon: IconView) -> Seq<Seq<char>> {
        match spec_output_prefix(icon) {
            Some(prefix) => seq!["output_name = \""@ + prefix + "\""@],
            None => Seq::empty(),
        }
    }

    /// The lines that set the direction strategy, where the atlas has more
    /// than one direction.
    pub open spec fn spec_strategy_lines(&self, icon: IconView) -> Seq<Seq<char>> {
        let strategy = DirectionStrategy::spec_count_to_strategy(
            spec_most_directions(icon, self.spec_order(icon)) as u8,
        ).unwrap();
        if strategy != DirectionStrategy::Standard {
            seq![
                "direction_strategy = \""@ + strategy.spec_name() + "\""@,
                Seq::<char>::empty(),
            ]
        } else {
            Seq::empty()
        }
    }

    /// The lines that set the animation, where the atlas has one: its
    /// delays, and that it rewinds where it does.
    pub open spec fn spec_animation_lines(&self, icon: IconView) -> Seq<Seq<char>> {
        let order = self.spec_order(icon);
        match spec_canonical(icon, order) {
            Some(delays) => seq![
                "[animation]"@,
                "delays = "@ + spec_text_delays(delays, Seq::empty()),
            ] + (if spec_rewind(icon, order) {
                seq!["rewind = true"@]
            } else {
                Seq::empty()
            }) + seq![Seq::<char>::empty()],
            None => Seq::empty(),
        }
    }

    /// The lines that set the size of a tile, as input and as output size,
    /// and the cut in the middle of the tile.
    pub open spec fn spec_size_lines(icon: IconView) -> Seq<Seq<char>> {
        let width = decimal(icon.width);
        let height = decimal(icon.height);
        let empty = Seq::<char>::empty();
        seq![
            "[icon_size]"@,
            "x = "@ + width,
            "y = "@ + height,
            empty,
            "[output_icon_size]"@,
            "x = "@ + width,
            "y = "@ + height,
            empty,
            "[cut_pos]"@,
            "x = "@ + decimal(icon.width / 2),
            "y = "@ + decimal(icon.height / 2),
            empty,
        ]
    }

    /// The lines of the configuration of the atlas: the output name; the
    /// settings carried over; the direction strategy; the prefabs; the
    /// animation; and the sizes.
    pub open spec fn spec_config_lines(&self, icon: IconView) -> Seq<Seq<char>> {
        BitmaskSliceReconstruct::spec_prefix_lines(icon) + self.spec_set_lines()
            + self.spec_strategy_lines(icon) + self.spec_prefab_lines()
            + self.spec_animation_lines(icon) + BitmaskSliceReconstruct::spec_size_lines(icon)
    }

    /// The configuration of the atlas as text: its lines, each but the last
    /// followed by a line break.
    pub open spec fn spec_config_text(&self, icon: IconView) -> Seq<char> {
        joined(self.spec_config_lines(icon), seq!['\n'])
    }
}

/// A line that sets a key to a value.
fn setting(key: &str, value: &str) -> (r: String)
    ensures
        r@ == key@ + " = "@ + value@,
{
    let mut r = String::from_str(key);
    r.append(" = ");
    r.append(value);
    r
}

/// A line that sets a key to a text in quotation marks.
fn quoted_setting(start: &str, value: &str) -> (r: String)
    ensures
        r@ == start@ + value@ + "\""@,
{
    let mut r = String::from_str(start);
    r.append(value);
    r.append("\"");
    r
}

/// Where there are no problems with directions, every packed state has the
/// number of directions of the atlas; where there are none with delays
/// either, every packed state has rows.
proof fn lemma_no_problems(icon: IconView, order: Seq<int>, count: nat, x: int)
    requires
        0 <= x < count <= order.len(),
        spec_dir_problems(icon, order, count).len() == 0,
        spec_delay_problems(icon, order, count).len() == 0,
    ensures
        icon.states[order[x]].dirs == spec_most_directions(icon, order),
        spec_rows(icon.states[order[x]], spec_canonical(icon, order)) is Some,
    decreases count,
{
    if x < count - 1 {
        lemma_no_problems(icon, order, (count - 1) as nat, x);
    }
}

/// The rows of a state show frames of the state, and there are no more of
/// them than the state has frames or the animation has delays.
proof fn lemma_rows_bounds(state: IconStateView, canonical: Option<Seq<nat>>)
    ensures
        forall|y: int|
            0 <= y < spec_rows_or_none(state, canonical).len() ==> 0
                <= #[trigger] spec_rows_or_none(state, canonical)[y] < state.frames,
        spec_rows_or_none(state, canonical).len() <= state.frames || (canonical is Some
            && spec_rows_or_none(state, canonical).len() <= canonical.unwrap().len()),
{
    if canonical is Some && state.delay != canonical {
        lemma_plan(
            spec_frame_delays(state, canonical.unwrap()),
            canonical.unwrap(),
            spec_pairs(state, canonical.unwrap()),
        );
    }
}

/// The delays of the animation are no more than the atlas has rows.
proof fn lemma_canonical_rows(icon: IconView, order: Seq<int>)
    requires
        icon.wf(),
        in_range(order, icon),
    ensures
        spec_canonical(icon, order) matches Some(delays) ==> delays.len() <= spec_longest_frame(
            icon,
            order,
        ),
{
    lemma_canonical_at(icon, order, order.len());
    let at = spec_canonical_at(icon, order, order.len());
    if at >= 0 {
        let i = choose|i: int| 0 <= i < order.len() && order[i] == at;
        lemma_max_frames(icon, order, order.len(), i);
        assert(icon.states[at].wf());
    }
}

/// An image of the atlas lies within the atlas.
proof fn lemma_tile_fits(x: int, columns: int, i: int, directions: int, size: int)
    requires
        0 <= x < columns,
        0 <= i < directions,
        0 <= size,
    ensures
        0 <= x * size,
        0 <= i * columns * size,
        x * size + i * columns * size + size <= size * columns * directions,
{
    assert(0 <= x * size && x * size + size <= columns * size) by (nonlinear_arith)
        requires
            0 <= x < columns,
            0 <= size,
    ;
    assert(0 <= i * columns * size && i * columns * size + columns * size <= size * columns
        * directions) by (nonlinear_arith)
        requires
            0 <= i < directions,
            0 <= columns * size,
    ;
}

/// A row of the atlas lies within the atlas.
proof fn lemma_row_fits(y: int, rows: int, size: int)
    requires
        0 <= y < rows,
        0 <= size,
    ensures
        0 <= y * size,
        y * size + size <= size * rows,
{
    assert(0 <= y * size && y * size + size <= size * rows) by (nonlinear_arith)
        requires
            0 <= y < rows,
            0 <= size,
    ;
}

/// An image of a frame of a state is one of its images.
proof fn lemma_image_index(frame: int, frames: int, i: int, dirs: int)
    requires
        0 <= frame < frames,
        0 <= i < dirs,
    ensures
        0 <= frame * dirs + i < dirs * frames,
{
    assert(0 <= frame * dirs && frame * dirs + dirs <= dirs * frames) by (nonlinear_arith)
        requires
            0 <= frame < frames,
            0 <= dirs,
    ;
}

impl BitmaskSliceReconstruct {
    /// Paints the atlas.
    #[verifier::rlimit(40)]
    fn paint(
        &self,
        icon: &Icon,
        order: &Vec<usize>,
        all_rows: &Vec<Vec<usize>>,
        most_directions: u8,
        longest_frame: u32,
    ) -> (r: Raster)
        requires
            self.spec_can_reconstruct(icon@),
            places(order@) == self.spec_order(icon@),
            in_range(places(order@), icon@),
            is_all_rows(all_rows@, icon@, places(order@), order@.len() as int),
            most_directions == spec_most_directions(icon@, places(order@)),
            longest_frame == spec_longest_frame(icon@, places(order@)),
            spec_dir_problems(icon@, places(order@), order@.len()).len() == 0,
            spec_delay_problems(icon@, places(order@), order@.len()).len() == 0,
        ensures
            r@ == self.spec_atlas(icon@),
    {
        let ghost listed = places(order@);
        let ghost steps = spec_canonical(icon@, listed);
        let ghost width = self.spec_atlas_width(icon@);
        let ghost height = self.spec_atlas_height(icon@);
        let columns: usize = order.len();
        proof {
            lemma_canonical_rows(icon@, listed);
            assert(icon@.width * columns * most_directions == icon@.width * (columns
                * most_directions)) by (nonlinear_arith);
            assert(0 <= (icon@.width as int) * (columns as int) * (most_directions as int))
                by (nonlinear_arith)
                requires
                    0 <= icon@.width,
                    0 <= columns,
                    0 <= most_directions,
            ;
        }
        assert(0 <= (icon.width as int) * (columns as int) <= 0xffff_ffff
            * 0xffff_ffff_ffff_ffff) by (nonlinear_arith)
            requires
                0 <= icon.width <= 0xffff_ffff,
                0 <= columns <= 0xffff_ffff_ffff_ffff,
        ;
        let wide: u128 = (icon.width as u128) * (columns as u128);
        assert(wide * most_directions == width) by (nonlinear_arith)
            requires
                wide == icon@.width * columns,
                width == icon@.width * columns * most_directions,
        ;
        let stride: u128 = wide;
        let atlas_width: u32 = (wide * (most_directions as u128)) as u32;
        let atlas_height: u32 = icon.height * longest_frame;
        let mut canvas = Raster::blank(atlas_width, atlas_height);
        let mut x: usize = 0;
        while x < columns
            invariant
                x <= columns == order@.len(),
                self.spec_can_reconstruct(icon@),
                listed == places(order@),
                listed == self.spec_order(icon@),
                in_range(listed, icon@),
                steps == spec_canonical(icon@, listed),
                steps matches Some(delays) ==> delays.len() <= longest_frame,
                is_all_rows(all_rows@, icon@, listed, columns as int),
                most_directions == spec_most_directions(icon@, listed),
                longest_frame == spec_longest_frame(icon@, listed),
                spec_dir_problems(icon@, listed, columns as nat).len() == 0,
                spec_delay_problems(icon@, listed, columns as nat).len() == 0,
                width == self.spec_atlas_width(icon@),
                height == self.spec_atlas_height(icon@),
                width == icon@.width * columns * most_directions,
                height == icon@.height * longest_frame,
                width <= u32::MAX,
                height <= u32::MAX,
                icon.width == icon@.width,
                icon.height == icon@.height,
                stride == icon@.width * columns,
                canvas@.width == width,
                canvas@.height == height,
                canvas@ == self.spec_painted(icon@, x as int, 0, 0),
            decreases columns - x,
        {
            assert(listed[x as int] == order@[x as int]);
            let place: usize = order[x];
            assert(icon@.states[place as int] == icon.states@[place as int]@);
            let state = &icon.states[place];
            let rows = &all_rows[x];
            proof {
                lemma_no_problems(icon@, listed, columns as nat, x as int);
                lemma_rows_bounds(state@, steps);
                lemma_max_frames(icon@, listed, columns as nat, x as int);
                assert(state@.wf());
                assert(state@.sized(icon@.width, icon@.height));
            }
            let ghost planned = spec_rows_or_none(state@, steps);
            assert(places(rows@) == planned);
            let image_count: usize = state.images.len();
            let mut y: usize = 0;
            while y < rows.len()
                invariant
                    y <= rows@.len(),
                    x < columns == order@.len(),
                    self.spec_can_reconstruct(icon@),
                    listed == self.spec_order(icon@),
                    listed.len() == columns,
                    place == listed[x as int],
                    place < icon@.states.len(),
                    *state == icon.states@[place as int],
                    state@ == icon@.states[place as int],
                    state@.wf(),
                    state@.sized(icon@.width, icon@.height),
                    state@.dirs == most_directions,
                    state@.images.len() == image_count,
                    steps == spec_canonical(icon@, listed),
                    planned == spec_rows_or_none(state@, steps),
                    places(rows@) == planned,
                    forall|k: int| 0 <= k < planned.len() ==> 0 <= #[trigger] planned[k] < state@.frames,
                    planned.len() <= longest_frame,
                    most_directions == spec_most_directions(icon@, listed),
                    longest_frame == spec_longest_frame(icon@, listed),
                    width == self.spec_atlas_width(icon@),
                    height == self.spec_atlas_height(icon@),
                    width == icon@.width * columns * most_directions,
                    height == icon@.height * longest_frame,
                    width <= u32::MAX,
                    height <= u32::MAX,
                    icon.width == icon@.width,
                    icon.height == icon@.height,
                    stride == icon@.width * columns,
                    canvas@.width == width,
                    canvas@.height == height,
                    canvas@ == self.spec_painted(icon@, x as int, y as int, 0),
                decreases rows@.len() - y,
            {
                assert(planned[y as int] == rows@[y as int]);
                let frame: usize = rows[y];
                proof {
                    lemma_row_fits(y as int, longest_frame as int, icon@.height as int);
                }
                let y_pos: u32 = ((y as u128) * (icon.height as u128)) as u32;
                let mut i: usize = 0;
                while i < most_directions as usize
                    invariant
                        i <= most_directions,
                        y < rows@.len(),
                        x < columns == order@.len(),
                        self.spec_can_reconstruct(icon@),
                        listed == self.spec_order(icon@),
                        listed.len() == columns,
                        place == listed[x as int],
                        state@ == icon@.states[place as int],
                        state@.wf(),
                        state@.sized(icon@.width, icon@.height),
                        state@.dirs == most_directions,
                        state@.images.len() == image_count,
                        steps == spec_canonical(icon@, listed),
                        planned == spec_rows_or_none(state@, steps),
                        frame == planned[y as int],
                        0 <= frame < state@.frames,
                        most_directions == spec_most_directions(icon@, listed),
                        y_pos == y * icon@.height,
                        y_pos + icon@.height <= height,
                        width == self.spec_atlas_width(icon@),
                        height == self.spec_atlas_height(icon@),
                        width == icon@.width * columns * most_directions,
                        width <= u32::MAX,
                        icon.width == icon@.width,
                        icon.height == icon@.height,
                        stride == icon@.width * columns,
                        canvas@.width == width,
                        canvas@.height == height,
                        canvas@ == self.spec_painted(icon@, x as int, y as int, i as int),
                    decreases most_directions - i,
                {
                    proof {
                        lemma_image_index(
                            frame as int,
                            state@.frames as int,
                            i as int,
                            most_directions as int,
                        );
                        lemma_tile_fits(
                            x as int,
                            columns as int,
                            i as int,
                            most_directions as int,
                            icon@.width as int,
                        );
                        assert((i as int) * (columns as int) * (icon@.width as int) == (i as int)
                            * ((icon@.width as int) * (columns as int))) by (nonlinear_arith);
                        assert((frame as int) * (most_directions as int) >= 0) by (nonlinear_arith)
                            requires
                                frame >= 0,
                                most_directions >= 0,
                        ;
                    }
                    let at: usize = frame * (most_directions as usize) + i;
                    let image = &state.images[at];
                    assert(image@ == state@.images[at as int]);
                    let x_pos: u32 = ((x as u128) * (icon.width as u128) + (i as u128) * stride) as u32;
                    assert(x_pos == x * icon@.width + i * listed.len() * icon@.width);
                    let ghost before = canvas@;
                    match canvas.copy_from(image, x_pos, y_pos) {
                        Ok(_) => {},
                        Err(_) => {
                            vstd::pervasive::unreached::<()>();
                        },
                    }
                    assert(canvas@ == before.replaced(
                        state@.images[planned[y as int] * most_directions + i],
                        (x * icon@.width + i * listed.len() * icon@.width) as nat,
                        (y * icon@.height) as nat,
                    ));
                    i += 1;
                }
                y += 1;
            }
            x += 1;
        }
        canvas
    }
}

/// What is said of a number of directions that no direction strategy
/// stands for.
pub open spec fn spec_no_strategy_text(directions: nat) -> Seq<char> {
    "no direction strategy has "@ + decimal(directions) + " directions"@
}

/// Says that no direction strategy stands for a number of directions.
fn no_strategy_text(directions: u8) -> (r: String)
    ensures
        r@ == spec_no_strategy_text(directions as nat),
{
    let mut r = String::from_str("no direction strategy has ");
    r.append(decimal_string(directions as u128).as_str());
    r.append(" directions");
    r
}

/// Adds lines to a list of lines.
fn add_lines(lines: &mut Vec<String>, more: Vec<String>)
    ensures
        texts(final(lines)@) == texts(old(lines)@) + texts(more@),
{
    let mut more = more;
    let ghost added = more@;
    lines.append(&mut more);
    assert(texts(lines@) =~= texts(old(lines)@) + texts(added));
}

impl BitmaskSliceReconstruct {
    /// The lines that carry the settings of the configuration over.
    fn set_lines(&self) -> (r: Vec<String>)
        ensures
            texts(r@) == self.spec_set_lines(),
    {
        let mut r: Vec<String> = Vec::new();
        match &self.set {
            Some(set) => {
                let mut i: usize = 0;
                while i < set.0.len()
                    invariant
                        i <= set.0@.len(),
                        texts(r@) == Seq::new(i as nat, |k: int| set@[k].0 + " = "@ + set@[k].1),
                    decreases set.0@.len() - i,
                {
                    let ghost so_far = texts(r@);
                    let line = setting(set.0[i].0.as_str(), set.0[i].1.as_str());
                    r.push(line);
                    assert(texts(r@) =~= so_far.push(line@));
                    assert(texts(r@) =~= Seq::new(
                        (i + 1) as nat,
                        |k: int| set@[k].0 + " = "@ + set@[k].1,
                    ));
                    i += 1;
                }
                let ghost so_far = texts(r@);
                r.push(String::new());
                assert(texts(r@) =~= so_far.push(Seq::<char>::empty()));
                assert(texts(r@) =~= self.spec_set_lines());
            },
            None => {
                assert(texts(r@) =~= self.spec_set_lines());
            },
        }
        r
    }

    /// The lines that set the prefabs of the atlas.
    fn prefab_lines(&self) -> (r: Vec<String>)
        ensures
            texts(r@) == self.spec_prefab_lines(),
    {
        let mut r: Vec<String> = Vec::new();
        match &self.bespoke {
            Some(bespoke) => {
                r.push(String::from_str("[prefabs]"));
                assert(texts(r@) =~= seq!["[prefabs]"@]);
                let start: usize = self.extract.len();
                let mut i: usize = 0;
                while i < bespoke.0.len()
                    invariant
                        i <= bespoke.0@.len(),
                        start == self.extract@.len(),
                        texts(r@) == seq!["[prefabs]"@] + Seq::new(
                            i as nat,
                            |k: int| bespoke@[k].1 + " = "@ + decimal((start + k) as nat),
                        ),
                    decreases bespoke.0@.len() - i,
                {
                    let ghost so_far = texts(r@);
                    let column = decimal_string(start as u128 + i as u128);
                    let line = setting(bespoke.0[i].1.as_str(), column.as_str());
                    r.push(line);
                    assert(texts(r@) =~= so_far.push(line@));
                    assert(texts(r@) =~= seq!["[prefabs]"@] + Seq::new(
                        (i + 1) as nat,
                        |k: int| bespoke@[k].1 + " = "@ + decimal((start + k) as nat),
                    ));
                    i += 1;
                }
                let ghost so_far = texts(r@);
                r.push(String::new());
                assert(texts(r@) =~= so_far.push(Seq::<char>::empty()));
                assert(texts(r@) =~= self.spec_prefab_lines());
            },
            None => {
                assert(texts(r@) =~= self.spec_prefab_lines());
            },
        }
        r
    }

    /// The lines that set the direction strategy.
    fn strategy_lines(&self, icon: &Icon, most_directions: u8) -> (r: Vec<String>)
        requires
            most_directions == spec_most_directions(icon@, self.spec_order(icon@)),
            most_directions == 1 || most_directions == 4 || most_directions == 8,
        ensures
            texts(r@) == self.spec_strategy_lines(icon@),
    {
        let mut r: Vec<String> = Vec::new();
        let strategy = DirectionStrategy::count_to_strategy(most_directions).unwrap();
        match strategy {
            DirectionStrategy::Standard => {},
            _ => {
                r.push(quoted_setting("direction_strategy = \"", strategy.name()));
                r.push(String::new());
            },
        }
        assert(texts(r@) =~= self.spec_strategy_lines(icon@));
        r
    }

    /// The lines that set the animation.
    fn animation_lines(&self, icon: &Icon, canonical: Option<&Vec<u32>>, rewind: bool) -> (r: Vec<
        String,
    >)
        requires
            spec_canonical(icon@, self.spec_order(icon@)) == match canonical {
                Some(delays) => Some(delay_values(delays@)),
                None => None,
            },
            rewind == spec_rewind(icon@, self.spec_order(icon@)),
        ensures
            texts(r@) == self.spec_animation_lines(icon@),
    {
        let mut r: Vec<String> = Vec::new();
        match canonical {
            Some(delays) => {
                r.push(String::from_str("[animation]"));
                let no_suffix = String::new();
                let listed = text_delays(delays, no_suffix.as_str());
                r.push(join_two("delays = ", listed.as_str()));
                if rewind {
                    r.push(String::from_str("rewind = true"));
                }
                r.push(String::new());
            },
            None => {},
        }
        assert(texts(r@) =~= self.spec_animation_lines(icon@));
        r
    }

    /// The lines of the configuration of the atlas.
    fn config_lines(
        &self,
        icon: &Icon,
        names: &Vec<(bool, String, String)>,
        most_directions: u8,
        canonical: Option<&Vec<u32>>,
        rewind: bool,
    ) -> (r: Vec<String>)
        requires
            is_split_names(names@, icon@),
            most_directions == spec_most_directions(icon@, self.spec_order(icon@)),
            most_directions == 1 || most_directions == 4 || most_directions == 8,
            spec_canonical(icon@, self.spec_order(icon@)) == match canonical {
                Some(delays) => Some(delay_values(delays@)),
                None => None,
            },
            rewind == spec_rewind(icon@, self.spec_order(icon@)),
        ensures
            texts(r@) == self.spec_config_lines(icon@),
    {
        let mut config = prefix_lines(icon, names);
        add_lines(&mut config, self.set_lines());
        add_lines(&mut config, self.strategy_lines(icon, most_directions));
        add_lines(&mut config, self.prefab_lines());
        add_lines(&mut config, self.animation_lines(icon, canonical, rewind));
        add_lines(&mut config, size_lines(icon));
        config
    }
}

/// The line that sets the output name.
fn prefix_lines(icon: &Icon, names: &Vec<(bool, String, String)>) -> (r: Vec<String>)
    requires
        is_split_names(names@, icon@),
    ensures
        texts(r@) == BitmaskSliceReconstruct::spec_prefix_lines(icon@),
{
    let mut r: Vec<String> = Vec::new();
    if names.len() > 0 && names[0].0 {
        r.push(quoted_setting("output_name = \"", names[0].1.as_str()));
    }
    assert(texts(r@) =~= BitmaskSliceReconstruct::spec_prefix_lines(icon@));
    r
}

/// The lines that set the sizes.
fn size_lines(icon: &Icon) -> (r: Vec<String>)
    ensures
        texts(r@) == BitmaskSliceReconstruct::spec_size_lines(icon@),
{
    let width = decimal_string(icon.width as u128);
    let height = decimal_string(icon.height as u128);
    let half_width = decimal_string((icon.width / 2) as u128);
    let half_height = decimal_string((icon.height / 2) as u128);
    let mut r: Vec<String> = Vec::new();
    r.push(String::from_str("[icon_size]"));
    r.push(join_two("x = ", width.as_str()));
    r.push(join_two("y = ", height.as_str()));
    r.push(String::new());
    r.push(String::from_str("[output_icon_size]"));
    r.push(join_two("x = ", width.as_str()));
    r.push(join_two("y = ", height.as_str()));
    r.push(String::new());
    r.push(String::from_str("[cut_pos]"));
    r.push(join_two("x = ", half_width.as_str()));
    r.push(join_two("y = ", half_height.as_str()));
    r.push(String::new());
    assert(texts(r@) =~= BitmaskSliceReconstruct::spec_size_lines(icon@));
    r
}

/// Two texts one after the other.
fn join_two(first: &str, second: &str) -> (r: String)
    ensures
        r@ == first@ + second@,
{
    let mut r = String::from_str(first);
    r.append(second);
    r
}

impl BitmaskSliceReconstruct {
    /// Whether `result` is what packing an icon gives. States with a
    /// hyphen in their name and another prefix than the icon are an error;
    /// if there are none, states that would be lost are; if there are
    /// none, packed states whose delays do not fit the animation are; if
    /// there are none, packed states with another number of directions
    /// than the atlas are; if there are none, a number of directions that
    /// no direction strategy stands for is. Otherwise the result is the
    /// atlas and the text of its configuration.
    pub open spec fn spec_is_reconstructed(
        &self,
        icon: IconView,
        result: Result<(Raster, String), ProcessorError>,
    ) -> bool {
        let prefix_problems = spec_prefix_problems(icon, icon.states.len());
        let dropped = self.spec_dropped(icon, icon.states.len());
        let order = self.spec_order(icon);
        let delay_problems = spec_delay_problems(icon, order, order.len());
        let dir_problems = spec_dir_problems(icon, order, order.len());
        if prefix_problems.len() > 0 {
            &&& result matches Err(
                ProcessorError::RestorationFailed(RestrorationError::InconsistentPrefixes(text)),
            )
            &&& text@ == joined(prefix_problems, ", "@)
        } else if dropped.len() > 0 {
            &&& result matches Err(
                ProcessorError::RestorationFailed(RestrorationError::DroppedStates(text)),
            )
            &&& text@ == joined(dropped, ", "@)
        } else if delay_problems.len() > 0 {
            &&& result matches Err(
                ProcessorError::RestorationFailed(
                    RestrorationError::InconsistentDelays { expected, problems },
                ),
            )
            &&& delay_values(expected@) == match spec_canonical(icon, order) {
                Some(delays) => delays,
                None => Seq::empty(),
            }
            &&& is_delay_problem_list(problems@, icon, delay_problems)
        } else if dir_problems.len() > 0 {
            &&& result matches Err(
                ProcessorError::RestorationFailed(
                    RestrorationError::InconsistentDirs { expected, problems },
                ),
            )
            &&& expected == spec_most_directions(icon, order)
            &&& is_dir_problem_list(problems@, icon, dir_problems)
        } else if DirectionStrategy::spec_count_to_strategy(
            spec_most_directions(icon, order) as u8,
        ) is None {
            &&& result matches Err(ProcessorError::ConfigError(text))
            &&& text@ == spec_no_strategy_text(spec_most_directions(icon, order))
        } else {
            &&& result matches Ok(packed)
            &&& packed.0@ == self.spec_atlas(icon)
            &&& packed.1@ == self.spec_config_text(icon)
        }
    }

    /// Whether an icon can be packed by this configuration.
    pub fn can_reconstruct(&self, icon: &Icon) -> (r: bool)
        ensures
            r == self.spec_can_reconstruct(icon@),
    {
        if !icon.is_well_formed() {
            return false;
        }
        let names = split_names(icon);
        let combined = self.combined();
        let positions = self.positions(icon, &names, &combined);
        let order = self.order(icon, &positions, combined.len());
        let ghost listed = places(order@);
        assert(in_range(listed, icon@)) by {
            assert forall|i: int| 0 <= i < listed.len() implies 0 <= #[trigger] listed[i]
                < icon@.states.len() by {
                assert(listed[i] == order@[i]);
            }
        }
        let (most_directions, longest_frame, _, _) = summarize(icon, &order);
        let columns: usize = order.len();
        assert(0 <= (icon.width as int) * (columns as int) <= 0xffff_ffff
            * 0xffff_ffff_ffff_ffff) by (nonlinear_arith)
            requires
                0 <= icon.width <= 0xffff_ffff,
                0 <= columns <= 0xffff_ffff_ffff_ffff,
        ;
        let wide: u128 = (icon.width as u128) * (columns as u128);
        assert(0 <= wide * most_directions <= wide * 255) by (nonlinear_arith)
            requires
                0 <= wide,
                0 <= most_directions <= 255,
        ;
        let width: u128 = wide * (most_directions as u128);
        assert(0 <= (icon.height as int) * (longest_frame as int) <= 0xffff_ffff * 0xffff_ffff)
            by (nonlinear_arith)
            requires
                0 <= icon.height <= 0xffff_ffff,
                0 <= longest_frame <= 0xffff_ffff,
        ;
        let height: u128 = (icon.height as u128) * (longest_frame as u128);
        assert(width == self.spec_atlas_width(icon@));
        assert(height == self.spec_atlas_height(icon@));
        if width > u32::MAX as u128 || height > u32::MAX as u128 {
            return false;
        }
        let needed = crate::raster::channel_count(width as u32, height as u32);
        assert(needed == 4 * self.spec_atlas_width(icon@) * self.spec_atlas_height(icon@));
        needed <= isize::MAX as u128
    }

    /// Packs the listed states of an icon into a flat atlas, a column for
    /// each state and direction and a row for each frame, and writes the
    /// configuration that cuts the atlas into the icon again.
    #[verifier::rlimit(40)]
    pub fn reconstruct(&self, icon: &Icon) -> (r: Result<(Raster, String), ProcessorError>)
        requires
            self.spec_can_reconstruct(icon@),
        ensures
            self.spec_is_reconstructed(icon@, r),
    {
        let names = split_names(icon);
        let problem_entries = prefix_problems(icon, &names);
        if problem_entries.len() > 0 {
            let troublesome_states = join(&problem_entries, ", ");
            return Err(
                ProcessorError::RestorationFailed(
                    RestrorationError::InconsistentPrefixes(troublesome_states),
                ),
            );
        }
        let combined = self.combined();
        let positions = self.positions(icon, &names, &combined);
        let ignored_states = self.dropped_states(icon, &names, &positions);
        if ignored_states.len() > 0 {
            let missed_suffixes = join(&ignored_states, ", ");
            return Err(
                ProcessorError::RestorationFailed(RestrorationError::DroppedStates(missed_suffixes)),
            );
        }
        let order = self.order(icon, &positions, combined.len());
        let ghost listed = places(order@);
        assert(in_range(listed, icon@)) by {
            assert forall|i: int| 0 <= i < listed.len() implies 0 <= #[trigger] listed[i]
                < icon@.states.len() by {
                assert(listed[i] == order@[i]);
            }
        }
        let (most_directions, longest_frame, canonical_at, rewind) = summarize(icon, &order);
        let (all_rows, delay_problems, dir_problems) = collect_rows(
            icon,
            &order,
            most_directions,
            canonical_at,
        );
        let canonical: Option<&Vec<u32>> = match canonical_at {
            Some(at) => {
                assert(icon@.states[at as int] == icon.states@[at as int]@);
                match &icon.states[at].delay {
                    Some(delays) => Some(delays),
                    None => None,
                }
            },
            None => None,
        };
        if delay_problems.len() > 0 {
            let expected: Vec<u32> = match canonical {
                Some(delays) => copy_delays(delays),
                None => Vec::new(),
            };
            assert(delay_values(expected@) =~= match spec_canonical(icon@, listed) {
                Some(delays) => delays,
                None => Seq::empty(),
            });
            let problems = delay_problem_list(icon, &names, &delay_problems);
            return Err(
                ProcessorError::RestorationFailed(
                    RestrorationError::InconsistentDelays { expected, problems },
                ),
            );
        }
        if dir_problems.len() > 0 {
            let problems = dir_problem_list(icon, &names, &dir_problems);
            return Err(
                ProcessorError::RestorationFailed(
                    RestrorationError::InconsistentDirs { expected: most_directions, problems },
                ),
            );
        }
        if DirectionStrategy::count_to_strategy(most_directions).is_none() {
            return Err(ProcessorError::ConfigError(no_strategy_text(most_directions)));
        }
        let output_image = self.paint(icon, &order, &all_rows, most_directions, longest_frame);
        let config = self.config_lines(icon, &names, most_directions, canonical, rewind);
        proof {
            reveal_strlit("\n");
            assert("\n"@ =~= seq!['\n']);
        }
        let text = join(&config, "\n");
        Ok((output_image, text))
    }

    /// Packs an icon into a flat atlas and hands the atlas back together
    /// with the text of its configuration. An input that is no icon is
    /// refused.
    pub fn perform_operation(&self, input: &InputIcon, mode: OperationMode) -> (r: Result<
        ProcessorPayload,
        ProcessorError,
    >)
        requires
            input matches InputIcon::Dmi(icon) ==> self.spec_can_reconstruct(icon@),
        ensures
            match input {
                InputIcon::DynamicImage(_) => r == Err::<ProcessorPayload, ProcessorError>(
                    ProcessorError::DMINotFound,
                ),
                InputIcon::Dmi(icon) => match r {
                    Ok(payload) => {
                        &&& payload matches ProcessorPayload::ConfigWrapped(image, text)
                        &&& *image matches ProcessorPayload::Single(atlas)
                        &&& *atlas matches OutputImage::Png(raster)
                        &&& *text matches OutputText::PngConfig(config)
                        &&& self.spec_is_reconstructed(
                            icon@,
                            Ok::<(Raster, String), ProcessorError>((raster, config)),
                        )
                    },
                    Err(error) => self.spec_is_reconstructed(
                        icon@,
                        Err::<(Raster, String), ProcessorError>(error),
                    ),
                },
            },
    {
        let icon = match input {
            InputIcon::Dmi(icon) => icon,
            _ => {
                return Err(ProcessorError::DMINotFound);
            },
        };
        match self.reconstruct(icon) {
            Ok(packed) => {
                let (output_image, text) = packed;
                Ok(
                    ProcessorPayload::wrap_png_config(
                        ProcessorPayload::from_image(output_image),
                        text,
                    ),
                )
            },
            Err(error) => Err(error),
        }
    }

    /// Checks the configuration. There is nothing that it checks yet.
    pub fn verify_config(&self) -> (r: Result<(), ProcessorError>)
        ensures
            r is Ok,
    {
        Ok(())
    }
}

} // verus!
