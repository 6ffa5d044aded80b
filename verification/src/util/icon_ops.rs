use vstd::prelude::*;
use crate::icon::{delay_values, raster_views, IconState, IconStateView};
use crate::raster::{Raster, RasterView};

verus! {

/// The sum of a list of delays.
pub open spec fn delays_total(delays: Seq<nat>) -> nat
    decreases delays.len(),
{
    if delays.len() == 0 {
        0
    } else {
        delays_total(delays.drop_last()) + delays.last()
    }
}

/// The number of frames of a state that have a delay and an image for
/// every direction.
pub open spec fn paired_frames(state: IconStateView) -> nat {
    let delays = state.delay.unwrap().len();
    let groups = state.images.len() / state.dirs;
    if delays <= groups {
        delays
    } else {
        groups
    }
}

/// The delays and images that are left of the first `count` frames of a
/// state when each frame that shows what the frame before it shows is
/// dropped and its delay added to the delay of the last frame kept.
pub open spec fn folded(state: IconStateView, count: nat) -> (Seq<nat>, Seq<RasterView>)
    decreases count,
{
    if count == 0 {
        (Seq::empty(), Seq::empty())
    } else {
        let before = folded(state, (count - 1) as nat);
        let group = state.group(count - 1);
        let delay = state.delay.unwrap()[count - 1];
        if before.0.len() > 0 && before.1.subrange(before.1.len() - state.dirs, before.1.len() as int)
            == group {
            (before.0.update(before.0.len() - 1, before.0.last() + delay), before.1)
        } else {
            (before.0.push(delay), before.1 + group)
        }
    }
}

/// Whether a state is animated: it has more than one frame, and delays.
pub open spec fn is_animated(state: IconStateView) -> bool {
    state.frames > 1 && state.delay is Some
}

/// A state without the frames that repeat the frame before them. A state
/// of one frame or without delays is left as it is.
pub open spec fn spec_dedupe_frames(state: IconStateView) -> IconStateView {
    if is_animated(state) {
        let kept = folded(state, paired_frames(state));
        IconStateView { frames: kept.0.len(), images: kept.1, delay: Some(kept.0), ..state }
    } else {
        state
    }
}

/// What `dedupe_frames` asks of an animated state: that it has a direction,
/// and that its delays together, and the number of its frames, can be held
/// in 32 bits.
pub open spec fn can_dedupe(state: IconStateView) -> bool {
    is_animated(state) ==> {
        &&& state.dirs > 0
        &&& delays_total(state.delay.unwrap()) <= u32::MAX
        &&& paired_frames(state) <= u32::MAX
    }
}

/// The delays of a prefix of a list sum up to no more than those of the
/// whole list, and to the delay behind the prefix less than those of the
/// prefix that is longer by one.
pub proof fn lemma_total_take(delays: Seq<nat>, count: int)
    requires
        0 <= count < delays.len(),
    ensures
        delays_total(delays.take(count + 1)) == delays_total(delays.take(count)) + delays[count],
        delays_total(delays.take(count + 1)) <= delays_total(delays),
    decreases delays.len(),
{
    assert(delays.take(count + 1).drop_last() =~= delays.take(count));
    if count + 1 < delays.len() {
        assert(delays.drop_last().take(count + 1) =~= delays.take(count + 1));
        assert(delays.drop_last().take(count) =~= delays.take(count));
        lemma_total_take(delays.drop_last(), count);
    } else {
        assert(delays.take(count + 1) =~= delays);
    }
}

proof fn lemma_total_update_last(delays: Seq<nat>, more: nat)
    requires
        delays.len() > 0,
    ensures
        delays_total(delays.update(delays.len() - 1, delays.last() + more)) == delays_total(
            delays,
        ) + more,
        delays.last() <= delays_total(delays),
{
    let updated = delays.update(delays.len() - 1, delays.last() + more);
    assert(updated.drop_last() =~= delays.drop_last());
}

/// The frames kept of the first `count` frames: there are as many images
/// as kept delays times directions, and the kept delays sum up to the
/// delays of those frames.
proof fn lemma_folded_shape(state: IconStateView, count: nat)
    requires
        state.delay is Some,
        state.dirs > 0,
        count <= paired_frames(state),
    ensures
        folded(state, count).1.len() == folded(state, count).0.len() * state.dirs,
        folded(state, count).0.len() <= count,
        count > 0 ==> folded(state, count).0.len() > 0,
        delays_total(folded(state, count).0) == delays_total(
            state.delay.unwrap().take(count as int),
        ),
    decreases count,
{
    let delays = state.delay.unwrap();
    if count == 0 {
        assert(delays.take(0) =~= Seq::<nat>::empty());
        assert(0 * state.dirs == 0) by (nonlinear_arith);
    } else {
        lemma_folded_shape(state, (count - 1) as nat);
        lemma_group_bounds(state, count - 1);
        let before = folded(state, (count - 1) as nat);
        let delay = delays[count - 1];
        lemma_total_take(delays, count - 1);
        let after = folded(state, count);
        let b = before.0.len();
        let a = after.0.len();
        let d = state.dirs;
        assert(before.1.len() == b * d);
        assert(state.group(count - 1).len() == d);
        if b > 0 && before.1.subrange(before.1.len() - d, before.1.len() as int) == state.group(
            count - 1,
        ) {
            lemma_total_update_last(before.0, delay);
            assert(a == b);
            assert(after.1 == before.1);
            assert(a * d == b * d) by (nonlinear_arith)
                requires
                    a == b,
            ;
        } else {
            assert(after.0 == before.0.push(delay));
            assert(after.1 == before.1 + state.group(count - 1));
            assert(before.0.push(delay).drop_last() =~= before.0);
            assert(a * d == b * d + d) by (nonlinear_arith)
                requires
                    a == b + 1,
            ;
            assert(after.1.len() == b * d + d);
        }
    }
}

/// Frame `k` of the paired frames lies within the images.
proof fn lemma_group_bounds(state: IconStateView, k: int)
    requires
        state.delay is Some,
        state.dirs > 0,
        0 <= k < paired_frames(state),
    ensures
        0 <= k * state.dirs,
        (k + 1) * state.dirs == k * state.dirs + state.dirs,
        (k + 1) * state.dirs <= state.images.len(),
        state.group(k).len() == state.dirs,
{
    let groups = state.images.len() / state.dirs;
    assert(groups * state.dirs <= state.images.len()) by (nonlinear_arith)
        requires
            groups == state.images.len() / state.dirs,
            state.dirs > 0,
    ;
    assert((k + 1) * state.dirs <= groups * state.dirs) by (nonlinear_arith)
        requires
            k + 1 <= groups,
            state.dirs > 0,
    ;
    assert((k + 1) * state.dirs == k * state.dirs + state.dirs) by (nonlinear_arith);
    assert(0 <= k * state.dirs) by (nonlinear_arith)
        requires
            0 <= k,
            state.dirs > 0,
    ;
}

/// Whether no frame among the first `count` frames of `images`, taken
/// `dirs` images to a frame, shows what the frame before it shows.
pub open spec fn no_repeats(images: Seq<RasterView>, dirs: nat, count: nat) -> bool {
    forall|m: int|
        1 <= m < count ==> images.subrange((m - 1) * dirs, m * dirs) != #[trigger] images.subrange(
            m * dirs,
            (m + 1) * dirs,
        )
}

proof fn lemma_mul_steps(m: int, c: int, d: int)
    requires
        0 <= m <= c,
        0 <= d,
    ensures
        (m + 1) * d == m * d + d,
        (m - 1) * d == m * d - d,
        0 <= m * d <= c * d,
{
    assert((m + 1) * d == m * d + d) by (nonlinear_arith);
    assert((m - 1) * d == m * d - d) by (nonlinear_arith);
    assert(0 <= m * d <= c * d) by (nonlinear_arith)
        requires
            0 <= m <= c,
            0 <= d,
    ;
}

/// Among the frames that are kept, none repeats the frame before it.
proof fn lemma_folded_no_repeats(state: IconStateView, count: nat)
    requires
        state.delay is Some,
        state.dirs > 0,
        count <= paired_frames(state),
    ensures
        no_repeats(folded(state, count).1, state.dirs, folded(state, count).0.len()),
    decreases count,
{
    if count > 0 {
        lemma_folded_no_repeats(state, (count - 1) as nat);
        lemma_folded_shape(state, (count - 1) as nat);
        lemma_folded_shape(state, count);
        lemma_group_bounds(state, count - 1);
        let before = folded(state, (count - 1) as nat);
        let after = folded(state, count);
        let group = state.group(count - 1);
        let dirs = state.dirs;
        let c = before.0.len();
        if !(c > 0 && before.1.subrange(before.1.len() - dirs, before.1.len() as int) == group) {
            assert(after.1 == before.1 + group);
            assert forall|m: int| 1 <= m < after.0.len() implies after.1.subrange(
                (m - 1) * dirs,
                m * dirs,
            ) != #[trigger] after.1.subrange(m * dirs, (m + 1) * dirs) by {
                lemma_mul_steps(m, c as int, dirs as int);
                if m < c {
                    lemma_mul_steps(m + 1, c as int, dirs as int);
                    assert(after.1.subrange((m - 1) * dirs, m * dirs) =~= before.1.subrange(
                        (m - 1) * dirs,
                        m * dirs,
                    ));
                    assert(after.1.subrange(m * dirs, (m + 1) * dirs) =~= before.1.subrange(
                        m * dirs,
                        (m + 1) * dirs,
                    ));
                } else {
                    assert(after.1.subrange((m - 1) * dirs, m * dirs) =~= before.1.subrange(
                        before.1.len() - dirs,
                        before.1.len() as int,
                    ));
                    assert(after.1.subrange(m * dirs, (m + 1) * dirs) =~= group);
                }
            }
        }
    }
}

/// Folding frames of which none repeats the frame before it keeps them all.
proof fn lemma_folded_keeps_distinct(state: IconStateView, count: nat)
    requires
        state.delay is Some,
        state.dirs > 0,
        state.images.len() == state.delay.unwrap().len() * state.dirs,
        no_repeats(state.images, state.dirs, state.delay.unwrap().len()),
        count <= state.delay.unwrap().len(),
    ensures
        folded(state, count) == (
            state.delay.unwrap().take(count as int),
            state.images.take((count * state.dirs) as int),
        ),
    decreases count,
{
    let delays = state.delay.unwrap();
    let dirs = state.dirs;
    lemma_mul_steps(count as int, delays.len() as int, dirs as int);
    if count == 0 {
        assert(count * dirs == 0) by (nonlinear_arith)
            requires
                count == 0,
        ;
        assert(delays.take(0) =~= Seq::<nat>::empty());
        assert(state.images.take(0) =~= Seq::<RasterView>::empty());
    } else {
        let m = (count - 1) as int;
        let d = dirs as int;
        lemma_folded_keeps_distinct(state, m as nat);
        lemma_mul_steps(m, delays.len() as int, d);
        let before = folded(state, m as nat);
        let group = state.group(m);
        assert(before.0 == delays.take(m));
        assert(before.1 == state.images.take(m * d));
        assert(before.1.len() == m * d);
        assert(group == state.images.subrange(m * d, (m + 1) * d));
        assert((m + 1) * d == count * dirs);
        if m > 0 {
            assert(before.1.subrange(before.1.len() - d, before.1.len() as int)
                =~= state.images.subrange((m - 1) * d, m * d));
            assert(state.images.subrange((m - 1) * d, m * d) != state.images.subrange(
                m * d,
                (m + 1) * d,
            ));
        }
        assert(before.0.len() > 0 <==> m > 0);
        assert(folded(state, count) == (before.0.push(delays[m]), before.1 + group));
        assert(before.0.push(delays[m]) =~= delays.take(count as int));
        assert(before.1 + group =~= state.images.take((m + 1) * d));
    }
}

/// A state that can be rid of its repeated frames can be rid of them
/// again afterwards.
pub proof fn lemma_dedupe_frames_again(state: IconStateView)
    requires
        can_dedupe(state),
    ensures
        can_dedupe(spec_dedupe_frames(state)),
{
    let once = spec_dedupe_frames(state);
    if is_animated(state) && is_animated(once) {
        let pairs = paired_frames(state);
        let kept = folded(state, pairs);
        let delays = state.delay.unwrap();
        lemma_folded_shape(state, pairs);
        if pairs > 0 {
            lemma_total_take(delays, pairs - 1);
        }
        assert(kept.1.len() / state.dirs == kept.0.len()) by (nonlinear_arith)
            requires
                kept.1.len() == kept.0.len() * state.dirs,
                state.dirs > 0,
        ;
    }
}

/// Removing repeated frames a second time changes nothing.
pub proof fn lemma_dedupe_frames_idempotent(state: IconStateView)
    requires
        is_animated(state) ==> state.dirs > 0,
    ensures
        spec_dedupe_frames(spec_dedupe_frames(state)) == spec_dedupe_frames(state),
{
    let once = spec_dedupe_frames(state);
    if is_animated(state) && is_animated(once) {
        let pairs = paired_frames(state);
        let kept = folded(state, pairs);
        let dirs = state.dirs;
        let count = kept.0.len();
        lemma_folded_shape(state, pairs);
        lemma_folded_no_repeats(state, pairs);
        assert(kept.1.len() / dirs == count) by (nonlinear_arith)
            requires
                kept.1.len() == count * dirs,
                dirs > 0,
        ;
        assert(paired_frames(once) == count);
        lemma_folded_keeps_distinct(once, count);
        assert(kept.0.take(count as int) =~= kept.0);
        assert(kept.1.take((count * dirs) as int) =~= kept.1);
    }
}

/// Whether the `dirs` images of `kept` from `kept_base` on show what the
/// `dirs` images of `images` from `base` on show.
fn same_group(kept: &Vec<Raster>, kept_base: usize, images: &Vec<Raster>, base: usize, dirs: usize) -> (r:
    bool)
    requires
        kept_base + dirs <= kept@.len(),
        base + dirs <= images@.len(),
    ensures
        r == (raster_views(kept@).subrange(kept_base as int, kept_base + dirs) == raster_views(
            images@,
        ).subrange(base as int, base + dirs)),
{
    let kept_len: usize = kept.len();
    let images_len: usize = images.len();
    let ghost left = raster_views(kept@).subrange(kept_base as int, kept_base + dirs);
    let ghost right = raster_views(images@).subrange(base as int, base + dirs);
    let mut j: usize = 0;
    while j < dirs
        invariant
            j <= dirs,
            kept_base + dirs <= kept@.len() <= usize::MAX,
            base + dirs <= images@.len() <= usize::MAX,
            left == raster_views(kept@).subrange(kept_base as int, kept_base + dirs),
            right == raster_views(images@).subrange(base as int, base + dirs),
            forall|i: int| 0 <= i < j ==> left[i] == right[i],
        decreases dirs - j,
    {
        if !kept[kept_base + j].same_as(&images[base + j]) {
            assert(left[j as int] != right[j as int]);
            return false;
        }
        j += 1;
    }
    assert(left =~= right);
    true
}

/// Whether `dedupe_frames` takes a state.
pub fn can_dedupe_frames(icon_state: &IconState) -> (r: bool)
    ensures
        r == can_dedupe(icon_state@),
{
    if icon_state.frames <= 1 {
        return true;
    }
    let delays = match &icon_state.delay {
        Some(delays) => delays,
        None => {
            return true;
        },
    };
    if icon_state.dirs == 0 {
        return false;
    }
    let groups: usize = icon_state.images.len() / (icon_state.dirs as usize);
    let pairs: usize = if delays.len() <= groups {
        delays.len()
    } else {
        groups
    };
    assert(pairs == paired_frames(icon_state@));
    if pairs as u128 > u32::MAX as u128 {
        return false;
    }
    let ghost all = delay_values(delays@);
    let mut total: u64 = 0;
    let mut i: usize = 0;
    while i < delays.len()
        invariant
            i <= delays@.len(),
            all == delay_values(delays@),
            is_animated(icon_state@),
            icon_state@.delay == Some(all),
            total == delays_total(all.take(i as int)),
            total <= u32::MAX,
        decreases delays@.len() - i,
    {
        proof {
            lemma_total_take(all, i as int);
        }
        total = total + delays[i] as u64;
        if total > u32::MAX as u64 {
            assert(delays_total(all) > u32::MAX);
            return false;
        }
        i += 1;
    }
    assert(all.take(delays@.len() as int) =~= all);
    true
}

/// Removes the frames of an animation that repeat the frame before them,
/// and adds the delay of each to the delay of the frame it repeats.
#[verifier::rlimit(40)]
pub fn dedupe_frames(icon_state: IconState) -> (r: IconState)
    requires
        can_dedupe(icon_state@),
    ensures
        r@ == spec_dedupe_frames(icon_state@),
        can_dedupe(r@),
{
    proof {
        lemma_dedupe_frames_again(icon_state@);
    }
    if icon_state.frames <= 1 {
        return icon_state;
    }
    if icon_state.delay.is_none() {
        return icon_state;
    }
    let ghost state = icon_state@;
    let IconState { name, dirs, frames, images, delay, rewind } = icon_state;
    let current_delays = delay.unwrap();
    let dirs_wide: usize = dirs as usize;
    let groups: usize = images.len() / dirs_wide;
    let pairs: usize = if current_delays.len() <= groups {
        current_delays.len()
    } else {
        groups
    };
    assert(pairs == paired_frames(state));
    let mut kept_delays: Vec<u32> = Vec::new();
    let mut kept_frames: Vec<Raster> = Vec::new();
    let mut k: usize = 0;
    let mut base: usize = 0;
    while k < pairs
        invariant
            k <= pairs,
            pairs == paired_frames(state),
            dirs_wide == state.dirs,
            state.dirs > 0,
            images@.len() <= usize::MAX,
            state.delay == Some(delay_values(current_delays@)),
            state.images == raster_views(images@),
            delays_total(state.delay.unwrap()) <= u32::MAX,
            base == k * state.dirs,
            delay_values(kept_delays@) == folded(state, k as nat).0,
            raster_views(kept_frames@) == folded(state, k as nat).1,
        decreases pairs - k,
    {
        proof {
            lemma_folded_shape(state, k as nat);
            lemma_group_bounds(state, k as int);
            lemma_total_take(state.delay.unwrap(), k as int);
            lemma_folded_shape(state, (k + 1) as nat);
        }
        let current_delay: u32 = current_delays[k];
        let count: usize = kept_delays.len();
        let ghost before = folded(state, k as nat);
        assert(kept_frames@.len() == count * dirs_wide);
        assert(count != 0 ==> count * dirs_wide >= dirs_wide) by (nonlinear_arith)
            requires
                count >= 0,
                dirs_wide >= 0,
        ;
        assert(base + dirs_wide <= images@.len());
        assert(raster_views(images@).subrange(base as int, base + dirs_wide) == state.group(
            k as int,
        ));
        if count != 0 && same_group(
            &kept_frames,
            kept_frames.len() - dirs_wide,
            &images,
            base,
            dirs_wide,
        ) {
            proof {
                lemma_total_update_last(before.0, current_delay as nat);
            }
            let last: u32 = kept_delays[count - 1];
            kept_delays.set(count - 1, last + current_delay);
            assert(delay_values(kept_delays@) =~= before.0.update(
                before.0.len() - 1,
                (before.0.last() + current_delay) as nat,
            ));
        } else {
            kept_delays.push(current_delay);
            assert(delay_values(kept_delays@) =~= before.0.push(current_delay as nat));
            let mut j: usize = 0;
            while j < dirs_wide
                invariant
                    j <= dirs_wide,
                    base + dirs_wide <= images@.len() <= usize::MAX,
                    raster_views(kept_frames@) == before.1 + raster_views(images@).subrange(
                        base as int,
                        base + j,
                    ),
                decreases dirs_wide - j,
            {
                let ghost so_far = raster_views(kept_frames@);
                kept_frames.push(images[base + j].clone());
                assert(raster_views(kept_frames@) =~= so_far.push(images@[base + j]@));
                assert(raster_views(kept_frames@) =~= before.1 + raster_views(images@).subrange(
                    base as int,
                    base + j + 1,
                ));
                j += 1;
            }
        }
        base += dirs_wide;
        k += 1;
    }
    proof {
        lemma_folded_shape(state, pairs as nat);
    }
    let kept_count: usize = kept_delays.len();
    IconState {
        name,
        dirs,
        frames: kept_count as u32,
        images: kept_frames,
        delay: Some(kept_delays),
        rewind,
    }
}

} // verus!
