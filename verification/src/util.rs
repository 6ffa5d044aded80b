//! Geometry primitives shared by the operations.

pub mod adjacency;
pub mod color;
pub mod corners;
pub mod delays;
pub mod directions;
pub mod icon_ops;
pub mod text;

use vstd::prelude::*;

verus! {

/// A list repeated from its start until it has `amount` entries, or cut off
/// after that many. Nothing can be taken from a list without entries.
pub open spec fn spec_repeat_for(to_repeat: Seq<u32>, amount: nat) -> Seq<u32> {
    if to_repeat.len() == 0 {
        Seq::empty()
    } else {
        Seq::new(amount, |i: int| to_repeat[i % (to_repeat.len() as int)])
    }
}

/// Repeats or cuts a list so that it has `amount` entries.
pub fn repeat_for(to_repeat: &Vec<u32>, amount: usize) -> (r: Vec<u32>)
    ensures
        r@ == spec_repeat_for(to_repeat@, amount as nat),
{
    let mut r: Vec<u32> = Vec::new();
    let len: usize = to_repeat.len();
    if len == 0 {
        assert(r@ =~= spec_repeat_for(to_repeat@, amount as nat));
        return r;
    }
    let mut i: usize = 0;
    let mut at: usize = 0;
    while i < amount
        invariant
            i <= amount,
            len == to_repeat@.len(),
            len > 0,
            at == i % len,
            r@.len() == i,
            forall|k: int| 0 <= k < i ==> r@[k] == to_repeat@[k % (len as int)],
        decreases amount - i,
    {
        r.push(to_repeat[at]);
        proof {
            lemma_next_remainder(i as int, len as int);
        }
        at = if at + 1 == len {
            0
        } else {
            at + 1
        };
        i += 1;
    }
    assert(r@ =~= spec_repeat_for(to_repeat@, amount as nat));
    r
}

/// The remainder of the next number: one more, or zero at the divisor.
proof fn lemma_next_remainder(i: int, len: int)
    requires
        0 <= i,
        0 < len,
    ensures
        (i + 1) % len == if i % len + 1 == len {
            0
        } else {
            i % len + 1
        },
{
    assert((i + 1) % len == if i % len + 1 == len {
        0
    } else {
        i % len + 1
    }) by (nonlinear_arith)
        requires
            0 <= i,
            0 < len,
    ;
}

} // verus!
