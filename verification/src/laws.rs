//! What holds of a container over any run of accesses.
//!
//! A run is given by the states that the container passes through, one more
//! than there are accesses, and the accesses are described by the relations
//! that [`Lazy::get`] and [`Lazy::get_mut`] state of a single call.

use vstd::prelude::*;
use crate::lazy::Lazy;

verus! {

/// Whether every duplicate of a `T` equals its original.
pub open spec fn clone_is_exact<T: Clone>() -> bool {
    forall|a: T, b: T| #[trigger] cloned(a, b) ==> a == b
}

/// Whether `states` is a run of accesses: each state but the first comes
/// from the one before it by a read or a mutable access.
pub open spec fn is_run<T: Clone + Default, F: Fn() -> T>(states: Seq<Lazy<T, F>>) -> bool {
    &&& states.len() >= 1
    &&& forall|i: int|
        0 <= i < states.len() - 1 ==> Lazy::touched(#[trigger] states[i], states[i + 1])
}

/// Whether `states` is a run of reads alone that returned `outs`, in order.
pub open spec fn is_read_run<T: Clone + Default, F: Fn() -> T>(
    states: Seq<Lazy<T, F>>,
    outs: Seq<T>,
) -> bool {
    &&& states.len() == outs.len() + 1
    &&& forall|i: int|
        0 <= i < outs.len() ==> Lazy::read(#[trigger] states[i], states[i + 1], outs[i])
}

/// Validity is kept: an access to a valid container leaves a valid container.
pub proof fn lemma_touch_keeps_wf<T: Clone + Default, F: Fn() -> T>(
    pre: Lazy<T, F>,
    post: Lazy<T, F>,
)
    requires
        pre.wf(),
        Lazy::touched(pre, post),
    ensures
        post.wf(),
{
}

/// The computation is run exactly once: after a run of one or more accesses
/// to a valid container, in any order of reads and mutable accesses, every
/// state but the first counts one run of the computation, and the slot is
/// never empty again.
pub proof fn lemma_computed_once<T: Clone + Default, F: Fn() -> T>(states: Seq<Lazy<T, F>>)
    requires
        is_run(states),
        states[0].wf(),
    ensures
        forall|i: int| 0 <= i < states.len() ==> (#[trigger] states[i]).wf(),
        forall|i: int| 1 <= i < states.len() ==> (#[trigger] states[i]).runs() == 1,
        forall|i: int| 1 <= i < states.len() ==> (#[trigger] states[i]).slot() is Some,
        forall|i: int|
            0 <= i < states.len() ==> (#[trigger] states[i]).calculation()
                == states[0].calculation(),
    decreases states.len(),
{
    if states.len() >= 2 {
        let shorter = states.drop_last();
        assert(is_run(shorter)) by {
            assert forall|i: int| 0 <= i < shorter.len() - 1 implies Lazy::touched(
                #[trigger] shorter[i],
                shorter[i + 1],
            ) by {
                assert(Lazy::touched(states[i], states[i + 1]));
            }
        }
        lemma_computed_once(shorter);
        let k = states.len() - 2;
        assert(shorter[k] == states[k]);
        assert(Lazy::touched(states[k], states[k + 1]));
        lemma_touch_keeps_wf(states[k], states[k + 1]);
        assert forall|i: int| 0 <= i < states.len() implies (#[trigger] states[i]).wf() by {
            if i < states.len() - 1 {
                assert(shorter[i] == states[i]);
            }
        }
        assert forall|i: int| 1 <= i < states.len() implies (#[trigger] states[i]).runs()
            == 1 && states[i].slot() is Some by {
            if i < states.len() - 1 {
                assert(shorter[i] == states[i]);
            }
        }
        assert forall|i: int| 0 <= i < states.len() implies (#[trigger] states[i]).calculation()
            == states[0].calculation() by {
            if i < states.len() - 1 {
                assert(shorter[i] == states[i]);
            }
        }
    }
}

/// Construction is lazy: a valid container with an empty slot has never run
/// its computation, and its first access runs it once.
pub proof fn lemma_first_access_computes<T: Clone + Default, F: Fn() -> T>(
    fresh: Lazy<T, F>,
    post: Lazy<T, F>,
)
    requires
        fresh.wf(),
        fresh.slot() is None,
        Lazy::touched(fresh, post),
    ensures
        fresh.runs() == 0,
        post.runs() == 1,
{
}

/// Reads agree: over a run of reads with no mutable access in between, the
/// slot holds one value from the first read on, and every result is a
/// duplicate of that value. Where duplicates of a `T` equal their original,
/// all results are equal.
pub proof fn lemma_reads_agree<T: Clone + Default, F: Fn() -> T>(
    states: Seq<Lazy<T, F>>,
    outs: Seq<T>,
)
    requires
        outs.len() >= 1,
        is_read_run(states, outs),
    ensures
        forall|i: int| 1 <= i < states.len() ==> (#[trigger] states[i]).slot() == states[1].slot(),
        forall|i: int|
            0 <= i < outs.len() ==> cloned(states[1].slot().unwrap(), #[trigger] outs[i]),
        clone_is_exact::<T>() ==> forall|i: int, j: int|
            0 <= i < outs.len() && 0 <= j < outs.len() ==> #[trigger] outs[i] == #[trigger] outs[j],
    decreases outs.len(),
{
    assert(Lazy::read(states[0], states[1], outs[0]));
    if outs.len() >= 2 {
        let fewer_states = states.drop_last();
        let fewer_outs = outs.drop_last();
        assert(is_read_run(fewer_states, fewer_outs)) by {
            assert forall|i: int| 0 <= i < fewer_outs.len() implies Lazy::read(
                #[trigger] fewer_states[i],
                fewer_states[i + 1],
                fewer_outs[i],
            ) by {
                assert(Lazy::read(states[i], states[i + 1], outs[i]));
            }
        }
        lemma_reads_agree(fewer_states, fewer_outs);
        let k = outs.len() - 1;
        assert(fewer_states[k] == states[k]);
        assert(fewer_states[1] == states[1]);
        assert(Lazy::read(states[k], states[k + 1], outs[k]));
        assert forall|i: int| 1 <= i < states.len() implies (#[trigger] states[i]).slot()
            == states[1].slot() by {
            if i < states.len() - 1 {
                assert(fewer_states[i] == states[i]);
            }
        }
        assert forall|i: int| 0 <= i < outs.len() implies cloned(
            states[1].slot().unwrap(),
            #[trigger] outs[i],
        ) by {
            if i < outs.len() - 1 {
                assert(fewer_outs[i] == outs[i]);
            }
        }
    }
    if clone_is_exact::<T>() {
        assert forall|i: int, j: int| 0 <= i < outs.len() && 0 <= j < outs.len() implies #[trigger]
            outs[i] == #[trigger] outs[j] by {
            assert(cloned(states[1].slot().unwrap(), outs[i]));
            assert(cloned(states[1].slot().unwrap(), outs[j]));
        }
    }
}

/// A result is a value of its own: a read hands out a duplicate and leaves
/// the slot as it found it, so whatever becomes of one result, the next read
/// of a filled slot still returns a duplicate of the same stored value.
pub proof fn lemma_result_is_detached<T: Clone + Default, F: Fn() -> T>(
    pre: Lazy<T, F>,
    mid: Lazy<T, F>,
    post: Lazy<T, F>,
    first: T,
    second: T,
)
    requires
        Lazy::read(pre, mid, first),
        Lazy::read(mid, post, second),
    ensures
        post.slot() == mid.slot(),
        cloned(mid.slot().unwrap(), first),
        cloned(mid.slot().unwrap(), second),
{
}

/// A write is seen: once a mutable access has left `left` in a valid
/// container, every read that follows, until the next mutable access,
/// returns a duplicate of `left` and keeps `left` in the slot; a mutable
/// access that follows is handed `left`; and the computation is not run
/// again.
pub proof fn lemma_write_is_seen<T: Clone + Default, F: Fn() -> T>(
    pre: Lazy<T, F>,
    seen: T,
    left: T,
    states: Seq<Lazy<T, F>>,
    outs: Seq<T>,
)
    requires
        pre.wf(),
        is_read_run(states, outs),
        Lazy::wrote(pre, states[0], seen, left),
    ensures
        forall|i: int| 0 <= i < states.len() ==> (#[trigger] states[i]).slot() == Some(left),
        forall|i: int| 0 <= i < states.len() ==> (#[trigger] states[i]).runs() == 1,
        forall|i: int| 0 <= i < outs.len() ==> cloned(left, #[trigger] outs[i]),
        forall|i: int, v: T|
            0 <= i < states.len() && #[trigger] states[i].settles_on(v) ==> v == left,
    decreases outs.len(),
{
    if outs.len() >= 1 {
        let fewer_states = states.drop_last();
        let fewer_outs = outs.drop_last();
        assert(fewer_states[0] == states[0]);
        assert(is_read_run(fewer_states, fewer_outs)) by {
            assert forall|i: int| 0 <= i < fewer_outs.len() implies Lazy::read(
                #[trigger] fewer_states[i],
                fewer_states[i + 1],
                fewer_outs[i],
            ) by {
                assert(Lazy::read(states[i], states[i + 1], outs[i]));
            }
        }
        lemma_write_is_seen(pre, seen, left, fewer_states, fewer_outs);
        let k = outs.len() - 1;
        assert(fewer_states[k] == states[k]);
        assert(Lazy::read(states[k], states[k + 1], outs[k]));
        assert forall|i: int| 0 <= i < states.len() implies (#[trigger] states[i]).slot() == Some(
            left,
        ) && states[i].runs() == 1 by {
            if i < states.len() - 1 {
                assert(fewer_states[i] == states[i]);
            }
        }
        assert forall|i: int| 0 <= i < outs.len() implies cloned(left, #[trigger] outs[i]) by {
            if i < outs.len() - 1 {
                assert(fewer_outs[i] == outs[i]);
            }
        }
    }
}

} // verus!
