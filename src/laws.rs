use vstd::prelude::*;

use crate::rcu::{is_reading, RcuPhase, RcuView};
use crate::state::{fast, is_active, is_fast_active, lemma_count_zero, slow, ProxyView, SwapPhase};

verus! {

/// An admitted call observes the implementation that is current, and while
/// it is in progress the swap cannot reach the point where it publishes a
/// new one: a call sees a single implementation from start to end.
pub proof fn no_torn_read<D, L, R>(v: ProxyView<D, L, R>, i: int)
    requires
        v.inv(),
        0 <= i < v.contexts.len(),
        is_active(v.contexts[i]),
    ensures
        v.observed[i] == v.generation,
        v.phase != SwapPhase::Initialized,
{
    if v.phase == SwapPhase::Initialized {
        if is_fast_active(v.contexts[i]) {
            lemma_count_zero(v.contexts, fast(), i);
        } else {
            lemma_count_zero(v.contexts, slow(), i);
        }
    }
}

/// Once a swap has drained, no caller is admitted until it publishes; and
/// when the old implementation awaits disposal, no admitted caller observes
/// it.
pub proof fn drain_complete<D, L, R>(v: ProxyView<D, L, R>)
    requires
        v.inv(),
    ensures
        v.phase.drained() ==> v.fast_count() == 0 && v.lock_readers == 0,
        v.phase.drained() ==> forall|i: int|
            0 <= i < v.contexts.len() ==> !is_active(#[trigger] v.contexts[i]),
        v.phase == SwapPhase::Published ==> forall|i: int|
            0 <= i < v.contexts.len() && is_active(#[trigger] v.contexts[i]) ==> v.observed[i]
                != v.generation - 1,
{
    if v.phase.drained() {
        assert forall|i: int| 0 <= i < v.contexts.len() implies !is_active(
            #[trigger] v.contexts[i],
        ) by {
            lemma_count_zero(v.contexts, fast(), i);
            lemma_count_zero(v.contexts, slow(), i);
        }
    }
}

/// Every implementation that has been replaced is handed to reclamation
/// exactly once, in the order of replacement, and the current one never is.
pub proof fn disposed_exactly_once<D, L, R>(v: ProxyView<D, L, R>)
    requires
        v.inv(),
    ensures
        forall|j: int, k: int|
            0 <= j < v.reclaimed.len() && 0 <= k < v.reclaimed.len() && v.reclaimed[j]
                == v.reclaimed[k] ==> j == k,
        !v.reclaimed.contains(v.generation),
        v.phase != SwapPhase::Published ==> forall|g: nat|
            g < v.generation ==> #[trigger] v.reclaimed.contains(g),
        v.phase == SwapPhase::Published ==> !v.reclaimed.contains((v.generation - 1) as nat),
{
    if v.phase != SwapPhase::Published {
        assert forall|g: nat| g < v.generation implies #[trigger] v.reclaimed.contains(g) by {
            assert(v.reclaimed[g as int] == g);
        }
    }
}

/// Under read-copy-update an admitted call reads the implementation it
/// observed on entry: the current one, or, only while the grace period of a
/// swap runs, the one that swap replaced, which is still held.
pub proof fn rcu_no_torn_read<D, L, R>(v: RcuView<D, L, R>, i: int)
    requires
        v.inv(),
        0 <= i < v.contexts.len(),
        is_reading(v.contexts[i]),
    ensures
        v.observed[i] == v.generation || (v.phase == RcuPhase::Published && v.outgoing is Some
            && v.observed[i] == v.generation - 1),
{
}

/// Once the grace period of a swap has ended, no caller reads the old
/// implementation, so disposing of it overlaps no call that observed it.
pub proof fn rcu_grace_complete<D, L, R>(v: RcuView<D, L, R>)
    requires
        v.inv(),
        v.phase != RcuPhase::Published,
    ensures
        forall|i: int|
            0 <= i < v.contexts.len() && is_reading(#[trigger] v.contexts[i]) ==> v.observed[i]
                == v.generation,
{
}

/// Under read-copy-update too, every replaced implementation is handed to
/// reclamation exactly once, in order, and the current one never is.
pub proof fn rcu_disposed_exactly_once<D, L, R>(v: RcuView<D, L, R>)
    requires
        v.inv(),
    ensures
        forall|j: int, k: int|
            0 <= j < v.reclaimed.len() && 0 <= k < v.reclaimed.len() && v.reclaimed[j]
                == v.reclaimed[k] ==> j == k,
        !v.reclaimed.contains(v.generation),
        !v.phase.has_outgoing() ==> forall|g: nat|
            g < v.generation ==> #[trigger] v.reclaimed.contains(g),
        v.phase.has_outgoing() ==> !v.reclaimed.contains((v.generation - 1) as nat),
{
    if !v.phase.has_outgoing() {
        assert forall|g: nat| g < v.generation implies #[trigger] v.reclaimed.contains(g) by {
            assert(v.reclaimed[g as int] == g);
        }
    }
}

} // verus!
