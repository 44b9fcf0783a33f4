use vstd::prelude::*;

use crate::counter::sum_of;

verus! {

/// The admission path a call took: the per-processor counter while no swap
/// is draining, the shared lock otherwise.
#[derive(Debug, Clone, Copy, PartialEq, Eq, Structural)]
pub enum Path {
    Fast,
    Slow,
}

/// Where one execution context stands in a call through the proxy.
#[derive(Debug, Clone, Copy, PartialEq, Eq, Structural)]
pub enum CallState {
    /// Not in a call.
    Idle,
    /// The swap flag has been sampled and chose `path`; not yet admitted.
    Entering { cpu: usize, path: Path, recoverable: bool },
    /// Admitted and calling the current implementation.
    Active { cpu: usize, path: Path, recoverable: bool },
}

/// The stage a hot swap has reached.
#[derive(Debug, Clone, Copy, PartialEq, Eq, Structural)]
pub enum SwapPhase {
    /// No swap; the loader mutex is free.
    Idle,
    /// The loader mutex is held.
    Locked,
    /// The write side of the admission lock is held as well.
    WriteLocked,
    /// The swap flag is raised: new callers take the slow path.
    Flagged,
    /// Every processor has observed the raised flag.
    Synced,
    /// No caller remains on the fast path.
    Drained,
    /// The incoming implementation has been initialised.
    Initialized,
    /// The incoming implementation is current; the old one awaits disposal.
    Published,
    /// The old implementation has been handed to reclamation.
    Disposed,
}

impl SwapPhase {
    /// The write side of the admission lock is held in this phase.
    pub open spec fn holds_write(self) -> bool {
        match self {
            SwapPhase::Idle | SwapPhase::Locked => false,
            _ => true,
        }
    }

    /// The swap flag is raised in this phase.
    pub open spec fn flag_raised(self) -> bool {
        match self {
            SwapPhase::Flagged | SwapPhase::Synced | SwapPhase::Drained | SwapPhase::Initialized => true,
            _ => false,
        }
    }

    /// Every processor has passed the barrier after the flag was raised.
    pub open spec fn synced(self) -> bool {
        match self {
            SwapPhase::Synced | SwapPhase::Drained | SwapPhase::Initialized => true,
            _ => false,
        }
    }

    /// The fast path has been drained.
    pub open spec fn drained(self) -> bool {
        match self {
            SwapPhase::Drained | SwapPhase::Initialized => true,
            _ => false,
        }
    }

    /// The incoming implementation is still held by the swap.
    pub open spec fn has_incoming(self) -> bool {
        match self {
            SwapPhase::Idle | SwapPhase::Published | SwapPhase::Disposed => false,
            _ => true,
        }
    }

    /// The swap still holds the loader descriptor that it will store.
    pub open spec fn has_next_loader(self) -> bool {
        self != SwapPhase::Idle
    }
}

/// How the resources of a disposed implementation are reclaimed.
#[derive(Debug, Clone, Copy, PartialEq, Eq, Structural)]
pub enum FreeShared {
    /// Free everything the old domain owned, shared regions included.
    FreeAll,
    /// Keep the shared regions: the domain with this identity still uses them.
    PreserveSharedWith(u64),
}

pub open spec fn is_active(c: CallState) -> bool {
    c is Active
}

pub open spec fn is_recoverable_active(c: CallState) -> bool {
    match c {
        CallState::Active { recoverable, .. } => recoverable,
        _ => false,
    }
}

pub open spec fn is_fast_active(c: CallState) -> bool {
    match c {
        CallState::Active { path, .. } => path == Path::Fast,
        _ => false,
    }
}

pub open spec fn is_fast_active_on(c: CallState, k: usize) -> bool {
    match c {
        CallState::Active { cpu, path, .. } => path == Path::Fast && cpu == k,
        _ => false,
    }
}

pub open spec fn is_slow_active(c: CallState) -> bool {
    match c {
        CallState::Active { path, .. } => path == Path::Slow,
        _ => false,
    }
}

pub open spec fn is_entering_fast(c: CallState) -> bool {
    match c {
        CallState::Entering { path, .. } => path == Path::Fast,
        _ => false,
    }
}

pub open spec fn cpu_of(c: CallState) -> int {
    match c {
        CallState::Idle => 0,
        CallState::Entering { cpu, .. } => cpu as int,
        CallState::Active { cpu, .. } => cpu as int,
    }
}

pub open spec fn fast_on(k: usize) -> spec_fn(CallState) -> bool {
    |c: CallState| is_fast_active_on(c, k)
}

pub open spec fn fast() -> spec_fn(CallState) -> bool {
    |c: CallState| is_fast_active(c)
}

pub open spec fn slow() -> spec_fn(CallState) -> bool {
    |c: CallState| is_slow_active(c)
}

pub open spec fn entering_fast() -> spec_fn(CallState) -> bool {
    |c: CallState| is_entering_fast(c)
}

/// How many elements of `s` satisfy `p`.
pub open spec fn count_where<T>(s: Seq<T>, p: spec_fn(T) -> bool) -> nat
    decreases s.len(),
{
    if s.len() == 0 {
        0
    } else {
        count_where(s.drop_last(), p) + if p(s.last()) {
            1nat
        } else {
            0nat
        }
    }
}

/// Replacing one element changes the count by what the two contribute.
pub proof fn lemma_count_update<T>(s: Seq<T>, p: spec_fn(T) -> bool, i: int, x: T)
    requires
        0 <= i < s.len(),
    ensures
        count_where(s.update(i, x), p) == count_where(s, p) - (if p(s[i]) {
            1int
        } else {
            0int
        }) + (if p(x) {
            1int
        } else {
            0int
        }),
    decreases s.len(),
{
    let t = s.update(i, x);
    if i == s.len() - 1 {
        assert(t.drop_last() =~= s.drop_last());
    } else {
        lemma_count_update(s.drop_last(), p, i, x);
        assert(t.drop_last() =~= s.drop_last().update(i, x));
    }
}

/// An element that fails `p` leaves the count below the length.
pub proof fn lemma_count_bound<T>(s: Seq<T>, p: spec_fn(T) -> bool, i: int)
    requires
        0 <= i < s.len(),
        !p(s[i]),
    ensures
        count_where(s, p) < s.len(),
    decreases s.len(),
{
    lemma_count_le_len(s.drop_last(), p);
    if i < s.len() - 1 {
        lemma_count_bound(s.drop_last(), p, i);
    }
}

/// The count is at most the length.
pub proof fn lemma_count_le_len<T>(s: Seq<T>, p: spec_fn(T) -> bool)
    ensures
        count_where(s, p) <= s.len(),
    decreases s.len(),
{
    if s.len() > 0 {
        lemma_count_le_len(s.drop_last(), p);
    }
}

/// A count of zero means no element satisfies `p`.
pub proof fn lemma_count_zero<T>(s: Seq<T>, p: spec_fn(T) -> bool, i: int)
    requires
        0 <= i < s.len(),
        count_where(s, p) == 0,
    ensures
        !p(s[i]),
    decreases s.len(),
{
    if i < s.len() - 1 {
        lemma_count_zero(s.drop_last(), p, i);
    }
}

/// When no element satisfies `p` the count is zero.
pub proof fn lemma_count_none<T>(s: Seq<T>, p: spec_fn(T) -> bool)
    requires
        forall|i: int| 0 <= i < s.len() ==> !p(#[trigger] s[i]),
    ensures
        count_where(s, p) == 0,
    decreases s.len(),
{
    if s.len() > 0 {
        lemma_count_none(s.drop_last(), p);
    }
}

/// The abstract state of a domain proxy.
pub struct ProxyView<D, L, R> {
    /// The current implementation.
    pub domain: D,
    /// How many implementations have been published before the current one.
    pub generation: nat,
    pub flag: bool,
    /// Per-processor counts of fast-path callers.
    pub counts: Seq<usize>,
    /// Holders of the shared side of the admission lock.
    pub lock_readers: nat,
    pub lock_writer: bool,
    pub contexts: Seq<CallState>,
    /// The generation each context observed when it was admitted.
    pub observed: Seq<nat>,
    pub loader: L,
    /// The saved initialisation argument.
    pub resource: Option<R>,
    pub phase: SwapPhase,
    pub incoming: Option<D>,
    pub next_loader: Option<L>,
    pub keep_shared: bool,
    pub outgoing: Option<D>,
    /// The generations whose implementation has been handed to reclamation,
    /// in order.
    pub reclaimed: Seq<nat>,
}

impl<D, L, R> ProxyView<D, L, R> {
    /// The number of processors.
    pub open spec fn cpus(self) -> nat {
        self.counts.len()
    }

    /// The number of callers admitted on the fast path.
    pub open spec fn fast_count(self) -> nat {
        count_where(self.contexts, fast())
    }

    /// The protocol invariant that every step preserves.
    pub open spec fn inv(self) -> bool {
        &&& self.contexts.len() == self.observed.len()
        &&& self.contexts.len() <= usize::MAX
        &&& forall|i: int|
            0 <= i < self.contexts.len() && !(self.contexts[i] is Idle) ==> 0 <= cpu_of(
                #[trigger] self.contexts[i],
            ) < self.cpus()
        // Every fast-path caller is counted on its own processor.
        &&& forall|k: usize|
            k < self.cpus() ==> #[trigger] self.counts[k as int] == count_where(self.contexts, fast_on(k))
        &&& sum_of(self.counts) == self.fast_count()
        // Every slow-path caller holds the shared side of the lock.
        &&& self.lock_readers == count_where(self.contexts, slow())
        &&& self.lock_writer == self.phase.holds_write()
        // A swap holding the write side excludes slow-path callers.
        &&& self.lock_writer ==> self.lock_readers == 0
        &&& self.flag == self.phase.flag_raised()
        // After the barrier nobody is about to enter the fast path,
        // and after the drain nobody is on it.
        &&& self.phase.synced() ==> count_where(self.contexts, entering_fast()) == 0
        &&& self.phase.drained() ==> self.fast_count() == 0
        // Every admitted call observes the current implementation.
        &&& forall|i: int|
            0 <= i < self.contexts.len() && is_active(#[trigger] self.contexts[i])
                ==> self.observed[i] == self.generation
        &&& self.incoming.is_some() == self.phase.has_incoming()
        &&& self.next_loader.is_some() == self.phase.has_next_loader()
        &&& self.outgoing.is_some() == (self.phase == SwapPhase::Published)
        // Generations are reclaimed once each, in order, up to the one
        // that awaits disposal.
        &&& self.reclaimed.len() == if self.phase == SwapPhase::Published {
            self.generation - 1
        } else {
            self.generation as int
        }
        &&& self.phase == SwapPhase::Published ==> self.generation >= 1
        &&& self.phase == SwapPhase::Idle ==> !self.keep_shared
        &&& forall|i: int| 0 <= i < self.reclaimed.len() ==> #[trigger] self.reclaimed[i] == i
    }

    /// The state after context `i` leaves its call.
    pub open spec fn after_exit(self, i: int) -> Self {
        let c = self.contexts[i];
        let cpu = cpu_of(c);
        ProxyView {
            contexts: self.contexts.update(i, CallState::Idle),
            counts: if is_fast_active(c) {
                self.counts.update(cpu, (self.counts[cpu] - 1) as usize)
            } else {
                self.counts
            },
            lock_readers: if is_slow_active(c) {
                (self.lock_readers - 1) as nat
            } else {
                self.lock_readers
            },
            ..self
        }
    }

    /// The state after a swap is abandoned before publishing: the old
    /// implementation stays, and the swap's locks and flag are released.
    pub open spec fn abandoned(self) -> Self {
        ProxyView {
            incoming: None,
            next_loader: None,
            keep_shared: false,
            flag: false,
            lock_writer: false,
            phase: SwapPhase::Idle,
            ..self
        }
    }

    /// No call is admitted or about to be counted on the fast path.
    pub open spec fn quiescent(self) -> bool {
        forall|i: int|
            0 <= i < self.contexts.len() ==> !is_active(#[trigger] self.contexts[i])
                && !is_entering_fast(self.contexts[i])
    }
}

} // verus!
