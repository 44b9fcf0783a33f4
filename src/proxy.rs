use vstd::prelude::*;

use crate::counter::PerCpuCounter;
use crate::error::{AlienError, AlienResult};
use crate::interface::{Basic, DeviceBase};
use crate::slot::DomainSlot;
use crate::rvec::{lend_to_callee, SharedData};
use crate::state::{
    count_where, entering_fast, fast, fast_on, is_active, is_entering_fast, is_fast_active,
    is_fast_active_on, is_recoverable_active, is_slow_active, lemma_count_bound,
    lemma_count_le_len, lemma_count_none, lemma_count_update, lemma_count_zero, slow, CallState,
    FreeShared, Path, ProxyView, SwapPhase,
};

verus! {

/// Initialisation of a domain implementation: with the saved argument when
/// the proxy holds one, with none otherwise.
pub trait DomainInit<A> {
    /// `r` is what initialising this implementation with `arg` may return;
    /// each implementation says what that is.
    spec fn inited_with(&self, arg: Option<A>, r: AlienResult<()>) -> bool;

    fn init(&self, arg: Option<&A>) -> (r: AlienResult<()>)
        ensures
            self.inited_with(
                match arg {
                    Some(a) => Some(*a),
                    None => None,
                },
                r,
            ),
    ;
}

/// A shared handle initialises the implementation it points to.
impl<A, T: DomainInit<A>> DomainInit<A> for std::sync::Arc<T> {
    open spec fn inited_with(&self, arg: Option<A>, r: AlienResult<()>) -> bool {
        (**self).inited_with(arg, r)
    }

    fn init(&self, arg: Option<&A>) -> (r: AlienResult<()>) {
        (**self).init(arg)
    }
}

/// How a call into the domain ended.
pub enum CallOutcome<T> {
    /// The callee returned this result.
    Returned(AlienResult<T>),
    /// The callee faulted and the fault handler resumed at the continuation.
    Faulted,
}

/// What the caller of a recoverable or ordinary call receives.
pub open spec fn contained<T>(outcome: CallOutcome<T>) -> AlienResult<T> {
    match outcome {
        CallOutcome::Returned(r) => r,
        CallOutcome::Faulted => Err(AlienError::DomainCrash),
    }
}

/// An old implementation taken out of service, to be reclaimed once.
pub struct Disposal<D> {
    pub domain: D,
    pub domain_id: u64,
    pub policy: FreeShared,
}

/// One for true, zero for false.
pub open spec fn ind(b: bool) -> int {
    if b {
        1
    } else {
        0
    }
}

/// The effect on every count of changing context `i` to `x`.
proof fn lemma_update_counts(s: Seq<CallState>, i: int, x: CallState)
    requires
        0 <= i < s.len(),
    ensures
        forall|k: usize|
            #[trigger] count_where(s.update(i, x), fast_on(k)) == count_where(s, fast_on(k)) - ind(
                is_fast_active_on(s[i], k),
            ) + ind(is_fast_active_on(x, k)),
        count_where(s.update(i, x), fast()) == count_where(s, fast()) - ind(is_fast_active(s[i]))
            + ind(is_fast_active(x)),
        count_where(s.update(i, x), slow()) == count_where(s, slow()) - ind(is_slow_active(s[i]))
            + ind(is_slow_active(x)),
        count_where(s.update(i, x), entering_fast()) == count_where(s, entering_fast()) - ind(
            is_entering_fast(s[i]),
        ) + ind(is_entering_fast(x)),
{
    assert forall|k: usize|
        #[trigger] count_where(s.update(i, x), fast_on(k)) == count_where(s, fast_on(k)) - ind(
            is_fast_active_on(s[i], k),
        ) + ind(is_fast_active_on(x, k)) by {
        lemma_count_update(s, fast_on(k), i, x);
    }
    lemma_count_update(s, fast(), i, x);
    lemma_count_update(s, slow(), i, x);
    lemma_count_update(s, entering_fast(), i, x);
}

/// A proxy in front of one replaceable domain implementation `D`, with the
/// loader descriptor `L` and the saved initialisation argument `R`.
///
/// Every call and every stage of a hot swap is one step on the proxy; the
/// steps of concurrent callers and of one swap may interleave in any order,
/// and each step preserves [`ProxyView::inv`].
pub struct DomainProxy<D, L, R> {
    slot: DomainSlot<D>,
    flag: bool,
    counter: PerCpuCounter,
    lock_readers: usize,
    lock_writer: bool,
    contexts: Vec<CallState>,
    observed: Ghost<Seq<nat>>,
    loader: L,
    resource: Option<R>,
    phase: SwapPhase,
    incoming: Option<D>,
    next_loader: Option<L>,
    keep_shared: bool,
    outgoing: Option<D>,
    reclaimed: Ghost<Seq<nat>>,
}

impl<D, L, R> View for DomainProxy<D, L, R> {
    type V = ProxyView<D, L, R>;

    closed spec fn view(&self) -> ProxyView<D, L, R> {
        ProxyView {
            domain: self.slot.value(),
            generation: self.slot.generation(),
            flag: self.flag,
            counts: self.counter@,
            lock_readers: self.lock_readers as nat,
            lock_writer: self.lock_writer,
            contexts: self.contexts@,
            observed: self.observed@,
            loader: self.loader,
            resource: self.resource,
            phase: self.phase,
            incoming: self.incoming,
            next_loader: self.next_loader,
            keep_shared: self.keep_shared,
            outgoing: self.outgoing,
            reclaimed: self.reclaimed@,
        }
    }
}

impl<D, L, R> DomainProxy<D, L, R> {
    pub open spec fn wf(&self) -> bool {
        self@.inv()
    }

    /// A proxy serving `domain`, with `cpus` processors and `contexts`
    /// execution contexts that may call into it.
    pub fn new(domain: D, domain_loader: L, cpus: usize, contexts: usize) -> (r:
        Self)
        ensures
            r.wf(),
            r@.domain == domain,
            r@.loader == domain_loader,
            r@.generation == 0,
            r@.cpus() == cpus,
            r@.contexts.len() == contexts,
            forall|i: int| 0 <= i < contexts ==> #[trigger] r@.contexts[i] == CallState::Idle,
            r@.resource.is_none(),
            r@.phase == SwapPhase::Idle,
            !r@.flag,
            r@.reclaimed.len() == 0,
    {
        let counter = PerCpuCounter::new(cpus);
        let mut ctxs: Vec<CallState> = Vec::new();
        let mut i: usize = 0;
        while i < contexts
            invariant
                i <= contexts,
                ctxs@.len() == i,
                forall|j: int| 0 <= j < i ==> #[trigger] ctxs@[j] == CallState::Idle,
            decreases contexts - i,
        {
            ctxs.push(CallState::Idle);
            i = i + 1;
        }
        let r = DomainProxy {
            slot: DomainSlot::new(domain),
            flag: false,
            counter,
            lock_readers: 0,
            lock_writer: false,
            contexts: ctxs,
            observed: Ghost(Seq::new(contexts as nat, |j: int| 0nat)),
            loader: domain_loader,
            resource: None,
            phase: SwapPhase::Idle,
            incoming: None,
            next_loader: None,
            keep_shared: false,
            outgoing: None,
            reclaimed: Ghost(Seq::empty()),
        };
        proof {
            let s = r@.contexts;
            assert forall|k: usize| k < r@.cpus() implies #[trigger] r@.counts[k as int] == count_where(
                s,
                fast_on(k),
            ) by {
                lemma_count_none(s, fast_on(k));
            }
            lemma_count_none(s, fast());
            lemma_count_none(s, slow());
            lemma_count_none(s, entering_fast());
        }
        r
    }

    /// The number of callers currently admitted on the fast path, summed
    /// over all processors.
    pub fn all_counter(&self) -> (r: usize)
        requires
            self.wf(),
        ensures
            r == self@.fast_count(),
    {
        proof {
            lemma_count_le_len(self@.contexts, fast());
        }
        self.counter.all()
    }

    /// Context `ctx`, running on processor `cpu`, starts a call: it samples
    /// the swap flag once and so chooses its admission path.
    pub fn enter_call(&mut self, ctx: usize, cpu: usize, recoverable: bool)
        requires
            old(self).wf(),
            ctx < old(self)@.contexts.len(),
            old(self)@.contexts[ctx as int] == CallState::Idle,
            cpu < old(self)@.cpus(),
        ensures
            final(self).wf(),
            final(self)@ == (ProxyView {
                contexts: old(self)@.contexts.update(
                    ctx as int,
                    CallState::Entering {
                        cpu,
                        path: if old(self)@.flag {
                            Path::Slow
                        } else {
                            Path::Fast
                        },
                        recoverable,
                    },
                ),
                ..old(self)@
            }),
    {
        let path = if self.flag {
            Path::Slow
        } else {
            Path::Fast
        };
        let x = CallState::Entering { cpu, path, recoverable };
        proof {
            lemma_update_counts(self.contexts@, ctx as int, x);
        }
        self.contexts.set(ctx, x);
    }

    /// Admits context `ctx`. The fast path always admits: it counts the
    /// caller on its processor. The slow path admits only while no swap holds
    /// the write side of the lock; otherwise nothing changes and the caller
    /// tries again. An admitted caller observes the current implementation.
    pub fn try_enter(&mut self, ctx: usize) -> (r: bool)
        requires
            old(self).wf(),
            ctx < old(self)@.contexts.len(),
            old(self)@.contexts[ctx as int] is Entering,
        ensures
            final(self).wf(),
            ({
                let c = old(self)@.contexts[ctx as int];
                let cpu = c->Entering_cpu;
                let path = c->Entering_path;
                let recoverable = c->Entering_recoverable;
                &&& r == (path == Path::Fast || !old(self)@.lock_writer)
                &&& !r ==> final(self)@ == old(self)@
                &&& r ==> final(self)@ == (ProxyView {
                    contexts: old(self)@.contexts.update(
                        ctx as int,
                        CallState::Active { cpu, path, recoverable },
                    ),
                    observed: old(self)@.observed.update(ctx as int, old(self)@.generation),
                    counts: if path == Path::Fast {
                        old(self)@.counts.update(cpu as int, (old(self)@.counts[cpu as int] + 1) as usize)
                    } else {
                        old(self)@.counts
                    },
                    lock_readers: if path == Path::Slow {
                        old(self)@.lock_readers + 1
                    } else {
                        old(self)@.lock_readers
                    },
                    ..old(self)@
                })
            }),
    {
        let c = self.contexts[ctx];
        match c {
            CallState::Entering { cpu, path, recoverable } => {
                let x = CallState::Active { cpu, path, recoverable };
                proof {
                    lemma_update_counts(self.contexts@, ctx as int, x);
                }
                match path {
                    Path::Fast => {
                        proof {
                            lemma_count_bound(self.contexts@, fast(), ctx as int);
                        }
                        self.counter.inc(cpu);
                    },
                    Path::Slow => {
                        if self.lock_writer {
                            return false;
                        }
                        proof {
                            lemma_count_bound(self.contexts@, slow(), ctx as int);
                        }
                        self.lock_readers = self.lock_readers + 1;
                    },
                }
                self.contexts.set(ctx, x);
                self.observed = Ghost(self.observed@.update(ctx as int, self.slot.generation()));
                proof {
                    let v = self@;
                    assert forall|k: usize| k < v.cpus() implies #[trigger] v.counts[k as int]
                        == count_where(v.contexts, fast_on(k)) by {
                        assert(count_where(v.contexts, fast_on(k)) == count_where(
                            old(self)@.contexts,
                            fast_on(k),
                        ) - ind(is_fast_active_on(c, k)) + ind(
                            is_fast_active_on(x, k),
                        ));
                        assert(old(self)@.counts[k as int] == count_where(
                            old(self)@.contexts,
                            fast_on(k),
                        ));
                    }
                }
                true
            },
            _ => false,
        }
    }

    /// The implementation that admitted context `ctx` calls: always the
    /// current one, the one it observed at admission.
    pub fn domain_for(&self, ctx: usize) -> (r: &D)
        requires
            self.wf(),
            ctx < self@.contexts.len(),
            self@.contexts[ctx as int] is Active,
        ensures
            *r == self@.domain,
            self@.observed[ctx as int] == self@.generation,
    {
        self.slot.get()
    }

    /// Whether a fault in context `ctx` resumes at a registered continuation
    /// (true) or is fatal (false): a continuation is registered exactly while
    /// the context is in a recoverable call.
    pub fn fault_redirect(&self, ctx: usize) -> (r: bool)
        requires
            ctx < self@.contexts.len(),
        ensures
            r == is_recoverable_active(self@.contexts[ctx as int]),
    {
        match self.contexts[ctx] {
            CallState::Active { recoverable, .. } => recoverable,
            _ => false,
        }
    }

    /// Ends the call of context `ctx`: releases its admission, drops its
    /// continuation, and hands back what the callee returned, or the
    /// domain-crashed error if it faulted. The proxy's state afterwards does
    /// not depend on how the call ended.
    pub fn finish_call<T>(&mut self, ctx: usize, outcome: CallOutcome<T>) -> (r: AlienResult<T>)
        requires
            old(self).wf(),
            ctx < old(self)@.contexts.len(),
            old(self)@.contexts[ctx as int] is Active,
            outcome is Faulted ==> is_recoverable_active(old(self)@.contexts[ctx as int]),
        ensures
            final(self).wf(),
            r == contained(outcome),
            final(self)@ == old(self)@.after_exit(ctx as int),
    {
        let c = self.contexts[ctx];
        match c {
            CallState::Active { cpu, path, .. } => {
                proof {
                    lemma_update_counts(self.contexts@, ctx as int, CallState::Idle);
                }
                proof {
                    let k = cpu;
                    assert(count_where(self.contexts@.update(ctx as int, CallState::Idle), fast_on(k))
                        == count_where(self.contexts@, fast_on(k)) - ind(
                        is_fast_active_on(c, k),
                    ) + ind(is_fast_active_on(CallState::Idle, k)));
                    assert(self.counter@[cpu as int] == count_where(self.contexts@, fast_on(cpu)));
                }
                match path {
                    Path::Fast => {
                        self.counter.dec(cpu);
                    },
                    Path::Slow => {
                        self.lock_readers = self.lock_readers - 1;
                    },
                }
                self.contexts.set(ctx, CallState::Idle);
                proof {
                    let v = self@;
                    assert forall|k: usize| k < v.cpus() implies #[trigger] v.counts[k as int]
                        == count_where(v.contexts, fast_on(k)) by {
                        assert(count_where(v.contexts, fast_on(k)) == count_where(
                            old(self)@.contexts,
                            fast_on(k),
                        ) - ind(is_fast_active_on(c, k)) + ind(
                            is_fast_active_on(CallState::Idle, k),
                        ));
                    }
                }
            },
            _ => {},
        }
        match outcome {
            CallOutcome::Returned(r) => r,
            CallOutcome::Faulted => Err(AlienError::DomainCrash),
        }
    }

    /// Stage one of a swap: takes the loader mutex for `new_domain` and
    /// `new_loader`. With `keep_shared` the old
    /// domain's shared regions are kept for the new one when it is reclaimed.
    /// While another swap holds the mutex nothing changes and the arguments
    /// come back.
    pub fn begin_replace(&mut self, new_domain: D, new_loader: L, keep_shared: bool) -> (r:
        Result<(), (D, L)>)
        requires
            old(self).wf(),
        ensures
            final(self).wf(),
            r is Ok <==> old(self)@.phase == SwapPhase::Idle,
            r is Ok ==> final(self)@ == (ProxyView {
                phase: SwapPhase::Locked,
                incoming: Some(new_domain),
                next_loader: Some(new_loader),
                keep_shared,
                ..old(self)@
            }),
            r is Err ==> final(self)@ == old(self)@ && r == Err::<(), (D, L)>((new_domain, new_loader)),
    {
        if self.phase != SwapPhase::Idle {
            return Err((new_domain, new_loader));
        }
        self.phase = SwapPhase::Locked;
        self.incoming = Some(new_domain);
        self.next_loader = Some(new_loader);
        self.keep_shared = keep_shared;
        Ok(())
    }

    /// Stage two begins: takes the write side of the admission lock, which
    /// succeeds once no caller holds its shared side.
    pub fn acquire_write(&mut self) -> (r: bool)
        requires
            old(self).wf(),
            old(self)@.phase == SwapPhase::Locked,
        ensures
            final(self).wf(),
            r == (old(self)@.lock_readers == 0),
            r ==> final(self)@ == (ProxyView {
                phase: SwapPhase::WriteLocked,
                lock_writer: true,
                ..old(self)@
            }),
            !r ==> final(self)@ == old(self)@,
    {
        if self.lock_readers != 0 {
            return false;
        }
        self.lock_writer = true;
        self.phase = SwapPhase::WriteLocked;
        true
    }

    /// Raises the swap flag: callers that sample it from now on take the
    /// slow path.
    pub fn raise_flag(&mut self)
        requires
            old(self).wf(),
            old(self)@.phase == SwapPhase::WriteLocked,
        ensures
            final(self).wf(),
            final(self)@ == (ProxyView { phase: SwapPhase::Flagged, flag: true, ..old(self)@ }),
    {
        self.flag = true;
        self.phase = SwapPhase::Flagged;
    }

    /// Whether no context has sampled a clear flag without yet being
    /// counted on its processor.
    fn no_fast_entry(&self) -> (r: bool)
        ensures
            r == (count_where(self@.contexts, entering_fast()) == 0),
    {
        let mut i: usize = 0;
        while i < self.contexts.len()
            invariant
                i <= self@.contexts.len(),
                forall|j: int| 0 <= j < i ==> !is_entering_fast(#[trigger] self@.contexts[j]),
            decreases self@.contexts.len() - i,
        {
            match self.contexts[i] {
                CallState::Entering { path: Path::Fast, .. } => {
                    proof {
                        if count_where(self@.contexts, entering_fast()) == 0 {
                            lemma_count_zero(self@.contexts, entering_fast(), i as int);
                        }
                    }
                    return false;
                },
                _ => {},
            }
            i = i + 1;
        }
        proof {
            lemma_count_none(self@.contexts, entering_fast());
        }
        true
    }

    /// The cross-processor barrier after the flag is raised: it completes
    /// once every caller that sampled the clear flag has been counted, so
    /// that from then on the counters see every fast-path caller.
    pub fn sync_cpus(&mut self) -> (r: bool)
        requires
            old(self).wf(),
            old(self)@.phase == SwapPhase::Flagged,
        ensures
            final(self).wf(),
            r == (count_where(old(self)@.contexts, entering_fast()) == 0),
            r ==> final(self)@ == (ProxyView { phase: SwapPhase::Synced, ..old(self)@ }),
            !r ==> final(self)@ == old(self)@,
    {
        if !self.no_fast_entry() {
            return false;
        }
        self.phase = SwapPhase::Synced;
        true
    }

    /// Ends stage two once the per-processor counters sum to zero: no caller
    /// remains on the fast path.
    pub fn try_drain(&mut self) -> (r: bool)
        requires
            old(self).wf(),
            old(self)@.phase == SwapPhase::Synced,
        ensures
            final(self).wf(),
            r == (old(self)@.fast_count() == 0),
            r ==> final(self)@ == (ProxyView { phase: SwapPhase::Drained, ..old(self)@ }),
            !r ==> final(self)@ == old(self)@,
    {
        if self.all_counter() != 0 {
            return false;
        }
        self.phase = SwapPhase::Drained;
        true
    }

    /// Stage three, given what the incoming implementation's `init` returned:
    /// on success the swap goes on; on failure it is abandoned before
    /// anything is published, the old implementation stays current, every
    /// lock is released, and the error comes back.
    pub fn finish_reinit(&mut self, init_result: AlienResult<()>) -> (r: AlienResult<()>)
        requires
            old(self).wf(),
            old(self)@.phase == SwapPhase::Drained,
        ensures
            final(self).wf(),
            r == init_result,
            r is Ok ==> final(self)@ == (ProxyView { phase: SwapPhase::Initialized, ..old(self)@ }),
            r is Err ==> final(self)@ == old(self)@.abandoned(),
    {
        if init_result.is_ok() {
            self.phase = SwapPhase::Initialized;
        } else {
            self.incoming = None;
            self.next_loader = None;
            self.keep_shared = false;
            self.flag = false;
            self.lock_writer = false;
            self.phase = SwapPhase::Idle;
        }
        init_result
    }

    /// Stage four: the initialised implementation becomes current and the
    /// fast path reopens. No call is in progress at this point, so none can
    /// see the implementation change under it.
    pub fn publish(&mut self)
        requires
            old(self).wf(),
            old(self)@.phase == SwapPhase::Initialized,
        ensures
            final(self).wf(),
            final(self)@ == (ProxyView {
                domain: old(self)@.incoming.unwrap(),
                generation: old(self)@.generation + 1,
                flag: false,
                phase: SwapPhase::Published,
                incoming: None,
                outgoing: Some(old(self)@.domain),
                ..old(self)@
            }),
    {
        proof {
            let s = self@.contexts;
            assert forall|i: int| 0 <= i < s.len() implies !is_active(#[trigger] s[i]) by {
                lemma_count_zero(s, fast(), i);
                lemma_count_zero(s, slow(), i);
            }
        }
        let incoming = self.incoming.take();
        match incoming {
            Some(new_domain) => {
                let old_domain = self.slot.update(new_domain);
                self.outgoing = Some(old_domain);
            },
            None => {},
        }
        self.flag = false;
        self.phase = SwapPhase::Published;
    }

    /// Stage six: stores the new loader descriptor and releases the write
    /// side of the lock and the loader mutex.
    pub fn release(&mut self)
        requires
            old(self).wf(),
            old(self)@.phase == SwapPhase::Disposed,
        ensures
            final(self).wf(),
            final(self)@ == (ProxyView {
                loader: old(self)@.next_loader.unwrap(),
                next_loader: None,
                keep_shared: false,
                lock_writer: false,
                phase: SwapPhase::Idle,
                ..old(self)@
            }),
    {
        let next = self.next_loader.take();
        match next {
            Some(l) => {
                self.loader = l;
            },
            None => {},
        }
        self.keep_shared = false;
        self.lock_writer = false;
        self.phase = SwapPhase::Idle;
    }

    /// The stage the swap in progress has reached.
    pub fn phase(&self) -> (r: SwapPhase)
        ensures
            r == self@.phase,
    {
        self.phase
    }

    /// Whether new callers are sent to the slow path.
    pub fn swap_in_progress(&self) -> (r: bool)
        ensures
            r == self@.flag,
    {
        self.flag
    }

    /// Where context `ctx` stands in a call.
    pub fn call_state(&self, ctx: usize) -> (r: CallState)
        requires
            ctx < self@.contexts.len(),
        ensures
            r == self@.contexts[ctx as int],
    {
        self.contexts[ctx]
    }

    /// A snapshot of the loader descriptor in force.
    pub fn domain_loader(&self) -> (r: &L)
        ensures
            *r == self@.loader,
    {
        &self.loader
    }

    /// The saved initialisation argument, if the proxy holds one.
    pub fn resource(&self) -> (r: Option<&R>)
        ensures
            r == match self@.resource {
                Some(a) => Some(&a),
                None => None::<&R>,
            },
    {
        self.resource.as_ref()
    }

    /// The current implementation, for `init`, which needs no admission.
    pub fn current(&self) -> (r: &D)
        ensures
            *r == self@.domain,
    {
        self.slot.get()
    }

    /// Records a first initialisation, given what `init` returned for
    /// `argv`: on success `argv` becomes the saved argument unless one is
    /// saved already, which then stays as it is; on failure nothing changes.
    pub fn finish_init(&mut self, argv: R, init_result: AlienResult<()>) -> (r: AlienResult<()>)
        requires
            old(self).wf(),
        ensures
            final(self).wf(),
            r == init_result,
            old(self)@.resource is Some ==> final(self)@.resource == old(self)@.resource,
            r is Ok ==> final(self)@ == (ProxyView {
                resource: if old(self)@.resource is None {
                    Some(argv)
                } else {
                    old(self)@.resource
                },
                ..old(self)@
            }),
            r is Err ==> final(self)@ == old(self)@,
    {
        if init_result.is_ok() && self.resource.is_none() {
            self.resource = Some(argv);
        }
        init_result
    }

    /// One whole call by context `ctx` on processor `cpu`: admission, `op`
    /// on the current implementation, release. If the slow path cannot be
    /// admitted because a swap holds the lock, nothing is called, the proxy
    /// is left as it was, and `None` tells the caller to try again. A fault
    /// is allowed only in a recoverable call, and comes back as the
    /// domain-crashed error.
    pub fn dispatch<T, F: FnOnce(&D) -> CallOutcome<T>>(
        &mut self,
        ctx: usize,
        cpu: usize,
        recoverable: bool,
        op: F,
    ) -> (r: Option<AlienResult<T>>)
        requires
            old(self).wf(),
            ctx < old(self)@.contexts.len(),
            old(self)@.contexts[ctx as int] == CallState::Idle,
            cpu < old(self)@.cpus(),
            op.requires((&old(self)@.domain,)),
            forall|o: CallOutcome<T>|
                op.ensures((&old(self)@.domain,), o) ==> (o is Faulted ==> recoverable),
        ensures
            final(self).wf(),
            r is None <==> (old(self)@.flag && old(self)@.lock_writer),
            r is Some ==> exists|o: CallOutcome<T>|
                op.ensures((&old(self)@.domain,), o) && r == Some(contained(o)),
            final(self)@ == (ProxyView { observed: final(self)@.observed, ..old(self)@ }),
    {
        self.enter_call(ctx, cpu, recoverable);
        let admitted = self.try_enter(ctx);
        if !admitted {
            proof {
                lemma_update_counts(self.contexts@, ctx as int, CallState::Idle);
            }
            self.contexts.set(ctx, CallState::Idle);
            proof {
                let v = self@;
                assert(v.contexts =~= old(self)@.contexts);
            }
            return None;
        }
        let outcome = self.slot.read_directly(op);
        let r = self.finish_call(ctx, outcome);
        proof {
            let v = self@;
            assert(v.contexts =~= old(self)@.contexts);
            assert(v.counts =~= old(self)@.counts);
        }
        Some(r)
    }

}

impl<D: Basic, L, R> DomainProxy<D, L, R> {
    /// Stage five: hands the old implementation over for reclamation, with
    /// its identity and the policy for its shared regions. It is handed over
    /// once, and never the current one.
    pub fn dispose(&mut self) -> (r: Disposal<D>)
        requires
            old(self).wf(),
            old(self)@.phase == SwapPhase::Published,
        ensures
            final(self).wf(),
            r.domain == old(self)@.outgoing.unwrap(),
            r.domain_id == old(self)@.outgoing.unwrap().id(),
            r.policy == (if old(self)@.keep_shared {
                FreeShared::PreserveSharedWith(old(self)@.domain.id())
            } else {
                FreeShared::FreeAll
            }),
            final(self)@ == (ProxyView {
                phase: SwapPhase::Disposed,
                outgoing: None,
                reclaimed: old(self)@.reclaimed.push((old(self)@.generation - 1) as nat),
                ..old(self)@
            }),
    {
        let policy = if self.keep_shared {
            FreeShared::PreserveSharedWith(self.slot.get().domain_id())
        } else {
            FreeShared::FreeAll
        };
        let outgoing = self.outgoing.take();
        self.reclaimed = Ghost(self.reclaimed@.push((self.slot.generation() - 1) as nat));
        self.phase = SwapPhase::Disposed;
        match outgoing {
            Some(domain) => {
                let domain_id = domain.domain_id();
                Disposal { domain, domain_id, policy }
            },
            None => vstd::pervasive::unreached(),
        }
    }

    /// Hands `arg` to the current implementation for a call by the admitted
    /// context `ctx`, and returns the identity of its previous owner, to
    /// give the result back to with `return_to_caller`.
    pub fn lend_for<A: SharedData>(&self, ctx: usize, arg: &mut A) -> (caller_id: u64)
        requires
            self.wf(),
            ctx < self@.contexts.len(),
            self@.contexts[ctx as int] is Active,
        ensures
            caller_id == old(arg).owner(),
            final(arg).owner() == self@.domain.id(),
    {
        lend_to_callee(arg, self.slot.get().domain_id())
    }

    /// One whole call that passes `arg` across the domain boundary: once
    /// admitted, `arg` is handed to the current implementation for the call
    /// and given back to its previous owner when the call ends, however it
    /// ends. Otherwise as [`DomainProxy::dispatch`]; when the caller is not
    /// admitted `arg` comes back untouched.
    pub fn dispatch_relocated<A: SharedData, T, F: FnOnce(&D, A) -> (A, CallOutcome<T>)>(
        &mut self,
        ctx: usize,
        cpu: usize,
        recoverable: bool,
        arg: A,
        op: F,
    ) -> (r: (A, Option<AlienResult<T>>))
        requires
            old(self).wf(),
            ctx < old(self)@.contexts.len(),
            old(self)@.contexts[ctx as int] == CallState::Idle,
            cpu < old(self)@.cpus(),
            forall|a: A| op.requires((&old(self)@.domain, a)),
            forall|a: A, res: (A, CallOutcome<T>)|
                op.ensures((&old(self)@.domain, a), res) ==> (res.1 is Faulted ==> recoverable),
        ensures
            final(self).wf(),
            r.1 is None <==> (old(self)@.flag && old(self)@.lock_writer),
            r.1 is None ==> r.0 == arg,
            r.0.owner() == arg.owner(),
            r.1 is Some ==> exists|a: A, res: (A, CallOutcome<T>)|
                a.owner() == old(self)@.domain.id() && op.ensures((&old(self)@.domain, a), res)
                    && r.1 == Some(contained(res.1)),
            final(self)@ == (ProxyView { observed: final(self)@.observed, ..old(self)@ }),
    {
        self.enter_call(ctx, cpu, recoverable);
        let admitted = self.try_enter(ctx);
        if !admitted {
            proof {
                lemma_update_counts(self.contexts@, ctx as int, CallState::Idle);
            }
            self.contexts.set(ctx, CallState::Idle);
            proof {
                assert(self@.contexts =~= old(self)@.contexts);
            }
            return (arg, None);
        }
        let mut lent = arg;
        let caller_id = self.lend_for(ctx, &mut lent);
        let (mut back, outcome) = op(self.slot.get(), lent);
        back.move_to(caller_id);
        let r = self.finish_call(ctx, outcome);
        proof {
            assert(self@.contexts =~= old(self)@.contexts);
            assert(self@.counts =~= old(self)@.counts);
        }
        (back, Some(r))
    }
}

impl<D: DomainInit<R> + Basic, L, R> DomainProxy<D, L, R> {
    /// Initialises the current implementation with `argv`, bypassing
    /// admission, and saves `argv` for later swaps as
    /// [`DomainProxy::finish_init`] says.
    pub fn init_by_box(&mut self, argv: R) -> (r: AlienResult<()>)
        requires
            old(self).wf(),
        ensures
            final(self).wf(),
            old(self)@.domain.inited_with(Some(argv), r),
            r is Ok ==> final(self)@ == (ProxyView {
                resource: if old(self)@.resource is None {
                    Some(argv)
                } else {
                    old(self)@.resource
                },
                ..old(self)@
            }),
            r is Err ==> final(self)@ == old(self)@,
    {
        let res = self.slot.get().init(Some(&argv));
        self.finish_init(argv, res)
    }

    /// Stage three: initialises the incoming implementation with the saved
    /// argument, or with none if there is none, before any caller can see
    /// it; see [`DomainProxy::finish_reinit`] for either outcome.
    pub fn reinit(&mut self) -> (r: AlienResult<()>)
        requires
            old(self).wf(),
            old(self)@.phase == SwapPhase::Drained,
        ensures
            final(self).wf(),
            old(self)@.incoming.unwrap().inited_with(old(self)@.resource, r),
            r is Ok ==> final(self)@ == (ProxyView { phase: SwapPhase::Initialized, ..old(self)@ }),
            r is Err ==> final(self)@ == old(self)@.abandoned(),
    {
        let res = match &self.incoming {
            Some(d) => d.init(self.resource.as_ref()),
            None => Ok(()),
        };
        self.finish_reinit(res)
    }

    /// The whole swap on a proxy with no call in progress: every stage runs
    /// in order, and none has to wait. On success `new_domain` is current,
    /// `new_loader` is stored, and the old implementation comes back for
    /// reclamation; `new_domain` was initialised with the saved argument, or
    /// with none, and an error is the one its `init` returned, in which case
    /// the proxy is left exactly as it was.
    ///
    /// With calls in flight, or behind another swap, the same swap is the
    /// run of stages [`DomainProxy::begin_replace`], `acquire_write`,
    /// `raise_flag`, `sync_cpus`, `try_drain`, `reinit`, `publish`,
    /// `dispose` and `release`, each retried after the others' steps while
    /// it reports that it has to wait. Every stage and every caller's step
    /// keeps the invariant, so what [`crate::laws`] states holds in each
    /// interleaving.
    pub fn replace(&mut self, new_domain: D, new_loader: L, keep_shared: bool) -> (r:
        Result<Disposal<D>, AlienError>)
        requires
            old(self).wf(),
            old(self)@.phase == SwapPhase::Idle,
            old(self)@.quiescent(),
        ensures
            final(self).wf(),
            final(self)@.resource == old(self)@.resource,
            new_domain.inited_with(
                old(self)@.resource,
                match r {
                    Ok(_) => Ok(()),
                    Err(e) => Err(e),
                },
            ),
            r is Err ==> final(self)@ == old(self)@,
            r is Ok ==> final(self)@ == (ProxyView {
                domain: new_domain,
                generation: old(self)@.generation + 1,
                loader: new_loader,
                reclaimed: old(self)@.reclaimed.push(old(self)@.generation),
                ..old(self)@
            }),
            r is Ok ==> r->Ok_0.domain == old(self)@.domain && r->Ok_0.domain_id
                == old(self)@.domain.id() && r->Ok_0.policy == (if keep_shared {
                FreeShared::PreserveSharedWith(new_domain.id())
            } else {
                FreeShared::FreeAll
            }),
    {
        proof {
            let s = self@.contexts;
            lemma_count_none(s, slow());
            lemma_count_none(s, fast());
            lemma_count_none(s, entering_fast());
        }
        let begun = self.begin_replace(new_domain, new_loader, keep_shared);
        match begun {
            Ok(()) => {},
            Err(_) => {
                return vstd::pervasive::unreached();
            },
        }
        self.acquire_write();
        self.raise_flag();
        self.sync_cpus();
        self.try_drain();
        let init = self.reinit();
        match init {
            Ok(u) => {
                // The unit value `init` gave is the one the contract names.
                assert(u == ());
            },
            Err(e) => {
                return Err(e);
            },
        }
        self.publish();
        let disposal = self.dispose();
        self.release();
        Ok(disposal)
    }
}

impl<D: Basic, L, R> Basic for DomainProxy<D, L, R> {
    /// The identity of the current implementation.
    open spec fn id(&self) -> u64 {
        self@.domain.id()
    }

    /// Asks the current implementation for its identity. The slot changes
    /// only in a swap's `publish`, a step of its own, so this one read needs
    /// no admission.
    fn domain_id(&self) -> (r: u64) {
        self.slot.get().domain_id()
    }

    /// A proxy always answers: a crash inside the domain is contained.
    fn is_active(&self) -> (r: bool)
        ensures
            r,
    {
        true
    }
}

impl<D: DeviceBase, L, R> DomainProxy<D, L, R> {
    /// Passes an interrupt to the current implementation, admitted like any
    /// other call, by context `ctx` on processor `cpu`. When the caller is not admitted
    /// nothing is called and `None` comes back, as for `dispatch`.
    pub fn handle_irq(&mut self, ctx: usize, cpu: usize) -> (r: Option<AlienResult<()>>)
        requires
            old(self).wf(),
            ctx < old(self)@.contexts.len(),
            old(self)@.contexts[ctx as int] == CallState::Idle,
            cpu < old(self)@.cpus(),
        ensures
            final(self).wf(),
            r is None <==> (old(self)@.flag && old(self)@.lock_writer),
            r is Some ==> old(self)@.domain.irq_handled(r->Some_0),
            final(self)@ == (ProxyView { observed: final(self)@.observed, ..old(self)@ }),
    {
        let op = |d: &D| -> (o: CallOutcome<()>)
            ensures
                o is Returned && d.irq_handled(o->Returned_0),
            { CallOutcome::Returned(d.handle_irq()) };
        self.dispatch(ctx, cpu, false, op)
    }
}

} // verus!
