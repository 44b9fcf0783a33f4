use vstd::prelude::*;

use crate::error::{AlienError, AlienResult};
use crate::interface::{Basic, DeviceBase};
use crate::slot::DomainSlot;
use crate::proxy::{contained, CallOutcome, Disposal, DomainInit};
use crate::rvec::{lend_to_callee, SharedData};
use crate::state::{
    count_where, lemma_count_bound, lemma_count_none, lemma_count_update, lemma_count_zero,
    FreeShared,
};

verus! {

/// Where one execution context stands in a call through an [`RcuProxy`].
#[derive(Debug, Clone, Copy, PartialEq, Eq, Structural)]
pub enum ReadState {
    Idle,
    /// Inside a read-side section that took a token of `epoch`. `retired`
    /// once the implementation it reads has been replaced; it keeps reading
    /// that one until it leaves.
    Reading { epoch: bool, recoverable: bool, retired: bool },
}

/// The stage a hot swap through an [`RcuProxy`] has reached.
#[derive(Debug, Clone, Copy, PartialEq, Eq, Structural)]
pub enum RcuPhase {
    /// No swap; the loader mutex is free.
    Idle,
    /// The loader mutex is held.
    Locked,
    /// The incoming implementation has been initialised.
    Initialized,
    /// The incoming implementation is current; the grace period runs until
    /// every token taken before the publication is retired.
    Published,
    /// The grace period is over: nobody reads the old implementation.
    Quiescent,
    /// The old implementation has been handed to reclamation.
    Disposed,
}

impl RcuPhase {
    pub open spec fn has_outgoing(self) -> bool {
        self == RcuPhase::Published || self == RcuPhase::Quiescent
    }

    pub open spec fn has_incoming(self) -> bool {
        self == RcuPhase::Locked || self == RcuPhase::Initialized
    }
}

pub open spec fn is_reading(c: ReadState) -> bool {
    c is Reading
}

pub open spec fn is_recoverable_reading(c: ReadState) -> bool {
    match c {
        ReadState::Reading { recoverable, .. } => recoverable,
        _ => false,
    }
}

pub open spec fn is_retired(c: ReadState) -> bool {
    match c {
        ReadState::Reading { retired, .. } => retired,
        _ => false,
    }
}

pub open spec fn is_reading_in(c: ReadState, e: bool) -> bool {
    match c {
        ReadState::Reading { epoch, .. } => epoch == e,
        _ => false,
    }
}

pub open spec fn reading_in(e: bool) -> spec_fn(ReadState) -> bool {
    |c: ReadState| is_reading_in(c, e)
}

/// A read-side section after the implementation it reads is replaced.
pub open spec fn retire(c: ReadState) -> ReadState {
    match c {
        ReadState::Reading { epoch, recoverable, .. } => ReadState::Reading {
            epoch,
            recoverable,
            retired: true,
        },
        ReadState::Idle => ReadState::Idle,
    }
}

/// Every read-side section after a publication.
pub open spec fn retire_all(s: Seq<ReadState>) -> Seq<ReadState> {
    s.map_values(|c: ReadState| retire(c))
}

/// Retiring every section leaves the tokens held per epoch as they were.
proof fn lemma_retire_counts(s: Seq<ReadState>, e: bool)
    ensures
        count_where(retire_all(s), reading_in(e)) == count_where(
            s,
            reading_in(e),
        ),
    decreases s.len(),
{
    if s.len() > 0 {
        let t = retire_all(s);
        assert(t.drop_last() =~= retire_all(s.drop_last()));
        lemma_retire_counts(s.drop_last(), e);
    }
}

/// The abstract state of an RCU proxy.
pub struct RcuView<D, L, R> {
    pub domain: D,
    pub generation: nat,
    /// The epoch of the tokens handed out now.
    pub epoch: bool,
    /// Tokens held, by epoch.
    pub held_false: nat,
    pub held_true: nat,
    pub contexts: Seq<ReadState>,
    pub observed: Seq<nat>,
    pub loader: L,
    pub resource: Option<R>,
    pub phase: RcuPhase,
    pub incoming: Option<D>,
    pub next_loader: Option<L>,
    pub keep_shared: bool,
    pub outgoing: Option<D>,
    pub reclaimed: Seq<nat>,
}

impl<D, L, R> RcuView<D, L, R> {
    pub open spec fn held(self, e: bool) -> nat {
        if e {
            self.held_true
        } else {
            self.held_false
        }
    }

    /// The implementation of generation `g`: the current one, or the one it
    /// replaced while that awaits disposal.
    pub open spec fn implementation_of(self, g: nat) -> D {
        if g == self.generation {
            self.domain
        } else {
            self.outgoing.unwrap()
        }
    }

    pub open spec fn inv(self) -> bool {
        &&& self.contexts.len() == self.observed.len()
        &&& self.contexts.len() <= usize::MAX
        &&& self.held_false == count_where(self.contexts, reading_in(false))
        &&& self.held_true == count_where(self.contexts, reading_in(true))
        &&& forall|i: int|
            0 <= i < self.contexts.len() && is_reading(#[trigger] self.contexts[i]) ==> {
                if is_retired(self.contexts[i]) {
                    &&& self.phase == RcuPhase::Published
                    &&& is_reading_in(self.contexts[i], !self.epoch)
                    &&& self.observed[i] == self.generation - 1
                } else {
                    &&& is_reading_in(self.contexts[i], self.epoch)
                    &&& self.observed[i] == self.generation
                }
            }
        &&& self.phase != RcuPhase::Published ==> self.held(!self.epoch) == 0
        &&& self.outgoing.is_some() == self.phase.has_outgoing()
        &&& self.incoming.is_some() == self.phase.has_incoming()
        &&& self.next_loader.is_some() == (self.phase != RcuPhase::Idle)
        &&& self.phase == RcuPhase::Idle ==> !self.keep_shared
        &&& self.phase.has_outgoing() ==> self.generation >= 1
        &&& self.reclaimed.len() == if self.phase.has_outgoing() {
            self.generation - 1
        } else {
            self.generation as int
        }
        &&& forall|i: int| 0 <= i < self.reclaimed.len() ==> #[trigger] self.reclaimed[i] == i
    }

    /// No context is in a read-side section.
    pub open spec fn quiescent(self) -> bool {
        forall|i: int| 0 <= i < self.contexts.len() ==> !is_reading(#[trigger] self.contexts[i])
    }

    /// The state after a swap is abandoned before publishing.
    pub open spec fn abandoned(self) -> Self {
        RcuView {
            incoming: None,
            next_loader: None,
            keep_shared: false,
            phase: RcuPhase::Idle,
            ..self
        }
    }

    /// The state after context `i` leaves its read-side section.
    pub open spec fn after_exit(self, i: int) -> Self {
        let e = is_reading_in(self.contexts[i], true);
        RcuView {
            contexts: self.contexts.update(i, ReadState::Idle),
            held_true: if e {
                (self.held_true - 1) as nat
            } else {
                self.held_true
            },
            held_false: if e {
                self.held_false
            } else {
                (self.held_false - 1) as nat
            },
            ..self
        }
    }
}

/// A proxy whose callers are admitted by sleepable read-copy-update: they
/// never wait, a swap publishes the new implementation at once, and the old
/// one is reclaimed only after a grace period in which every caller that
/// may still read it has left.
pub struct RcuProxy<D, L, R> {
    slot: DomainSlot<D>,
    epoch: bool,
    held_false: usize,
    held_true: usize,
    contexts: Vec<ReadState>,
    observed: Ghost<Seq<nat>>,
    loader: L,
    resource: Option<R>,
    phase: RcuPhase,
    incoming: Option<D>,
    next_loader: Option<L>,
    keep_shared: bool,
    outgoing: Option<D>,
    reclaimed: Ghost<Seq<nat>>,
}

impl<D, L, R> View for RcuProxy<D, L, R> {
    type V = RcuView<D, L, R>;

    closed spec fn view(&self) -> RcuView<D, L, R> {
        RcuView {
            domain: self.slot.value(),
            generation: self.slot.generation(),
            epoch: self.epoch,
            held_false: self.held_false as nat,
            held_true: self.held_true as nat,
            contexts: self.contexts@,
            observed: self.observed@,
            loader: self.loader,
            resource: self.resource,
            phase: self.phase,
            incoming: self.incoming,
            next_loader: self.next_loader,
            keep_shared: self.keep_shared,
            outgoing: self.outgoing,
            reclaimed: self.reclaimed@,
        }
    }
}

impl<D, L, R> RcuProxy<D, L, R> {
    pub open spec fn wf(&self) -> bool {
        self@.inv()
    }

    /// A proxy serving `domain` to `contexts` execution contexts.
    pub fn new(domain: D, domain_loader: L, contexts: usize) -> (r: Self)
        ensures
            r.wf(),
            r@.domain == domain,
            r@.loader == domain_loader,
            r@.generation == 0,
            r@.contexts.len() == contexts,
            forall|i: int| 0 <= i < contexts ==> #[trigger] r@.contexts[i] == ReadState::Idle,
            r@.resource.is_none(),
            r@.phase == RcuPhase::Idle,
            r@.reclaimed.len() == 0,
    {
        let mut ctxs: Vec<ReadState> = Vec::new();
        let mut i: usize = 0;
        while i < contexts
            invariant
                i <= contexts,
                ctxs@.len() == i,
                forall|j: int| 0 <= j < i ==> #[trigger] ctxs@[j] == ReadState::Idle,
            decreases contexts - i,
        {
            ctxs.push(ReadState::Idle);
            i = i + 1;
        }
        proof {
            lemma_count_none(ctxs@, reading_in(false));
            lemma_count_none(ctxs@, reading_in(true));
        }
        RcuProxy {
            slot: DomainSlot::new(domain),
            epoch: false,
            held_false: 0,
            held_true: 0,
            contexts: ctxs,
            observed: Ghost(Seq::new(contexts as nat, |j: int| 0nat)),
            loader: domain_loader,
            resource: None,
            phase: RcuPhase::Idle,
            incoming: None,
            next_loader: None,
            keep_shared: false,
            outgoing: None,
            reclaimed: Ghost(Seq::empty()),
        }
    }

    /// Context `ctx` enters a read-side section with a token of the current
    /// epoch and observes the current implementation. It never waits.
    pub fn read_lock(&mut self, ctx: usize, recoverable: bool)
        requires
            old(self).wf(),
            ctx < old(self)@.contexts.len(),
            old(self)@.contexts[ctx as int] == ReadState::Idle,
        ensures
            final(self).wf(),
            final(self)@ == (RcuView {
                contexts: old(self)@.contexts.update(
                    ctx as int,
                    ReadState::Reading { epoch: old(self)@.epoch, recoverable, retired: false },
                ),
                observed: old(self)@.observed.update(ctx as int, old(self)@.generation),
                held_true: if old(self)@.epoch {
                    old(self)@.held_true + 1
                } else {
                    old(self)@.held_true
                },
                held_false: if old(self)@.epoch {
                    old(self)@.held_false
                } else {
                    old(self)@.held_false + 1
                },
                ..old(self)@
            }),
    {
        let x = ReadState::Reading { epoch: self.epoch, recoverable, retired: false };
        proof {
            lemma_count_update(self.contexts@, reading_in(true), ctx as int, x);
            lemma_count_update(self.contexts@, reading_in(false), ctx as int, x);
            lemma_count_bound(self.contexts@, reading_in(self.epoch), ctx as int);
        }
        if self.epoch {
            self.held_true = self.held_true + 1;
        } else {
            self.held_false = self.held_false + 1;
        }
        self.contexts.set(ctx, x);
        self.observed = Ghost(self.observed@.update(ctx as int, self.slot.generation()));
    }

    /// The implementation that context `ctx` reads: the one it observed when
    /// it entered, which may have been replaced since but is not yet
    /// reclaimed.
    pub fn domain_for(&self, ctx: usize) -> (r: &D)
        requires
            self.wf(),
            ctx < self@.contexts.len(),
            self@.contexts[ctx as int] is Reading,
        ensures
            *r == self@.implementation_of(self@.observed[ctx as int]),
            self@.observed[ctx as int] == self@.generation || (self@.outgoing is Some
                && self@.observed[ctx as int] == self@.generation - 1),
    {
        match self.contexts[ctx] {
            ReadState::Reading { retired: true, .. } => match &self.outgoing {
                Some(d) => d,
                None => vstd::pervasive::unreached(),
            },
            _ => self.slot.get(),
        }
    }

    /// Whether a fault in context `ctx` resumes at a registered continuation.
    pub fn fault_redirect(&self, ctx: usize) -> (r: bool)
        requires
            ctx < self@.contexts.len(),
        ensures
            r == is_recoverable_reading(self@.contexts[ctx as int]),
    {
        match self.contexts[ctx] {
            ReadState::Reading { recoverable, .. } => recoverable,
            _ => false,
        }
    }

    /// Ends the call of context `ctx`: retires its token and hands back what
    /// the callee returned, or the domain-crashed error if it faulted.
    pub fn finish_call<T>(&mut self, ctx: usize, outcome: CallOutcome<T>) -> (r: AlienResult<T>)
        requires
            old(self).wf(),
            ctx < old(self)@.contexts.len(),
            old(self)@.contexts[ctx as int] is Reading,
            outcome is Faulted ==> is_recoverable_reading(old(self)@.contexts[ctx as int]),
        ensures
            final(self).wf(),
            r == contained(outcome),
            final(self)@ == old(self)@.after_exit(ctx as int),
    {
        let c = self.contexts[ctx];
        proof {
            lemma_count_update(self.contexts@, reading_in(true), ctx as int, ReadState::Idle);
            lemma_count_update(self.contexts@, reading_in(false), ctx as int, ReadState::Idle);
        }
        match c {
            ReadState::Reading { epoch, .. } => {
                if epoch {
                    self.held_true = self.held_true - 1;
                } else {
                    self.held_false = self.held_false - 1;
                }
            },
            _ => {},
        }
        self.contexts.set(ctx, ReadState::Idle);
        match outcome {
            CallOutcome::Returned(r) => r,
            CallOutcome::Faulted => Err(AlienError::DomainCrash),
        }
    }

    /// Takes the loader mutex for a swap to `new_domain` with `new_loader`;
    /// with `keep_shared` the old domain's
    /// shared regions are kept for the new one. While another swap holds the
    /// mutex nothing changes and the arguments come back.
    pub fn begin_replace(&mut self, new_domain: D, new_loader: L, keep_shared: bool) -> (r:
        Result<(), (D, L)>)
        requires
            old(self).wf(),
        ensures
            final(self).wf(),
            r is Ok <==> old(self)@.phase == RcuPhase::Idle,
            r is Ok ==> final(self)@ == (RcuView {
                phase: RcuPhase::Locked,
                incoming: Some(new_domain),
                next_loader: Some(new_loader),
                keep_shared,
                ..old(self)@
            }),
            r is Err ==> final(self)@ == old(self)@ && r == Err::<(), (D, L)>((new_domain, new_loader)),
    {
        if self.phase != RcuPhase::Idle {
            return Err((new_domain, new_loader));
        }
        self.phase = RcuPhase::Locked;
        self.incoming = Some(new_domain);
        self.next_loader = Some(new_loader);
        self.keep_shared = keep_shared;
        Ok(())
    }

    /// Given what the incoming implementation's `init` returned: on success
    /// the swap goes on; on failure it is abandoned before anything is
    /// published, the mutex is released, and the error comes back.
    pub fn finish_reinit(&mut self, init_result: AlienResult<()>) -> (r: AlienResult<()>)
        requires
            old(self).wf(),
            old(self)@.phase == RcuPhase::Locked,
        ensures
            final(self).wf(),
            r == init_result,
            r is Ok ==> final(self)@ == (RcuView { phase: RcuPhase::Initialized, ..old(self)@ }),
            r is Err ==> final(self)@ == old(self)@.abandoned(),
    {
        if init_result.is_ok() {
            self.phase = RcuPhase::Initialized;
        } else {
            self.incoming = None;
            self.next_loader = None;
            self.keep_shared = false;
            self.phase = RcuPhase::Idle;
        }
        init_result
    }

    /// Publishes the initialised implementation and starts the grace period:
    /// callers inside a read-side section keep reading the old one, new
    /// callers read the new one, and tokens change epoch.
    pub fn publish(&mut self)
        requires
            old(self).wf(),
            old(self)@.phase == RcuPhase::Initialized,
        ensures
            final(self).wf(),
            final(self)@ == (RcuView {
                domain: old(self)@.incoming.unwrap(),
                generation: old(self)@.generation + 1,
                epoch: !old(self)@.epoch,
                contexts: retire_all(old(self)@.contexts),
                phase: RcuPhase::Published,
                incoming: None,
                outgoing: Some(old(self)@.domain),
                ..old(self)@
            }),
    {
        let ghost before = self.contexts@;
        let mut retired: Vec<ReadState> = Vec::new();
        let mut i: usize = 0;
        while i < self.contexts.len()
            invariant
                self.contexts@ == before,
                0 <= i <= before.len(),
                retired@.len() == i,
                forall|j: int| 0 <= j < i ==> #[trigger] retired@[j] == retire(before[j]),
            decreases before.len() - i,
        {
            let c = match self.contexts[i] {
                ReadState::Reading { epoch, recoverable, .. } => ReadState::Reading {
                    epoch,
                    recoverable,
                    retired: true,
                },
                ReadState::Idle => ReadState::Idle,
            };
            retired.push(c);
            i = i + 1;
        }
        proof {
            assert(retired@ =~= retire_all(before));
            lemma_retire_counts(before, true);
            lemma_retire_counts(before, false);
        }
        self.contexts = retired;
        let incoming = self.incoming.take();
        match incoming {
            Some(new_domain) => {
                let old_domain = self.slot.update(new_domain);
                self.outgoing = Some(old_domain);
            },
            None => {},
        }
        self.epoch = !self.epoch;
        self.phase = RcuPhase::Published;
    }

    /// Ends the grace period once every token of the previous epoch has been
    /// retired: nobody reads the old implementation any more.
    pub fn synchronize(&mut self) -> (r: bool)
        requires
            old(self).wf(),
            old(self)@.phase == RcuPhase::Published,
        ensures
            final(self).wf(),
            r == (old(self)@.held(!old(self)@.epoch) == 0),
            r ==> final(self)@ == (RcuView { phase: RcuPhase::Quiescent, ..old(self)@ }),
            !r ==> final(self)@ == old(self)@,
    {
        let held = if self.epoch {
            self.held_false
        } else {
            self.held_true
        };
        if held != 0 {
            return false;
        }
        proof {
            let s = self.contexts@;
            assert forall|i: int| 0 <= i < s.len() && is_reading(#[trigger] s[i]) implies !is_retired(
                s[i],
            ) by {
                if is_retired(s[i]) {
                    lemma_count_zero(s, reading_in(!self.epoch), i);
                }
            }
        }
        self.phase = RcuPhase::Quiescent;
        true
    }

    /// Stores the new loader descriptor and releases the loader mutex.
    pub fn release(&mut self)
        requires
            old(self).wf(),
            old(self)@.phase == RcuPhase::Disposed,
        ensures
            final(self).wf(),
            final(self)@ == (RcuView {
                loader: old(self)@.next_loader.unwrap(),
                next_loader: None,
                keep_shared: false,
                phase: RcuPhase::Idle,
                ..old(self)@
            }),
    {
        let next = self.next_loader.take();
        match next {
            Some(l) => {
                self.loader = l;
            },
            None => {},
        }
        self.keep_shared = false;
        self.phase = RcuPhase::Idle;
    }

    /// The stage the swap in progress has reached.
    pub fn phase(&self) -> (r: RcuPhase)
        ensures
            r == self@.phase,
    {
        self.phase
    }

    /// Where context `ctx` stands in a call.
    pub fn call_state(&self, ctx: usize) -> (r: ReadState)
        requires
            ctx < self@.contexts.len(),
        ensures
            r == self@.contexts[ctx as int],
    {
        self.contexts[ctx]
    }

    /// A snapshot of the loader descriptor in force.
    pub fn domain_loader(&self) -> (r: &L)
        ensures
            *r == self@.loader,
    {
        &self.loader
    }

    /// The saved initialisation argument, if the proxy holds one.
    pub fn resource(&self) -> (r: Option<&R>)
        ensures
            r == match self@.resource {
                Some(a) => Some(&a),
                None => None::<&R>,
            },
    {
        self.resource.as_ref()
    }

    /// The current implementation, for `init`, which needs no admission.
    pub fn current(&self) -> (r: &D)
        ensures
            *r == self@.domain,
    {
        self.slot.get()
    }

    /// Records a first initialisation, given what `init` returned for
    /// `argv`: on success `argv` becomes the saved argument unless one is
    /// saved already; on failure nothing changes.
    pub fn finish_init(&mut self, argv: R, init_result: AlienResult<()>) -> (r: AlienResult<()>)
        requires
            old(self).wf(),
        ensures
            final(self).wf(),
            r == init_result,
            old(self)@.resource is Some ==> final(self)@.resource == old(self)@.resource,
            r is Ok ==> final(self)@ == (RcuView {
                resource: if old(self)@.resource is None {
                    Some(argv)
                } else {
                    old(self)@.resource
                },
                ..old(self)@
            }),
            r is Err ==> final(self)@ == old(self)@,
    {
        if init_result.is_ok() && self.resource.is_none() {
            self.resource = Some(argv);
        }
        init_result
    }

    /// One whole call by context `ctx`: a read-side section around `op` on
    /// the current implementation. Readers never wait, so the call always
    /// takes place. A fault is allowed only in a recoverable call, and comes
    /// back as the domain-crashed error.
    pub fn dispatch<T, F: FnOnce(&D) -> CallOutcome<T>>(&mut self, ctx: usize, recoverable: bool, op: F) -> (r:
        AlienResult<T>)
        requires
            old(self).wf(),
            ctx < old(self)@.contexts.len(),
            old(self)@.contexts[ctx as int] == ReadState::Idle,
            op.requires((&old(self)@.domain,)),
            forall|o: CallOutcome<T>|
                op.ensures((&old(self)@.domain,), o) ==> (o is Faulted ==> recoverable),
        ensures
            final(self).wf(),
            exists|o: CallOutcome<T>| op.ensures((&old(self)@.domain,), o) && r == contained(o),
            final(self)@ == (RcuView { observed: final(self)@.observed, ..old(self)@ }),
    {
        self.read_lock(ctx, recoverable);
        let outcome = self.slot.read_directly(op);
        let r = self.finish_call(ctx, outcome);
        proof {
            assert(self@.contexts =~= old(self)@.contexts);
        }
        r
    }

}

impl<D: Basic, L, R> RcuProxy<D, L, R> {
    /// Hands the old implementation over for reclamation, with its identity
    /// and the policy for its shared regions.
    pub fn dispose(&mut self) -> (r: Disposal<D>)
        requires
            old(self).wf(),
            old(self)@.phase == RcuPhase::Quiescent,
        ensures
            final(self).wf(),
            r.domain == old(self)@.outgoing.unwrap(),
            r.domain_id == old(self)@.outgoing.unwrap().id(),
            r.policy == (if old(self)@.keep_shared {
                FreeShared::PreserveSharedWith(old(self)@.domain.id())
            } else {
                FreeShared::FreeAll
            }),
            final(self)@ == (RcuView {
                phase: RcuPhase::Disposed,
                outgoing: None,
                reclaimed: old(self)@.reclaimed.push((old(self)@.generation - 1) as nat),
                ..old(self)@
            }),
    {
        let policy = if self.keep_shared {
            FreeShared::PreserveSharedWith(self.slot.get().domain_id())
        } else {
            FreeShared::FreeAll
        };
        let outgoing = self.outgoing.take();
        self.reclaimed = Ghost(self.reclaimed@.push((self.slot.generation() - 1) as nat));
        self.phase = RcuPhase::Disposed;
        match outgoing {
            Some(domain) => {
                let domain_id = domain.domain_id();
                Disposal { domain, domain_id, policy }
            },
            None => vstd::pervasive::unreached(),
        }
    }

    /// One whole call that passes `arg` across the domain boundary: `arg`
    /// is handed to the current implementation for the call and given back
    /// to its previous owner when the call ends, however it ends. Otherwise
    /// as [`RcuProxy::dispatch`].
    pub fn dispatch_relocated<A: SharedData, T, F: FnOnce(&D, A) -> (A, CallOutcome<T>)>(
        &mut self,
        ctx: usize,
        recoverable: bool,
        arg: A,
        op: F,
    ) -> (r: (A, AlienResult<T>))
        requires
            old(self).wf(),
            ctx < old(self)@.contexts.len(),
            old(self)@.contexts[ctx as int] == ReadState::Idle,
            forall|a: A| op.requires((&old(self)@.domain, a)),
            forall|a: A, res: (A, CallOutcome<T>)|
                op.ensures((&old(self)@.domain, a), res) ==> (res.1 is Faulted ==> recoverable),
        ensures
            final(self).wf(),
            r.0.owner() == arg.owner(),
            exists|a: A, res: (A, CallOutcome<T>)|
                a.owner() == old(self)@.domain.id() && op.ensures((&old(self)@.domain, a), res)
                    && r.1 == contained(res.1),
            final(self)@ == (RcuView { observed: final(self)@.observed, ..old(self)@ }),
    {
        self.read_lock(ctx, recoverable);
        let mut lent = arg;
        let caller_id = lend_to_callee(&mut lent, self.slot.get().domain_id());
        let (mut back, outcome) = op(self.slot.get(), lent);
        back.move_to(caller_id);
        let r = self.finish_call(ctx, outcome);
        proof {
            assert(self@.contexts =~= old(self)@.contexts);
        }
        (back, r)
    }
}

impl<D: DomainInit<R> + Basic, L, R> RcuProxy<D, L, R> {
    /// Initialises the current implementation with `argv`, bypassing
    /// admission, and saves `argv` as [`RcuProxy::finish_init`] says.
    pub fn init_by_box(&mut self, argv: R) -> (r: AlienResult<()>)
        requires
            old(self).wf(),
        ensures
            final(self).wf(),
            old(self)@.domain.inited_with(Some(argv), r),
            r is Ok ==> final(self)@ == (RcuView {
                resource: if old(self)@.resource is None {
                    Some(argv)
                } else {
                    old(self)@.resource
                },
                ..old(self)@
            }),
            r is Err ==> final(self)@ == old(self)@,
    {
        let res = self.slot.get().init(Some(&argv));
        self.finish_init(argv, res)
    }

    /// Initialises the incoming implementation with the saved argument, or
    /// with none, before it is published; see [`RcuProxy::finish_reinit`].
    pub fn reinit(&mut self) -> (r: AlienResult<()>)
        requires
            old(self).wf(),
            old(self)@.phase == RcuPhase::Locked,
        ensures
            final(self).wf(),
            old(self)@.incoming.unwrap().inited_with(old(self)@.resource, r),
            r is Ok ==> final(self)@ == (RcuView { phase: RcuPhase::Initialized, ..old(self)@ }),
            r is Err ==> final(self)@ == old(self)@.abandoned(),
    {
        let res = match &self.incoming {
            Some(d) => d.init(self.resource.as_ref()),
            None => Ok(()),
        };
        self.finish_reinit(res)
    }

    /// The whole swap on a proxy with no call in progress; the grace period
    /// then ends at once. On success `new_domain` is current, `new_loader`
    /// is stored, and the old implementation comes back for reclamation;
    /// `new_domain` was initialised with the saved argument, or with none,
    /// and an error is the one its `init` returned, in which case the proxy
    /// is left exactly as it was.
    ///
    /// With calls in flight, or behind another swap, the same swap is the
    /// run of stages [`RcuProxy::begin_replace`], `reinit`, `publish`,
    /// `synchronize`, `dispose` and `release`, each retried after the
    /// others' steps while it reports that it has to wait. Every stage and
    /// every caller's step keeps the invariant, so what [`crate::laws`]
    /// states holds in each interleaving.
    pub fn replace(&mut self, new_domain: D, new_loader: L, keep_shared: bool) -> (r:
        Result<Disposal<D>, AlienError>)
        requires
            old(self).wf(),
            old(self)@.phase == RcuPhase::Idle,
            old(self)@.quiescent(),
        ensures
            final(self).wf(),
            final(self)@.resource == old(self)@.resource,
            new_domain.inited_with(
                old(self)@.resource,
                match r {
                    Ok(_) => Ok(()),
                    Err(e) => Err(e),
                },
            ),
            r is Err ==> final(self)@ == old(self)@,
            r is Ok ==> final(self)@ == (RcuView {
                domain: new_domain,
                generation: old(self)@.generation + 1,
                epoch: !old(self)@.epoch,
                loader: new_loader,
                reclaimed: old(self)@.reclaimed.push(old(self)@.generation),
                ..old(self)@
            }),
            r is Ok ==> r->Ok_0.domain == old(self)@.domain && r->Ok_0.domain_id
                == old(self)@.domain.id() && r->Ok_0.policy == (if keep_shared {
                FreeShared::PreserveSharedWith(new_domain.id())
            } else {
                FreeShared::FreeAll
            }),
    {
        proof {
            let s = self@.contexts;
            assert forall|i: int| 0 <= i < s.len() implies !is_reading_in(#[trigger] s[i], true)
                && !is_reading_in(s[i], false) by {
                assert(!is_reading(s[i]));
            }
            lemma_count_none(s, reading_in(true));
            lemma_count_none(s, reading_in(false));
            assert(retire_all(s) =~= s) by {
                assert forall|i: int| 0 <= i < s.len() implies #[trigger] retire_all(s)[i] == s[i] by {
                    assert(!is_reading(s[i]));
                }
            }
        }
        let begun = self.begin_replace(new_domain, new_loader, keep_shared);
        match begun {
            Ok(()) => {},
            Err(_) => {
                return vstd::pervasive::unreached();
            },
        }
        let init = self.reinit();
        match init {
            Ok(u) => {
                // The unit value `init` gave is the one the contract names.
                assert(u == ());
            },
            Err(e) => {
                return Err(e);
            },
        }
        self.publish();
        self.synchronize();
        let disposal = self.dispose();
        self.release();
        Ok(disposal)
    }
}

impl<D: Basic, L, R> Basic for RcuProxy<D, L, R> {
    /// The identity of the current implementation.
    open spec fn id(&self) -> u64 {
        self@.domain.id()
    }

    /// Asks the current implementation for its identity. The slot changes
    /// only in a swap's `publish`, a step of its own, so this one read needs
    /// no admission.
    fn domain_id(&self) -> (r: u64) {
        self.slot.get().domain_id()
    }

    /// A proxy always answers: a crash inside the domain is contained.
    fn is_active(&self) -> (r: bool)
        ensures
            r,
    {
        true
    }
}

impl<D: DeviceBase, L, R> RcuProxy<D, L, R> {
    /// Passes an interrupt to the current implementation, admitted like any
    /// other call, by context `ctx`.
    pub fn handle_irq(&mut self, ctx: usize) -> (r: AlienResult<()>)
        requires
            old(self).wf(),
            ctx < old(self)@.contexts.len(),
            old(self)@.contexts[ctx as int] == ReadState::Idle,
        ensures
            final(self).wf(),
            old(self)@.domain.irq_handled(r),
            final(self)@ == (RcuView { observed: final(self)@.observed, ..old(self)@ }),
    {
        let op = |d: &D| -> (o: CallOutcome<()>)
            ensures
                o is Returned && d.irq_handled(o->Returned_0),
            { CallOutcome::Returned(d.handle_irq()) };
        self.dispatch(ctx, false, op)
    }
}

} // verus!
