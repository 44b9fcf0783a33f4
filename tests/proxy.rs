use std::cell::RefCell;
use std::rc::Rc;

use gproxy::error::{AlienError, AlienResult};
use gproxy::interface::{Basic, DeviceBase};
use gproxy::proxy::{CallOutcome, DomainInit, DomainProxy};
use gproxy::rvec::{RRefVec, SharedData};
use gproxy::state::{CallState, FreeShared, Path, SwapPhase};

/// A domain that answers with a fixed value and logs each `init` argument.
struct Echo {
    value: u64,
    fail_init: bool,
    inits: Rc<RefCell<Vec<Option<String>>>>,
}

impl Echo {
    fn new(value: u64, inits: &Rc<RefCell<Vec<Option<String>>>>) -> Self {
        Echo { value, fail_init: false, inits: inits.clone() }
    }

    fn read(&self) -> CallOutcome<u64> {
        CallOutcome::Returned(Ok(self.value))
    }
}

/// The value doubles as the domain's identity.
impl Basic for Echo {
    fn id(&self) -> u64 {
        self.value
    }

    fn domain_id(&self) -> u64 {
        self.value
    }

    fn is_active(&self) -> bool {
        true
    }
}

/// An interrupt is answered with an error code naming the domain.
impl DeviceBase for Echo {
    fn irq_handled(&self, r: AlienResult<()>) -> bool {
        r == Err(AlienError::Errno(self.value as i32))
    }

    fn handle_irq(&self) -> AlienResult<()> {
        Err(AlienError::Errno(self.value as i32))
    }
}

impl DomainInit<String> for Echo {
    fn inited_with(&self, _arg: Option<String>, r: AlienResult<()>) -> bool {
        r == if self.fail_init { Err(AlienError::Errno(5)) } else { Ok(()) }
    }

    fn init(&self, arg: Option<&String>) -> AlienResult<()> {
        self.inits.borrow_mut().push(arg.cloned());
        if self.fail_init {
            Err(AlienError::Errno(5))
        } else {
            Ok(())
        }
    }
}

fn log() -> Rc<RefCell<Vec<Option<String>>>> {
    Rc::new(RefCell::new(Vec::new()))
}

type Proxy = DomainProxy<Echo, String, String>;

fn proxy_with(value: u64, inits: &Rc<RefCell<Vec<Option<String>>>>) -> Proxy {
    DomainProxy::new(Echo::new(value, inits), "loader-a".to_string(), 2, 4)
}

fn call(p: &mut Proxy, ctx: usize, cpu: usize) -> Option<AlienResult<u64>> {
    p.dispatch(ctx, cpu, false, |d: &Echo| d.read())
}

#[test]
fn swap_drains_three_calls_then_serves_new_domain() {
    let inits = log();
    let mut p = proxy_with(10, &inits);
    // Three calls on two processors are admitted on the fast path.
    for (ctx, cpu) in [(0, 0), (1, 1), (2, 0)] {
        p.enter_call(ctx, cpu, false);
        assert!(p.try_enter(ctx));
    }
    assert_eq!(p.all_counter(), 3);

    assert!(p.begin_replace(Echo::new(20, &inits), "loader-b".to_string(), false).is_ok());
    assert!(p.acquire_write());
    p.raise_flag();
    assert!(p.sync_cpus());
    // The drain waits while callers remain.
    assert!(!p.try_drain());
    let mut seen = Vec::new();
    for ctx in 0..3 {
        seen.push(p.domain_for(ctx).value);
        assert_eq!(p.finish_call(ctx, CallOutcome::Returned(Ok(7))), Ok(7));
        if ctx < 2 {
            assert!(!p.try_drain());
        }
    }
    assert_eq!(seen, vec![10, 10, 10]);
    assert_eq!(p.all_counter(), 0);
    assert!(p.try_drain());
    assert!(inits.borrow().is_empty());
    assert_eq!(p.reinit(), Ok(()));
    assert_eq!(inits.borrow().len(), 1);
    p.publish();
    let old = p.dispose();
    assert_eq!(old.domain.value, 10);
    assert_eq!(old.domain_id, 10);
    assert_eq!(old.policy, FreeShared::FreeAll);
    p.release();
    assert_eq!(p.phase(), SwapPhase::Idle);
    assert_eq!(p.domain_loader(), "loader-b");
    assert_eq!(p.domain_id(), 20);
    assert_eq!(call(&mut p, 3, 1), Some(Ok(20)));
    assert_eq!(inits.borrow().len(), 1);
}

#[test]
fn recoverable_fault_returns_domain_crash_and_proxy_stays_usable() {
    let inits = log();
    let mut p = proxy_with(42, &inits);
    p.enter_call(0, 0, true);
    assert!(p.try_enter(0));
    assert!(p.fault_redirect(0));
    let r: AlienResult<u64> = p.finish_call(0, CallOutcome::Faulted);
    assert_eq!(r, Err(AlienError::DomainCrash));
    assert!(!p.fault_redirect(0));
    assert_eq!(p.call_state(0), CallState::Idle);
    assert_eq!(p.all_counter(), 0);
    assert_eq!(call(&mut p, 0, 0), Some(Ok(42)));
    let r = p.dispatch(1, 1, true, |_d: &Echo| CallOutcome::<u64>::Faulted);
    assert_eq!(r, Some(Err(AlienError::DomainCrash)));
    assert_eq!(call(&mut p, 1, 1), Some(Ok(42)));
}

#[test]
fn ordinary_domain_error_passes_through() {
    let inits = log();
    let mut p = proxy_with(1, &inits);
    let r = p.dispatch(0, 0, true, |_d: &Echo| CallOutcome::<u64>::Returned(Err(AlienError::Errno(22))));
    assert_eq!(r, Some(Err(AlienError::Errno(22))));
}

#[test]
fn saved_argument_replays_unchanged_across_swaps() {
    let inits = log();
    let mut p = proxy_with(0, &inits);
    assert_eq!(p.init_by_box("disk0".to_string()), Ok(()));
    assert_eq!(p.init_by_box("disk1".to_string()), Ok(()));
    assert_eq!(p.resource(), Some(&"disk0".to_string()));
    for v in 1..5u64 {
        let old = p.replace(Echo::new(v, &inits), format!("loader-{}", v), false);
        assert!(old.is_ok());
        assert_eq!(p.resource(), Some(&"disk0".to_string()));
    }
    let seen = inits.borrow().clone();
    assert_eq!(seen.len(), 6);
    for arg in &seen[2..] {
        assert_eq!(arg.as_deref(), Some("disk0"));
    }
}

#[test]
fn swap_without_saved_argument_inits_with_none() {
    let inits = log();
    let mut p = proxy_with(0, &inits);
    assert!(p.replace(Echo::new(1, &inits), "l".to_string(), false).is_ok());
    assert_eq!(inits.borrow().clone(), vec![None]);
    assert_eq!(p.resource(), None);
}

#[test]
fn each_old_domain_is_disposed_once() {
    let inits = log();
    let mut p = proxy_with(100, &inits);
    let mut disposed = Vec::new();
    for v in 101..104u64 {
        let d = p.replace(Echo::new(v, &inits), "l".to_string(), false).ok().unwrap();
        disposed.push(d.domain.value);
        assert_ne!(d.domain.value, p.current().value);
    }
    assert_eq!(disposed, vec![100, 101, 102]);
    assert_eq!(p.current().value, 103);
}

#[test]
fn keep_shared_preserves_regions_for_new_domain() {
    let inits = log();
    let mut p = proxy_with(1, &inits);
    let d = p.replace(Echo::new(2, &inits), "l".to_string(), true).ok().unwrap();
    assert_eq!(d.policy, FreeShared::PreserveSharedWith(2));
    assert_eq!(d.domain_id, 1);
}

#[test]
fn failed_reinit_keeps_old_domain() {
    let inits = log();
    let mut p = proxy_with(5, &inits);
    let mut bad = Echo::new(6, &inits);
    bad.fail_init = true;
    let r = p.replace(bad, "l2".to_string(), false);
    assert!(matches!(r, Err(AlienError::Errno(5))));
    assert_eq!(p.phase(), SwapPhase::Idle);
    assert!(!p.swap_in_progress());
    assert_eq!(p.domain_loader(), "loader-a");
    assert_eq!(p.domain_id(), 5);
    assert_eq!(call(&mut p, 0, 0), Some(Ok(5)));
}

#[test]
fn finish_reinit_error_abandons_swap() {
    let inits = log();
    let mut p = proxy_with(5, &inits);
    assert!(p.begin_replace(Echo::new(6, &inits), "l2".to_string(), false).is_ok());
    assert!(p.acquire_write());
    p.raise_flag();
    assert!(p.sync_cpus());
    assert!(p.try_drain());
    assert_eq!(p.finish_reinit(Err(AlienError::Errno(3))), Err(AlienError::Errno(3)));
    assert_eq!(p.phase(), SwapPhase::Idle);
    assert_eq!(p.current().value, 5);
}

#[test]
fn second_swap_waits_for_loader_mutex() {
    let inits = log();
    let mut p = proxy_with(5, &inits);
    assert!(p.begin_replace(Echo::new(6, &inits), "l2".to_string(), false).is_ok());
    let again = p.begin_replace(Echo::new(7, &inits), "l3".to_string(), false);
    match again {
        Err((d, l)) => {
            assert_eq!(d.value, 7);
            assert_eq!(l, "l3");
        }
        Ok(()) => panic!("the loader mutex was taken twice"),
    }
    assert_eq!(p.phase(), SwapPhase::Locked);
}

#[test]
fn flagged_callers_take_slow_path_and_wait_for_writer() {
    let inits = log();
    let mut p = proxy_with(5, &inits);
    assert!(p.begin_replace(Echo::new(6, &inits), "l2".to_string(), false).is_ok());
    assert!(p.acquire_write());
    p.raise_flag();
    assert!(p.swap_in_progress());
    p.enter_call(0, 1, false);
    assert_eq!(p.call_state(0), CallState::Entering { cpu: 1, path: Path::Slow, recoverable: false });
    assert!(!p.try_enter(0));
    assert_eq!(call(&mut p, 1, 0), None);
    assert!(p.sync_cpus());
    assert!(p.try_drain());
    assert_eq!(p.reinit(), Ok(()));
    p.publish();
    assert!(!p.swap_in_progress());
    // The write side is still held until release.
    assert!(!p.try_enter(0));
    let _ = p.dispose();
    p.release();
    assert!(p.try_enter(0));
    assert_eq!(p.domain_for(0).value, 6);
    assert_eq!(p.finish_call(0, CallOutcome::Returned(Ok(1u8))), Ok(1));
}

#[test]
fn barrier_waits_for_caller_that_saw_clear_flag() {
    let inits = log();
    let mut p = proxy_with(5, &inits);
    p.enter_call(0, 0, false);
    assert!(p.begin_replace(Echo::new(6, &inits), "l2".to_string(), false).is_ok());
    assert!(p.acquire_write());
    p.raise_flag();
    assert!(!p.sync_cpus());
    assert!(p.try_enter(0));
    assert!(p.sync_cpus());
    assert!(!p.try_drain());
    assert_eq!(p.domain_for(0).value, 5);
    assert_eq!(p.finish_call(0, CallOutcome::Returned(Ok(()))), Ok(()));
    assert!(p.try_drain());
}

#[test]
fn write_lock_waits_for_slow_readers() {
    let inits = log();
    let mut p = proxy_with(5, &inits);
    assert!(p.begin_replace(Echo::new(6, &inits), "l2".to_string(), false).is_ok());
    assert!(p.acquire_write());
    p.raise_flag();
    p.enter_call(0, 0, false);
    assert!(p.sync_cpus());
    assert!(p.try_drain());
    assert_eq!(p.reinit(), Ok(()));
    p.publish();
    let _ = p.dispose();
    p.release();
    // A slow caller admitted after release holds the shared side.
    assert!(p.try_enter(0));
    assert!(p.begin_replace(Echo::new(7, &inits), "l3".to_string(), false).is_ok());
    assert!(!p.acquire_write());
    assert_eq!(p.finish_call(0, CallOutcome::Returned(Ok(0u8))), Ok(0));
    assert!(p.acquire_write());
}

#[test]
fn proxy_reports_itself_active() {
    let inits = log();
    let p = proxy_with(5, &inits);
    assert!(p.is_active());
    assert_eq!(p.domain_id(), 5);
}

#[test]
fn relocated_call_lends_argument_and_gives_it_back() {
    let inits = log();
    let mut p = proxy_with(3, &inits);
    let arg = RRefVec::new(1u8, 4, 7);
    let (mut back, r) = p.dispatch_relocated(0, 0, true, arg, |d: &Echo, mut a: RRefVec<u8>| {
        // The callee owns the argument during the call.
        let owner = a.move_to(3);
        a.set(0, 9);
        (a, CallOutcome::Returned(Ok(owner + d.value)))
    });
    assert_eq!(r, Some(Ok(3 + 3)));
    assert_eq!(back.as_slice(), &[9, 1, 1, 1]);
    assert_eq!(back.move_to(7), 7);
    // A fault still gives the argument back to the caller.
    let (mut back, r) = p.dispatch_relocated(1, 1, true, back, |_d: &Echo, a: RRefVec<u8>| {
        (a, CallOutcome::<u64>::Faulted)
    });
    assert_eq!(r, Some(Err(AlienError::DomainCrash)));
    assert_eq!(back.move_to(0), 7);
}

#[test]
fn relocated_call_not_admitted_leaves_argument_alone() {
    let inits = log();
    let mut p = proxy_with(3, &inits);
    assert!(p.begin_replace(Echo::new(4, &inits), "l".to_string(), false).is_ok());
    assert!(p.acquire_write());
    p.raise_flag();
    let arg = RRefVec::new(5u8, 2, 6);
    let (mut back, r) = p.dispatch_relocated(0, 0, false, arg, |d: &Echo, a: RRefVec<u8>| {
        (a, CallOutcome::Returned(Ok(d.value)))
    });
    assert_eq!(r, None);
    assert_eq!(back.as_slice(), &[5, 5]);
    assert_eq!(back.move_to(0), 6);
}

#[test]
fn interrupt_reaches_current_domain_through_admission() {
    let inits = log();
    let mut p = proxy_with(10, &inits);
    assert_eq!(p.handle_irq(0, 1), Some(Err(AlienError::Errno(10))));
    assert_eq!(p.all_counter(), 0);
    assert!(p.replace(Echo::new(11, &inits), "l".to_string(), false).is_ok());
    assert_eq!(p.handle_irq(0, 0), Some(Err(AlienError::Errno(11))));
    // While a swap holds the lock with the flag raised, the interrupt waits.
    assert!(p.begin_replace(Echo::new(12, &inits), "l".to_string(), false).is_ok());
    assert!(p.acquire_write());
    p.raise_flag();
    assert_eq!(p.handle_irq(1, 0), None);
    assert_eq!(p.call_state(1), CallState::Idle);
}
