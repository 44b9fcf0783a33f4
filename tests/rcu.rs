use std::cell::RefCell;
use std::rc::Rc;

use gproxy::error::{AlienError, AlienResult};
use gproxy::interface::{Basic, DeviceBase};
use gproxy::proxy::{CallOutcome, DomainInit};
use gproxy::rcu::{RcuPhase, RcuProxy, ReadState};
use gproxy::rvec::{RRefVec, SharedData};
use gproxy::state::FreeShared;

struct Shadow {
    value: u64,
    fail_init: bool,
    inits: Rc<RefCell<Vec<Option<String>>>>,
}

/// The value doubles as the domain's identity.
impl Basic for Shadow {
    fn id(&self) -> u64 {
        self.value
    }

    fn domain_id(&self) -> u64 {
        self.value
    }

    fn is_active(&self) -> bool {
        true
    }
}

impl DeviceBase for Shadow {
    fn irq_handled(&self, r: AlienResult<()>) -> bool {
        r == Ok(())
    }

    fn handle_irq(&self) -> AlienResult<()> {
        Ok(())
    }
}

impl DomainInit<String> for Shadow {
    fn inited_with(&self, _arg: Option<String>, r: AlienResult<()>) -> bool {
        r == if self.fail_init { Err(AlienError::Errno(1)) } else { Ok(()) }
    }

    fn init(&self, arg: Option<&String>) -> AlienResult<()> {
        self.inits.borrow_mut().push(arg.cloned());
        if self.fail_init {
            Err(AlienError::Errno(1))
        } else {
            Ok(())
        }
    }
}

fn shadow(value: u64, inits: &Rc<RefCell<Vec<Option<String>>>>) -> Shadow {
    Shadow { value, fail_init: false, inits: inits.clone() }
}

fn log() -> Rc<RefCell<Vec<Option<String>>>> {
    Rc::new(RefCell::new(Vec::new()))
}

#[test]
fn rcu_readers_keep_old_domain_until_grace_period_ends() {
    let inits = log();
    let mut p: RcuProxy<Shadow, String, String> = RcuProxy::new(shadow(1, &inits), "a".to_string(), 4);
    for ctx in 0..3 {
        p.read_lock(ctx, false);
    }
    assert!(p.begin_replace(shadow(2, &inits), "b".to_string(), false).is_ok());
    assert_eq!(p.reinit(), Ok(()));
    assert_eq!(inits.borrow().clone(), vec![None]);
    p.publish();
    // New callers read the new implementation, earlier ones the old.
    p.read_lock(3, false);
    assert_eq!(p.domain_for(3).value, 2);
    for ctx in 0..3 {
        assert_eq!(p.domain_for(ctx).value, 1);
    }
    assert!(!p.synchronize());
    for ctx in 0..3 {
        assert_eq!(p.finish_call(ctx, CallOutcome::Returned(Ok(ctx))), Ok(ctx));
    }
    assert!(p.synchronize());
    let old = p.dispose();
    assert_eq!(old.domain.value, 1);
    assert_eq!(old.domain_id, 1);
    assert_eq!(old.policy, FreeShared::FreeAll);
    p.release();
    assert_eq!(p.phase(), RcuPhase::Idle);
    assert_eq!(p.domain_loader(), "b");
    assert_eq!(p.domain_id(), 2);
    assert_eq!(p.finish_call(3, CallOutcome::Returned(Ok(0u8))), Ok(0));
    assert_eq!(p.dispatch(0, false, |d: &Shadow| CallOutcome::Returned(Ok(d.value))), Ok(2));
}

#[test]
fn rcu_fault_is_contained() {
    let inits = log();
    let mut p: RcuProxy<Shadow, String, String> = RcuProxy::new(shadow(7, &inits), "a".to_string(), 2);
    p.read_lock(0, true);
    assert!(p.fault_redirect(0));
    assert_eq!(p.finish_call(0, CallOutcome::<u64>::Faulted), Err(AlienError::DomainCrash));
    assert_eq!(p.call_state(0), ReadState::Idle);
    assert!(!p.fault_redirect(0));
    assert_eq!(p.dispatch(0, true, |d: &Shadow| CallOutcome::Returned(Ok(d.value))), Ok(7));
    assert!(p.is_active());
}

#[test]
fn rcu_replace_replays_saved_argument() {
    let inits = log();
    let mut p: RcuProxy<Shadow, String, String> = RcuProxy::new(shadow(0, &inits), "a".to_string(), 2);
    assert_eq!(p.init_by_box("blk0".to_string()), Ok(()));
    for v in 1..4u64 {
        let d = p.replace(shadow(v, &inits), "l".to_string(), true).ok().unwrap();
        assert_eq!(d.domain.value, v - 1);
        assert_eq!(d.domain_id, v - 1);
        assert_eq!(d.policy, FreeShared::PreserveSharedWith(v));
        assert_eq!(p.resource(), Some(&"blk0".to_string()));
    }
    assert_eq!(p.current().value, 3);
    let seen = inits.borrow().clone();
    assert_eq!(seen, vec![Some("blk0".to_string()); 4]);
}

#[test]
fn rcu_failed_reinit_keeps_old_domain() {
    let inits = log();
    let mut p: RcuProxy<Shadow, String, String> = RcuProxy::new(shadow(3, &inits), "a".to_string(), 2);
    let mut bad = shadow(4, &inits);
    bad.fail_init = true;
    assert!(matches!(p.replace(bad, "b".to_string(), false), Err(AlienError::Errno(1))));
    assert_eq!(p.phase(), RcuPhase::Idle);
    assert_eq!(p.domain_loader(), "a");
    assert_eq!(p.current().value, 3);
    assert_eq!(p.finish_init("x".to_string(), Err(AlienError::Errno(9))), Err(AlienError::Errno(9)));
    assert_eq!(p.resource(), None);
}

#[test]
fn rcu_second_swap_waits_for_loader_mutex() {
    let inits = log();
    let mut p: RcuProxy<Shadow, String, String> = RcuProxy::new(shadow(3, &inits), "a".to_string(), 2);
    assert!(p.begin_replace(shadow(4, &inits), "b".to_string(), false).is_ok());
    assert!(p.begin_replace(shadow(5, &inits), "c".to_string(), false).is_err());
    assert_eq!(p.finish_reinit(Err(AlienError::Errno(4))), Err(AlienError::Errno(4)));
    assert!(p.begin_replace(shadow(5, &inits), "c".to_string(), false).is_ok());
}

#[test]
fn rcu_relocated_call_gives_argument_back() {
    let inits = log();
    let mut p: RcuProxy<Shadow, String, String> = RcuProxy::new(shadow(2, &inits), "a".to_string(), 2);
    let arg = RRefVec::from_slice(&[1u32, 2], 5);
    let (mut back, r) = p.dispatch_relocated(0, false, arg, |d: &Shadow, mut a: RRefVec<u32>| {
        let owner = a.move_to(2);
        (a, CallOutcome::Returned(Ok(owner + d.value)))
    });
    assert_eq!(r, Ok(4));
    assert_eq!(back.move_to(0), 5);
}

#[test]
fn rcu_interrupt_reaches_current_domain() {
    let inits = log();
    let mut p: RcuProxy<Shadow, String, String> = RcuProxy::new(shadow(2, &inits), "a".to_string(), 2);
    assert_eq!(p.handle_irq(1), Ok(()));
    assert_eq!(p.call_state(1), ReadState::Idle);
}
