use gproxy::error::AlienError;
use gproxy::frame::{BasicFrame, FrameTracker, FRAME_SIZE};
use gproxy::rvec::{lend_to_callee, return_to_caller, RRefVec, SharedData};
use gproxy::time::{
    get_time_ms, read_time_ms, read_time_ns, read_time_us, TimeNow, TimeSpec, TimeVal, ToClock,
};

#[test]
fn rvec_new_fills_and_reports_size() {
    let v = RRefVec::new(7u8, 5, 3);
    assert_eq!(v.as_slice(), &[7, 7, 7, 7, 7]);
    assert_eq!(v.size(), 5);
    assert_eq!(v.len(), 5);
    assert!(!v.is_empty());
    assert!(RRefVec::new(0u8, 0, 3).is_empty());
}

#[test]
fn rvec_from_slice_copies_and_set_overwrites() {
    let mut v = RRefVec::from_slice(&[1u32, 2, 3], 1);
    assert_eq!(*v.index(1), 2);
    v.set(1, 9);
    assert_eq!(v.as_slice(), &[1, 9, 3]);
}

#[test]
fn rvec_mut_slice_writes_through() {
    let mut v = RRefVec::new(0u16, 3, 2);
    v.as_mut_slice()[2] = 8;
    assert_eq!(v.as_slice(), &[0, 0, 8]);
    assert_eq!(v.move_to(1), 2);
}

#[test]
fn relocation_lends_and_returns_ownership() {
    let mut v = RRefVec::new(0u8, 4, 1);
    let caller = lend_to_callee(&mut v, 8);
    assert_eq!(caller, 1);
    assert_eq!(v.move_to(8), 8);
    let back = return_to_caller(Ok(v), caller);
    let mut back = back.ok().unwrap();
    assert_eq!(back.move_to(0), 1);
    let err: Result<RRefVec<u8>, AlienError> = return_to_caller(Err(AlienError::Errno(2)), 1);
    assert!(matches!(err, Err(AlienError::Errno(2))));
}

#[test]
fn time_conversions() {
    assert_eq!(get_time_ms(25_000_000, 12_500_000), 2000);
    assert_eq!(read_time_ms(12_512_500, 12_500_000), 1001);
    assert_eq!(read_time_ns(25, 12_500_000), 2000);
    assert_eq!(read_time_us(12_500_000, 12_500_000), 1_000_000);
}

#[test]
fn timespec_and_timeval_from_ticks() {
    let ts = TimeSpec::now(31_250_000, 12_500_000);
    assert_eq!(ts, TimeSpec { tv_sec: 2, tv_nsec: 500_000_000 });
    let tv = TimeVal::now(31_250_000, 12_500_000);
    assert_eq!(tv, TimeVal { tv_sec: 2, tv_usec: 500_000 });
    assert_eq!(ts.to_clock(12_500_000), 31_250_000);
}

#[test]
fn frame_size_and_end() {
    let f = BasicFrame { ptr: 0x8000_0000, page_count: 3, dealloc: false };
    assert_eq!(f.size(), 3 * FRAME_SIZE);
    assert_eq!(f.end(), 0x8000_3000);
}

#[test]
fn frame_addresses_wrap_the_integers() {
    let f = BasicFrame { ptr: 0x8000_0000, page_count: 2, dealloc: true };
    assert_eq!(f.start_phy_addr().as_usize(), 0x8000_0000);
    assert_eq!(f.start_virt_addr().as_usize(), 0x8000_0000);
    assert_eq!(f.end_phy_addr().as_usize(), 0x8000_2000);
    assert_eq!(f.end_virt_addr().as_usize(), 0x8000_2000);
}

#[test]
fn tracker_from_phys_range_counts_pages() {
    let t = FrameTracker::from_phy_range(0x1000..0x5000);
    assert_eq!(t.frame().ptr, 0x1000);
    assert_eq!(t.frame().page_count, 4);
    assert!(!t.frame().dealloc);
    let empty = FrameTracker::from_phy_range(0x2000..0x2000);
    assert_eq!(empty.frame().page_count, 0);
}
