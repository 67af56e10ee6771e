use webos::error::Error;
use webos::kalloc::{page_ref_dec, page_ref_get, page_ref_inc, page_ref_init, Kmem};
use webos::memlayout::KERNBASE;
use webos::riscv::{pgrounddown, pgroundup};
use webos::runq::RunQueue;
use webos::semaphore::Semaphore;
use webos::signal::{default_action, sig_mask, SigDefaultAction, SIGINT, SIGKILL, SIGUSR1};
use webos::util::{max_usize, min_usize, sat_add, sat_mul, sat_sub};

#[test]
fn sig_mask_is_bit_below_signal() {
    assert_eq!(sig_mask(1), 1);
    assert_eq!(sig_mask(SIGKILL), 1 << 8);
    assert_eq!(sig_mask(32), 1 << 31);
    assert_eq!(sig_mask(0), 0);
    assert_eq!(sig_mask(33), 0);
}

#[test]
fn default_actions() {
    assert_eq!(default_action(SIGKILL), SigDefaultAction::Terminate);
    assert_eq!(default_action(SIGINT), SigDefaultAction::Terminate);
    assert_eq!(default_action(SIGUSR1), SigDefaultAction::Terminate);
    assert_eq!(default_action(17), SigDefaultAction::Ignore);
}

#[test]
fn saturating_helpers() {
    assert_eq!(sat_mul(usize::MAX, 2), usize::MAX);
    assert_eq!(sat_mul(7, 6), 42);
    assert_eq!(sat_add(usize::MAX, 1), usize::MAX);
    assert_eq!(sat_sub(3, 5), 0);
    assert_eq!(sat_sub(5, 3), 2);
    assert_eq!(min_usize(3, 9), 3);
    assert_eq!(max_usize(3, 9), 9);
}

#[test]
fn page_rounding() {
    assert_eq!(pgroundup(0), 0);
    assert_eq!(pgroundup(1), 4096);
    assert_eq!(pgroundup(4096), 4096);
    assert_eq!(pgroundup(4097), 8192);
    assert_eq!(pgrounddown(8191), 4096);
}

#[test]
fn semaphore_wait_then_post_restores_count() {
    let mut s = Semaphore::new_with_count(1, 4, "t").unwrap();
    assert_eq!(s.wait(false), Ok(true));
    assert_eq!(s.count, 0);
    assert_eq!(s.try_wait(), Ok(false));
    assert_eq!(s.post(), Ok(()));
    assert_eq!(s.count, 1);
}

#[test]
fn semaphore_errors() {
    assert!(matches!(Semaphore::new_with_count(5, 4, "t"), Err(Error::InvalidArgument)));
    assert!(matches!(Semaphore::new_with_count(-1, 4, "t"), Err(Error::InvalidArgument)));
    let mut s = Semaphore::new(2, "t");
    assert_eq!(s.post(), Err(Error::InvalidArgument));
    assert_eq!(s.wait(true), Err(Error::Interrupted));
    s.close();
    assert_eq!(s.wait(false), Err(Error::InvalidArgument));
    assert_eq!(s.can_wait(), Err(Error::InvalidArgument));
}

#[test]
fn run_queue_is_fifo() {
    let mut q = RunQueue::new();
    assert!(q.is_empty());
    q.push(3);
    q.push(5);
    q.push(1);
    assert_eq!(q.len(), 3);
    assert_eq!(q.pop(), Some(3));
    assert_eq!(q.pop(), Some(5));
    assert_eq!(q.pop(), Some(1));
    assert_eq!(q.pop(), None);
}

#[test]
fn page_refcounts_round_trip() {
    let mut k = Kmem::new();
    let pa = KERNBASE + 4096 * 10;
    page_ref_init(&mut k, pa);
    assert_eq!(page_ref_get(&k, pa), 1);
    page_ref_inc(&mut k, pa);
    assert_eq!(page_ref_get(&k, pa), 2);
    assert_eq!(page_ref_dec(&mut k, pa), 1);
    assert_eq!(page_ref_get(&k, pa), 1);
}
