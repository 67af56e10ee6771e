use webos::error::Error;
use webos::proc::{Context, ProcState, Procs};
use webos::signal::{SIGKILL, SIGUSR1, SIG_IGN};
use webos::syscall::SysCalls;

#[test]
fn pids_are_handed_out_in_order() {
    let mut t = Procs::new();
    let a = t.alloc_slot(0x8000_2000).unwrap();
    let b = t.alloc_slot(0x8000_2000).unwrap();
    assert_eq!((a, b), (0, 1));
    assert_eq!(t.pid(a), 0);
    assert_eq!(t.pid(b), 1);
    assert_eq!(t.inner[b].state, ProcState::USED);
    assert_eq!(t.inner[b].pgid, 1);
    assert_eq!(t.inner[b].sid, 1);
    assert_eq!(t.first_unused_slot(), Some(2));
    assert_eq!(t.data[b].context.ra, 0x8000_2000);
    assert_eq!(t.data[b].context.sp, Context::for_new_proc(1, 0x8000_2000).sp);
}

#[test]
fn kill_marks_and_wakes_a_sleeper() {
    let mut t = Procs::new();
    let a = t.alloc_slot(0x8000_2000).unwrap();
    let b = t.alloc_slot(0x8000_2000).unwrap();
    t.inner[b].state = ProcState::SLEEPING;
    assert_eq!(t.kill(1, SIGKILL, 0), Ok(()));
    assert!(t.inner[b].killed);
    assert_eq!(t.inner[b].state, ProcState::RUNNABLE);
    assert!(!t.inner[a].killed);
    assert_eq!(t.kill(77, SIGKILL, 0), Err(Error::NoSuchProcess));
    assert_eq!(t.kill(1, 0, 0), Err(Error::InvalidArgument));
    assert_eq!(t.kill(1, 33, 0), Err(Error::InvalidArgument));
}

#[test]
fn ignored_signals_stay_away_and_sigkill_cannot_be_caught() {
    let mut t = Procs::new();
    let a = t.alloc_slot(0x8000_2000).unwrap();
    assert_eq!(t.sigaction(a, SIGUSR1, SIG_IGN, 0), Ok(0));
    assert_eq!(t.kill(0, SIGUSR1, 0), Ok(()));
    assert_eq!(t.inner[a].sig_pending, 0);
    assert!(!t.inner[a].killed);
    assert_eq!(t.sigaction(a, SIGKILL, SIG_IGN, 0), Err(Error::PermissionDenied));
    assert_eq!(t.sigaction(a, SIGUSR1, 0x1000, 0), Err(Error::InvalidArgument));
    assert_eq!(t.sigaction(a, SIGUSR1, 0x1000, 0x2000), Ok(1));
}

#[test]
fn syscall_numbers_round_trip() {
    for n in 0..80usize {
        let c = SysCalls::from_usize(n);
        if c != SysCalls::Invalid {
            assert_eq!(c.number(), n);
        }
    }
}

#[test]
fn new_process_context_starts_on_top_of_its_kernel_stack() {
    let c = Context::for_new_proc(0, 0x8000_1234);
    assert_eq!(c.ra, 0x8000_1234);
    assert_eq!(c.sp, 0x3f_ffff_e000);
    assert_eq!(c.s0, 0);
    assert_eq!(c.s11, 0);
    let c3 = Context::for_new_proc(3, 7);
    assert_eq!(c3.sp, 0x3f_fffb_0000);
}
