use vstd::prelude::*;

verus! {

/// What a signal does when its handler is left at the default.
#[derive(Clone, Copy, Debug, PartialEq, Eq, Structural)]
pub enum SigDefaultAction {
    Ignore,
    Terminate,
}

pub const NSIG: usize = 32;
pub const SIG_DFL: usize = usize::MAX;
pub const SIG_IGN: usize = usize::MAX - 1;

pub const SIGINT: usize = 2;
pub const SIGKILL: usize = 9;
pub const SIGUSR1: usize = 10;
pub const SIGUSR2: usize = 12;
pub const SIGALRM: usize = 14;
pub const SIGTERM: usize = 15;
pub const SIGCONT: usize = 18;
pub const SIGTSTP: usize = 20;

pub const WNOHANG: usize = 0x1;
pub const WUNTRACED: usize = 0x2;
pub const WCONTINUED: usize = 0x8;

/// The bit that stands for `sig` in a pending-signal word: bit `sig - 1`
/// for `1 <= sig <= NSIG`, nothing otherwise.
pub open spec fn spec_sig_mask(sig: usize) -> u32 {
    if sig == 0 || sig > NSIG {
        0
    } else {
        (1u32 << ((sig - 1) as u32)) as u32
    }
}

pub fn sig_mask(sig: usize) -> (m: u32)
    ensures
        m == spec_sig_mask(sig),
        1 <= sig <= NSIG ==> m != 0,
        sig == 0 || sig > NSIG ==> m == 0,
{
    if sig == 0 || sig > NSIG {
        0
    } else {
        let s: u32 = (sig - 1) as u32;
        assert(s < 32);
        assert((1u32 << s) != 0) by (bit_vector)
            requires s < 32;
        1u32 << s
    }
}

pub open spec fn spec_default_action(sig: usize) -> SigDefaultAction {
    if sig == SIGKILL || sig == SIGTERM || sig == SIGINT || sig == SIGALRM || sig == SIGUSR1
        || sig == SIGUSR2 {
        SigDefaultAction::Terminate
    } else {
        SigDefaultAction::Ignore
    }
}

pub fn default_action(sig: usize) -> (a: SigDefaultAction)
    ensures
        a == spec_default_action(sig),
{
    match sig {
        SIGKILL | SIGTERM | SIGINT | SIGALRM | SIGUSR1 | SIGUSR2 => SigDefaultAction::Terminate,
        _ => SigDefaultAction::Ignore,
    }
}

} // verus!
