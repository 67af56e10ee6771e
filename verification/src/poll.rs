use vstd::prelude::*;

verus! {

pub const IN: usize = 0x001;
pub const OUT: usize = 0x002;
pub const ERR: usize = 0x004;
pub const HUP: usize = 0x008;
pub const NVAL: usize = 0x010;

#[derive(Clone, Copy, Debug)]
pub struct PollFd {
    pub fd: usize,
    pub events: usize,
    pub revents: usize,
}

} // verus!
