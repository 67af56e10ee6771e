use vstd::prelude::*;

verus! {

/// The kernel's error kinds, as returned by system calls.
#[derive(Clone, Copy, Debug, PartialEq, Eq, Structural)]
pub enum Error {
    InvalidArgument,
    ResourceBusy,
    Interrupted,
    PermissionDenied,
    NotFound,
    NoBufferSpace,
    OutOfMemory,
    BadVirtAddr,
    WouldBlock,
    NoSuchProcess,
    NoChildProcesses,
    BadFileDescriptor,
    FileDescriptorTooLarge,
    IsADirectory,
    FileTableOverflow,
    NoSuchNode,
    NotConnected,
    AlreadyExists,
    CrossesDevices,
    NotADirectory,
    Utf8Error,
}

pub type Result<T> = core::result::Result<T, Error>;

} // verus!
