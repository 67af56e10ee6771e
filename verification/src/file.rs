use vstd::prelude::*;
use crate::error::{Error, Result};
use crate::fcntl::{
    get_lock, set_lock, FcntlCmd, Flock, LockTable, OMode, FD_CLOEXEC, F_RDLCK, F_WRLCK, O_APPEND, O_NONBLOCK,
    O_RDONLY, O_RDWR, O_WRONLY,
};
use crate::param::{NDEV, NFILE};
use crate::stat::FileType;
use crate::poll::{HUP, IN, OUT};

verus! {

/// Device major numbers.
#[derive(Clone, Copy, Debug, PartialEq, Eq, Structural)]
pub enum Major {
    Null,
    Console,
    Disk,
    Invalid,
}

impl Major {
    pub open spec fn spec_from_u16(bits: u16) -> Major {
        if bits == 0 {
            Major::Null
        } else if bits == 1 {
            Major::Console
        } else if bits == 2 {
            Major::Disk
        } else {
            Major::Invalid
        }
    }

    pub fn from_u16(bits: u16) -> (m: Major)
        ensures
            m == Self::spec_from_u16(bits),
    {
        match bits {
            0 => Major::Null,
            1 => Major::Console,
            2 => Major::Disk,
            _ => Major::Invalid,
        }
    }

    /// The device-table slot of this major number.
    pub open spec fn spec_index(self) -> int {
        match self {
            Major::Null => 0,
            Major::Console => 1,
            Major::Disk => 2,
            Major::Invalid => 3,
        }
    }

    pub fn index(self) -> (i: usize)
        ensures
            i == self.spec_index(),
    {
        match self {
            Major::Null => 0,
            Major::Console => 1,
            Major::Disk => 2,
            Major::Invalid => 3,
        }
    }
}

/// What an open file refers to: a device node, a file or directory, a
/// pipe, or nothing (`Empty`).
#[derive(Clone, Copy, Debug, PartialEq, Eq, Structural)]
pub enum VFile {
    Device { major: Major, dev: u32, inum: u32 },
    Inode { dev: u32, inum: u32 },
    Pipe { id: usize },
    Empty,
}

impl VFile {
    /// Whether the file has metadata to report: devices and inodes do.
    pub fn stat(&self) -> (r: Result<()>)
        ensures
            (*self is Device || *self is Inode) ==> r is Ok,
            !(*self is Device || *self is Inode) ==> r == Err::<(), Error>(Error::BadFileDescriptor),
    {
        match self {
            VFile::Device { .. } | VFile::Inode { .. } => Ok(()),
            _ => Err(Error::BadFileDescriptor),
        }
    }
}

/// An open file descriptor: the file and the descriptor's flags.
#[derive(Clone, Copy, Debug)]
pub struct File {
    pub f: Option<VFile>,
    pub readable: bool,
    pub writable: bool,
    pub cloexec: bool,
    pub nonblock: bool,
    pub append: bool,
}

/// Where a read or a write on an open file is carried out.
#[derive(Clone, Copy, Debug, PartialEq, Eq, Structural)]
pub enum IoRoute {
    /// The pipe end's non-blocking transfer.
    PipeNonblock,
    /// The device's own read.
    Device,
    /// The file's ordinary transfer, appending or not.
    File { append: bool },
}

pub open spec fn spec_read_route(f: File, console_readable: bool) -> Result<IoRoute> {
    if !f.readable {
        Err(Error::InvalidArgument)
    } else if f.nonblock && f.f matches Some(VFile::Pipe { .. }) {
        Ok(IoRoute::PipeNonblock)
    } else if f.nonblock && (f.f matches Some(VFile::Device { major, .. }) && major == Major::Console) {
        if console_readable {
            Ok(IoRoute::Device)
        } else {
            Err(Error::WouldBlock)
        }
    } else {
        Ok(IoRoute::File { append: false })
    }
}

pub open spec fn spec_write_route(f: File) -> Result<IoRoute> {
    if !f.writable {
        Err(Error::InvalidArgument)
    } else if f.nonblock && f.f matches Some(VFile::Pipe { .. }) {
        Ok(IoRoute::PipeNonblock)
    } else {
        Ok(IoRoute::File { append: f.append })
    }
}

/// What a pipe reports for polling.
#[derive(Clone, Copy, Debug)]
pub struct PipeStatus {
    pub readable: bool,
    pub writable: bool,
    pub read_hup: bool,
    pub write_hup: bool,
}

/// The access-mode bits of the open flags.
pub open spec fn spec_access_mode(readable: bool, writable: bool) -> usize {
    if readable && !writable {
        O_RDONLY
    } else if !readable && writable {
        O_WRONLY
    } else if readable && writable {
        O_RDWR
    } else {
        O_RDONLY
    }
}

/// The status flags that F_GETFL reports.
pub open spec fn spec_status_flags(f: File) -> usize {
    let a = spec_access_mode(f.readable, f.writable);
    let b = if f.append { a | O_APPEND } else { a };
    if f.nonblock { b | O_NONBLOCK } else { b }
}

/// The events of a poll for `events` on `f` that are ready.
pub open spec fn spec_poll(f: File, events: usize, pipe: PipeStatus, console_readable: bool) -> usize {
    match f.f {
        Some(VFile::Pipe { .. }) => {
            let r1 = if f.readable && events & IN != 0 && pipe.readable { IN } else { 0 };
            let r2 = if f.writable && events & OUT != 0 && pipe.writable { r1 | OUT } else { r1 };
            let r3 = if f.readable && pipe.read_hup { r2 | HUP } else { r2 };
            if f.writable && pipe.write_hup { r3 | HUP } else { r3 }
        },
        Some(VFile::Device { major, .. }) => {
            let ready = if major == Major::Console { console_readable } else { true };
            let r1 = if f.readable && events & IN != 0 && ready { IN } else { 0 };
            if f.writable && events & OUT != 0 { r1 | OUT } else { r1 }
        },
        Some(VFile::Inode { .. }) => {
            let r1 = if f.readable && events & IN != 0 { IN } else { 0 };
            if f.writable && events & OUT != 0 { r1 | OUT } else { r1 }
        },
        _ => 0,
    }
}

/// The lock key `(dev, inum)` of what `f` refers to, for files with an
/// inode.
pub open spec fn spec_lock_key(f: File) -> Option<(u32, u32)> {
    match f.f {
        Some(VFile::Inode { dev, inum }) => Some((dev, inum)),
        Some(VFile::Device { dev, inum, .. }) => Some((dev, inum)),
        _ => None,
    }
}

impl File {
    pub fn is_cloexec(&self) -> (b: bool)
        ensures
            b == self.cloexec,
    {
        self.cloexec
    }

    pub fn clear_cloexec(&mut self)
        ensures
            *final(self) == (File { cloexec: false, ..*old(self) }),
    {
        self.cloexec = false;
    }

    pub fn is_readable(&self) -> (b: bool)
        ensures
            b == self.readable,
    {
        self.readable
    }

    pub fn is_writable(&self) -> (b: bool)
        ensures
            b == self.writable,
    {
        self.writable
    }

    /// Whether the file is the console device.
    pub fn is_console(&self) -> (b: bool)
        ensures
            b == (self.f matches Some(VFile::Device { major, .. }) && major == Major::Console),
    {
        match self.f {
            Some(VFile::Device { major: Major::Console, .. }) => true,
            _ => false,
        }
    }

    /// The inode `(dev, inum)` behind the file, if any.
    pub fn inode(&self) -> (r: Option<(u32, u32)>)
        ensures
            r == spec_lock_key(*self),
    {
        self.lock_key()
    }

    pub fn lock_key(&self) -> (r: Option<(u32, u32)>)
        ensures
            r == spec_lock_key(*self),
    {
        match self.f {
            Some(VFile::Inode { dev, inum }) => Some((dev, inum)),
            Some(VFile::Device { dev, inum, .. }) => Some((dev, inum)),
            _ => None,
        }
    }

    pub fn access_mode_bits(&self) -> (m: usize)
        ensures
            m == spec_access_mode(self.readable, self.writable),
    {
        if self.readable && !self.writable {
            O_RDONLY
        } else if !self.readable && self.writable {
            O_WRONLY
        } else if self.readable && self.writable {
            O_RDWR
        } else {
            O_RDONLY
        }
    }

    pub fn status_flags(&self) -> (flags: usize)
        ensures
            flags == spec_status_flags(*self),
    {
        let mut flags = self.access_mode_bits();
        if self.append {
            flags = flags | O_APPEND;
        }
        if self.nonblock {
            flags = flags | O_NONBLOCK;
        }
        flags
    }

    /// Sets the append and non-blocking flags from `flags`; other bits than
    /// those and the access mode are refused.
    pub fn set_status_flags(&mut self, flags: usize) -> (r: Result<()>)
        ensures
            flags & !(O_APPEND | O_NONBLOCK | O_WRONLY | O_RDWR) != 0 ==> r == Err::<(), Error>(
                Error::InvalidArgument,
            ) && *final(self) == *old(self),
            flags & !(O_APPEND | O_NONBLOCK | O_WRONLY | O_RDWR) == 0 ==> r is Ok && *final(self) == (File {
                append: flags & O_APPEND != 0,
                nonblock: flags & O_NONBLOCK != 0,
                ..*old(self)
            }),
    {
        let allowed = O_APPEND | O_NONBLOCK | O_WRONLY | O_RDWR;
        if flags & !allowed != 0 {
            return Err(Error::InvalidArgument);
        }
        self.append = flags & O_APPEND != 0;
        self.nonblock = flags & O_NONBLOCK != 0;
        Ok(())
    }

    /// Where a read of the file goes: `InvalidArgument` unless it is open
    /// for reading; the pipe's non-blocking read for a non-blocking pipe
    /// end; for a non-blocking console, `WouldBlock` unless it has input
    /// (`console_readable`) and otherwise the device's read; else the
    /// file's ordinary read.
    pub fn read(&self, console_readable: bool) -> (r: Result<IoRoute>)
        requires
            self.f is Some,
        ensures
            r == spec_read_route(*self, console_readable),
    {
        if !self.readable {
            return Err(Error::InvalidArgument);
        }
        match self.f {
            Some(VFile::Pipe { .. }) => {
                if self.nonblock {
                    return Ok(IoRoute::PipeNonblock);
                }
            },
            Some(VFile::Device { major, .. }) => {
                if self.nonblock && major == Major::Console {
                    if !console_readable {
                        return Err(Error::WouldBlock);
                    }
                    return Ok(IoRoute::Device);
                }
            },
            _ => {},
        }
        Ok(IoRoute::File { append: false })
    }

    /// Where a write to the file goes: `InvalidArgument` unless it is open
    /// for writing; the pipe's non-blocking write for a non-blocking pipe
    /// end; else the file's ordinary write, appending if the descriptor
    /// says so.
    pub fn write(&self) -> (r: Result<IoRoute>)
        requires
            self.f is Some,
        ensures
            r == spec_write_route(*self),
    {
        if !self.writable {
            return Err(Error::InvalidArgument);
        }
        match self.f {
            Some(VFile::Pipe { .. }) => {
                if self.nonblock {
                    return Ok(IoRoute::PipeNonblock);
                }
            },
            _ => {},
        }
        Ok(IoRoute::File { append: self.append })
    }

    /// Whether syncing the file makes sense: files and devices are synced
    /// with the log, pipes cannot be.
    pub fn sync(&self) -> (r: Result<()>)
        ensures
            match self.f {
                Some(VFile::Inode { .. }) | Some(VFile::Device { .. }) => r is Ok,
                Some(VFile::Pipe { .. }) => r == Err::<(), Error>(Error::InvalidArgument),
                _ => r == Err::<(), Error>(Error::BadFileDescriptor),
            },
    {
        match self.f {
            Some(VFile::Inode { .. }) | Some(VFile::Device { .. }) => Ok(()),
            Some(VFile::Pipe { .. }) => Err(Error::InvalidArgument),
            _ => Err(Error::BadFileDescriptor),
        }
    }

    /// The events among `events` that are ready, given what the pipe (for a
    /// pipe) and the console (for the console device) report.
    pub fn poll(&self, events: usize, pipe: PipeStatus, console_readable: bool) -> (revents: usize)
        ensures
            revents == spec_poll(*self, events, pipe, console_readable),
    {
        let mut revents: usize = 0;
        match self.f {
            Some(VFile::Pipe { .. }) => {
                if self.readable && events & IN != 0 && pipe.readable {
                    revents = revents | IN;
                }
                if self.writable && events & OUT != 0 && pipe.writable {
                    revents = revents | OUT;
                }
                if self.readable && pipe.read_hup {
                    revents = revents | HUP;
                }
                if self.writable && pipe.write_hup {
                    revents = revents | HUP;
                }
            },
            Some(VFile::Device { major, .. }) => {
                if self.readable && events & IN != 0 {
                    let ready = if major == Major::Console { console_readable } else { true };
                    if ready {
                        revents = revents | IN;
                    }
                }
                if self.writable && events & OUT != 0 {
                    revents = revents | OUT;
                }
            },
            Some(VFile::Inode { .. }) => {
                if self.readable && events & IN != 0 {
                    revents = revents | IN;
                }
                if self.writable && events & OUT != 0 {
                    revents = revents | OUT;
                }
            },
            _ => {},
        }
        proof {
            assert(0usize | IN == IN) by (bit_vector);
            assert(0usize | OUT == OUT) by (bit_vector);
            assert(0usize | HUP == HUP) by (bit_vector);
        }
        revents
    }

    /// The `fcntl` command `cmd` with argument `arg`, by process `pid`. For
    /// the lock commands, `lock` holds the request read from user memory
    /// at `arg` (`copied_in` says whether reading it worked); F_GETLK
    /// reports into it.
    pub fn do_fcntl(
        &mut self,
        cmd: FcntlCmd,
        arg: usize,
        locks: &mut LockTable,
        pid: usize,
        lock: &mut Flock,
        copied_in: Result<()>,
    ) -> (r: Result<usize>)
        ensures
            do_fcntl_post(*old(self), *final(self), *old(locks), *final(locks), *old(lock), *final(lock), cmd, arg, copied_in, r),
    {
        match cmd {
            FcntlCmd::GetFl => {
                return Ok(self.status_flags());
            },
            FcntlCmd::SetFl => {
                match self.set_status_flags(arg) {
                    Ok(_) => {},
                    Err(e) => {
                        return Err(e);
                    },
                }
            },
            FcntlCmd::GetFd => {
                return Ok(if self.cloexec { FD_CLOEXEC } else { 0 });
            },
            FcntlCmd::SetFd => {
                if arg & !FD_CLOEXEC != 0 {
                    return Err(Error::InvalidArgument);
                }
                self.cloexec = arg & FD_CLOEXEC != 0;
            },
            FcntlCmd::GetLk => {
                if arg == 0 {
                    return Err(Error::InvalidArgument);
                }
                match copied_in {
                    Err(e) => {
                        return Err(e);
                    },
                    Ok(_) => {},
                }
                let (dev, inum) = match self.lock_key() {
                    Some(k) => k,
                    None => {
                        return Err(Error::InvalidArgument);
                    },
                };
                match get_lock(locks, dev, inum, pid, lock) {
                    Ok(_) => {},
                    Err(e) => {
                        return Err(e);
                    },
                }
                return Ok(0);
            },
            FcntlCmd::SetLk => {
                if arg == 0 {
                    return Err(Error::InvalidArgument);
                }
                match copied_in {
                    Err(e) => {
                        return Err(e);
                    },
                    Ok(_) => {},
                }
                if lock.l_type == F_RDLCK && !self.readable {
                    return Err(Error::InvalidArgument);
                }
                if lock.l_type == F_WRLCK && !self.writable {
                    return Err(Error::InvalidArgument);
                }
                let (dev, inum) = match self.lock_key() {
                    Some(k) => k,
                    None => {
                        return Err(Error::InvalidArgument);
                    },
                };
                match set_lock(locks, dev, inum, pid, lock) {
                    Ok(_) => {},
                    Err(e) => {
                        return Err(e);
                    },
                }
                return Ok(0);
            },
            FcntlCmd::SetCloexec => {
                self.cloexec = true;
            },
            FcntlCmd::SetNonblock => {
                self.nonblock = true;
            },
            FcntlCmd::ClearNonblock => {
                self.nonblock = false;
            },
            FcntlCmd::Invalid => {
                return Err(Error::InvalidArgument);
            },
        }
        Ok(0)
    }
}

/// The system's open-file table: which slots are in use.
pub struct FTable {
    pub slots: Vec<Option<VFile>>,
}

/// The first free slot of the file table, from `k` on.
pub open spec fn first_free_file_from(s: Seq<Option<VFile>>, k: int) -> Option<int>
    decreases s.len() - k,
{
    if k < 0 || k >= s.len() {
        None
    } else if s[k] is None {
        Some(k)
    } else {
        first_free_file_from(s, k + 1)
    }
}

impl FTable {
    pub fn new() -> (t: Self)
        ensures
            t.slots@.len() == NFILE,
            forall|i: int| 0 <= i < NFILE ==> #[trigger] t.slots@[i] is None,
    {
        let mut slots: Vec<Option<VFile>> = Vec::new();
        let mut i: usize = 0;
        while i < NFILE
            invariant
                0 <= i <= NFILE,
                slots@.len() == i,
                forall|k: int| 0 <= k < i ==> #[trigger] slots@[k] is None,
            decreases NFILE - i,
        {
            slots.push(None);
            i = i + 1;
        }
        FTable { slots }
    }

    /// Puts `vf` in the first free slot and opens it with the flags of
    /// `opts`; `FileTableOverflow` when the table is full.
    pub fn alloc_file(&mut self, opts: &OMode, vf: VFile) -> (r: Result<File>)
        ensures
            match first_free_file_from(old(self).slots@, 0) {
                None => r == Err::<File, Error>(Error::FileTableOverflow) && final(self).slots@ == old(self).slots@,
                Some(i) => final(self).slots@ == old(self).slots@.update(i, Some(vf)) && r == Ok::<File, Error>(
                    File {
                        f: Some(vf),
                        readable: opts.read,
                        writable: opts.write,
                        cloexec: opts.cloexec,
                        nonblock: opts.nonblock,
                        append: opts.append,
                    },
                ),
            },
    {
        let mut i: usize = 0;
        while i < self.slots.len()
            invariant
                self.slots@ == old(self).slots@,
                0 <= i <= self.slots@.len(),
                first_free_file_from(self.slots@, 0) == first_free_file_from(self.slots@, i as int),
            decreases self.slots@.len() - i,
        {
            if self.slots[i].is_none() {
                self.slots.set(i, Some(vf));
                return Ok(
                    File {
                        f: Some(vf),
                        readable: opts.is_read(),
                        writable: opts.is_write(),
                        cloexec: opts.is_cloexec(),
                        nonblock: opts.is_nonblock(),
                        append: opts.is_append(),
                    },
                );
            }
            i = i + 1;
        }
        Err(Error::FileTableOverflow)
    }
}

/// The device switch: the driver registered for each major number, once.
pub struct DevSW {
    pub table: Vec<Option<usize>>,
}

impl DevSW {
    pub fn new() -> (d: Self)
        ensures
            d.table@.len() == NDEV,
            forall|i: int| 0 <= i < NDEV ==> #[trigger] d.table@[i] is None,
    {
        let mut table: Vec<Option<usize>> = Vec::new();
        let mut i: usize = 0;
        while i < NDEV
            invariant
                0 <= i <= NDEV,
                table@.len() == i,
                forall|k: int| 0 <= k < i ==> #[trigger] table@[k] is None,
            decreases NDEV - i,
        {
            table.push(None);
            i = i + 1;
        }
        DevSW { table }
    }

    /// Registers driver `dev` for `devnum`; a second registration is
    /// refused and hands the driver back.
    pub fn set(&mut self, devnum: Major, dev: usize) -> (r: core::result::Result<(), usize>)
        requires
            old(self).table@.len() == NDEV,
        ensures
            final(self).table@.len() == NDEV,
            old(self).table@[devnum.spec_index()] is None ==> r is Ok && final(self).table@ == old(self).table@.update(
                devnum.spec_index(),
                Some(dev),
            ),
            old(self).table@[devnum.spec_index()] is Some ==> r == Err::<(), usize>(dev) && final(self).table@
                == old(self).table@,
    {
        let i = devnum.index();
        if self.table[i].is_some() {
            return Err(dev);
        }
        self.table.set(i, Some(dev));
        Ok(())
    }

    /// The driver registered for `devnum`.
    pub fn get(&self, devnum: Major) -> (r: Option<usize>)
        requires
            self.table@.len() == NDEV,
        ensures
            r == self.table@[devnum.spec_index()],
    {
        self.table[devnum.index()]
    }
}

/// F_GETFL reads back what F_SETFL set: after setting status flags
/// `flags`, the append and non-blocking bits reported are those of `flags`,
/// and the access mode is the file's own.
pub proof fn law_setfl_then_getfl(f: File, flags: usize)
    requires
        flags & !(O_APPEND | O_NONBLOCK | O_WRONLY | O_RDWR) == 0,
    ensures
        ({
            let g = File { append: flags & O_APPEND != 0, nonblock: flags & O_NONBLOCK != 0, ..f };
            &&& spec_status_flags(g) & (O_APPEND | O_NONBLOCK) == flags & (O_APPEND | O_NONBLOCK)
            &&& spec_status_flags(g) & (O_WRONLY | O_RDWR) == spec_access_mode(f.readable, f.writable)
        }),
{
    let m = spec_access_mode(f.readable, f.writable);
    assert(m == 0 || m == 1 || m == 2);
    let a = flags & O_APPEND != 0;
    let n = flags & O_NONBLOCK != 0;
    assert(m <= 2 && (a == (flags & 0x800usize != 0)) && (n == (flags & 0x2000usize != 0)) ==> {
        let b = if a { m | 0x800usize } else { m };
        let s = if n { b | 0x2000usize } else { b };
        &&& s & (0x800usize | 0x2000usize) == flags & (0x800usize | 0x2000usize)
        &&& s & (0x001usize | 0x002usize) == m
    }) by (bit_vector);
}

/// What `do_fcntl` leaves and returns.
pub open spec fn do_fcntl_post(
    os: File,
    ns: File,
    ol: LockTable,
    nl: LockTable,
    oq: Flock,
    nq: Flock,
    cmd: FcntlCmd,
    arg: usize,
    copied_in: Result<()>,
    r: Result<usize>,
) -> bool {
    &&& (cmd != FcntlCmd::GetLk && cmd != FcntlCmd::SetLk ==> nl == ol && nq
                == oq)
    &&& (cmd == FcntlCmd::GetFl ==> r == Ok::<usize, Error>(spec_status_flags(os)) && ns == os)
    &&& (cmd == FcntlCmd::SetFl ==> (if arg & !(O_APPEND | O_NONBLOCK | O_WRONLY | O_RDWR) != 0 {
                r == Err::<usize, Error>(Error::InvalidArgument) && ns == os
            } else {
                r == Ok::<usize, Error>(0) && ns == (File {
                    append: arg & O_APPEND != 0,
                    nonblock: arg & O_NONBLOCK != 0,
                    ..os
                })
            }))
    &&& (cmd == FcntlCmd::GetFd ==> r == Ok::<usize, Error>(if os.cloexec { FD_CLOEXEC } else { 0 })
                && ns == os)
    &&& (cmd == FcntlCmd::SetFd ==> (if arg & !FD_CLOEXEC != 0 {
                r == Err::<usize, Error>(Error::InvalidArgument) && ns == os
            } else {
                r == Ok::<usize, Error>(0) && ns == (File { cloexec: arg & FD_CLOEXEC != 0, ..os })
            }))
    &&& (cmd == FcntlCmd::SetCloexec ==> r == Ok::<usize, Error>(0) && ns == (File {
                cloexec: true,
                ..os
            }))
    &&& (cmd == FcntlCmd::SetNonblock ==> r == Ok::<usize, Error>(0) && ns == (File {
                nonblock: true,
                ..os
            }))
    &&& (cmd == FcntlCmd::ClearNonblock ==> r == Ok::<usize, Error>(0) && ns == (File {
                nonblock: false,
                ..os
            }))
    &&& (cmd == FcntlCmd::Invalid ==> r == Err::<usize, Error>(Error::InvalidArgument) && ns == os)
    &&& (cmd == FcntlCmd::GetLk || cmd == FcntlCmd::SetLk ==> ns == os)
    &&& (cmd == FcntlCmd::GetLk ==> {
                &&& nl == ol
                &&& arg == 0 ==> r == Err::<usize, Error>(Error::InvalidArgument) && nq == oq
                &&& arg != 0 && copied_in is Err ==> r == Err::<usize, Error>(copied_in->Err_0) && nq == oq
                &&& arg != 0 && copied_in is Ok && spec_lock_key(os) is None ==> r == Err::<usize, Error>(
                    Error::InvalidArgument,
                ) && nq == oq
                &&& arg != 0 && copied_in is Ok && spec_lock_key(os) is Some ==> (r is Ok <==> r == Ok::<usize, Error>(0))
            })
    &&& (cmd == FcntlCmd::SetLk ==> {
                &&& arg == 0 ==> r == Err::<usize, Error>(Error::InvalidArgument) && nl == ol
                &&& arg != 0 && copied_in is Err ==> r == Err::<usize, Error>(copied_in->Err_0) && nl == ol
                &&& arg != 0 && copied_in is Ok && ((oq.l_type == F_RDLCK && !os.readable) || (oq.l_type
                    == F_WRLCK && !os.writable) || spec_lock_key(os) is None) ==> r == Err::<usize, Error>(
                    Error::InvalidArgument,
                ) && nl == ol
                &&& nq == oq
            })
}


/// What opening a found (or just created) inode comes to: a device file,
/// or a file or directory, truncated first or not, read and written from
/// `offset`.
#[derive(Clone, Copy, Debug, PartialEq, Eq, Structural)]
pub enum NodeOpen {
    Device,
    Inode { truncate: bool, offset: u32 },
}

/// The decisions of opening an inode of type `itype` (with device number
/// `major`, holding `size` bytes) under `opts`; `created` says it was just
/// created for this open. A directory that existed opens only read-only;
/// a device needs a registered driver; truncating and appending apply to
/// regular files only, appending starting at the end.
pub fn open_node(created: bool, itype: FileType, major: Major, size: u32, opts: &OMode) -> (r: Result<NodeOpen>)
    ensures
        !created && itype == FileType::Dir && !(opts.read && !opts.write) ==> r == Err::<NodeOpen, Error>(
            Error::IsADirectory,
        ),
        !(!created && itype == FileType::Dir && !(opts.read && !opts.write)) ==> {
            if itype == FileType::Device && major != Major::Invalid {
                r == Ok::<NodeOpen, Error>(NodeOpen::Device)
            } else if itype == FileType::Dir || itype == FileType::File {
                let trunc = opts.truncate && itype == FileType::File;
                r == Ok::<NodeOpen, Error>(
                    NodeOpen::Inode {
                        truncate: trunc,
                        offset: if !trunc && opts.append && itype == FileType::File { size } else { 0 },
                    },
                )
            } else {
                r == Err::<NodeOpen, Error>(Error::NoSuchNode)
            }
        },
{
    if !created && itype == FileType::Dir && !opts.is_rdonly() {
        return Err(Error::IsADirectory);
    }
    match itype {
        FileType::Device => {
            if major != Major::Invalid {
                Ok(NodeOpen::Device)
            } else {
                Err(Error::NoSuchNode)
            }
        },
        FileType::Dir | FileType::File => {
            let is_file = itype == FileType::File;
            let trunc = opts.is_trunc() && is_file;
            let offset = if !trunc && opts.is_append() && is_file { size } else { 0 };
            Ok(NodeOpen::Inode { truncate: trunc, offset })
        },
        _ => Err(Error::NoSuchNode),
    }
}

} // verus!
