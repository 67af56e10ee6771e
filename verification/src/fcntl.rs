use vstd::prelude::*;
use crate::error::{Error, Result};

verus! {

// Open-mode bits, shared with user space.
pub const O_RDONLY: usize = 0x000;
pub const O_WRONLY: usize = 0x001;
pub const O_RDWR: usize = 0x002;
pub const O_CREATE: usize = 0x200;
pub const O_TRUNC: usize = 0x400;
pub const O_APPEND: usize = 0x800;
pub const O_CLOEXEC: usize = 0x1000;
pub const O_NONBLOCK: usize = 0x2000;

/// Descriptor flag: close on exec.
pub const FD_CLOEXEC: usize = 0x1;

// Advisory lock types.
pub const F_UNLCK: usize = 0;
pub const F_RDLCK: usize = 1;
pub const F_WRLCK: usize = 2;

#[derive(Clone, Copy, Debug, Default)]
pub struct Flock {
    pub l_type: usize,
    pub l_whence: usize,
    pub l_start: usize,
    pub l_len: usize,
    pub l_pid: usize,
}

/// How a file is opened.
pub struct OMode {
    pub read: bool,
    pub write: bool,
    pub truncate: bool,
    pub create: bool,
    pub append: bool,
    pub cloexec: bool,
    pub nonblock: bool,
}

impl Default for OMode {
    fn default() -> (r: Self)
        ensures
            r == OMode::spec_new(),
    {
        Self::new()
    }
}

impl OMode {
    pub open spec fn spec_new() -> OMode {
        OMode {
            read: false,
            write: false,
            truncate: false,
            create: false,
            append: false,
            cloexec: false,
            nonblock: false,
        }
    }

    pub fn new() -> (r: Self)
        ensures
            r == Self::spec_new(),
    {
        Self {
            read: false,
            write: false,
            truncate: false,
            create: false,
            append: false,
            cloexec: false,
            nonblock: false,
        }
    }

    pub fn read(&mut self, read: bool) -> (r: &mut Self)
        ensures
            *r == (OMode { read, ..*old(self) }),
            *final(self) == *final(r),
    {
        self.read = read;
        self
    }

    pub fn write(&mut self, write: bool) -> (r: &mut Self)
        ensures
            *r == (OMode { write, ..*old(self) }),
            *final(self) == *final(r),
    {
        self.write = write;
        self
    }

    pub fn append(&mut self, append: bool) -> (r: &mut Self)
        ensures
            *r == (OMode { append, ..*old(self) }),
            *final(self) == *final(r),
    {
        self.append = append;
        self
    }

    pub fn cloexec(&mut self, cloexec: bool) -> (r: &mut Self)
        ensures
            *r == (OMode { cloexec, ..*old(self) }),
            *final(self) == *final(r),
    {
        self.cloexec = cloexec;
        self
    }

    pub fn nonblock(&mut self, nonblock: bool) -> (r: &mut Self)
        ensures
            *r == (OMode { nonblock, ..*old(self) }),
            *final(self) == *final(r),
    {
        self.nonblock = nonblock;
        self
    }

    fn truncate(&mut self, truncate: bool) -> (r: &mut Self)
        ensures
            *r == (OMode { truncate, ..*old(self) }),
            *final(self) == *final(r),
    {
        self.truncate = truncate;
        self
    }

    fn create(&mut self, create: bool) -> (r: &mut Self)
        ensures
            *r == (OMode { create, ..*old(self) }),
            *final(self) == *final(r),
    {
        self.create = create;
        self
    }

    /// The mode that the open-flag word `bits` asks for.
    pub open spec fn spec_from_usize(bits: usize) -> OMode {
        OMode {
            read: bits & O_WRONLY == 0,
            write: bits & O_WRONLY != 0 || bits & O_RDWR != 0,
            create: bits & O_CREATE != 0,
            truncate: bits & O_TRUNC != 0,
            append: bits & O_APPEND != 0,
            cloexec: bits & O_CLOEXEC != 0,
            nonblock: bits & O_NONBLOCK != 0,
        }
    }

    pub fn from_usize(bits: usize) -> (r: Self)
        ensures
            r == Self::spec_from_usize(bits),
    {
        let mut mode = Self::new();
        mode.read(bits & O_WRONLY == 0);
        mode.write(bits & O_WRONLY != 0 || bits & O_RDWR != 0);
        mode.create(bits & O_CREATE != 0);
        mode.truncate(bits & O_TRUNC != 0);
        mode.append(bits & O_APPEND != 0);
        mode.cloexec(bits & O_CLOEXEC != 0);
        mode.nonblock(bits & O_NONBLOCK != 0);
        mode
    }

    pub fn is_read(&self) -> (b: bool)
        ensures
            b == self.read,
    {
        self.read
    }

    pub fn is_write(&self) -> (b: bool)
        ensures
            b == self.write,
    {
        self.write
    }

    pub fn is_create(&self) -> (b: bool)
        ensures
            b == self.create,
    {
        self.create
    }

    pub fn is_trunc(&self) -> (b: bool)
        ensures
            b == self.truncate,
    {
        self.truncate
    }

    pub fn is_rdonly(&self) -> (b: bool)
        ensures
            b == (self.read && !self.write),
    {
        self.read && !self.write
    }

    pub fn is_cloexec(&self) -> (b: bool)
        ensures
            b == self.cloexec,
    {
        self.cloexec
    }

    pub fn is_append(&self) -> (b: bool)
        ensures
            b == self.append,
    {
        self.append
    }

    pub fn is_nonblock(&self) -> (b: bool)
        ensures
            b == self.nonblock,
    {
        self.nonblock
    }
}

/// Commands of the `fcntl` system call.
#[derive(Clone, Copy, Debug, PartialEq, Eq, Structural)]
pub enum FcntlCmd {
    GetFl,
    SetFl,
    GetFd,
    SetFd,
    SetCloexec,
    SetNonblock,
    ClearNonblock,
    GetLk,
    SetLk,
    Invalid,
}

impl FcntlCmd {
    pub open spec fn spec_from_usize(bits: usize) -> FcntlCmd {
        if bits == 1 {
            FcntlCmd::GetFl
        } else if bits == 2 {
            FcntlCmd::SetFl
        } else if bits == 3 {
            FcntlCmd::GetFd
        } else if bits == 4 {
            FcntlCmd::SetFd
        } else if bits == 5 {
            FcntlCmd::SetCloexec
        } else if bits == 6 {
            FcntlCmd::SetNonblock
        } else if bits == 7 {
            FcntlCmd::ClearNonblock
        } else if bits == 8 {
            FcntlCmd::GetLk
        } else if bits == 9 {
            FcntlCmd::SetLk
        } else {
            FcntlCmd::Invalid
        }
    }

    pub fn from_usize(bits: usize) -> (c: Self)
        ensures
            c == Self::spec_from_usize(bits),
    {
        match bits {
            1 => Self::GetFl,
            2 => Self::SetFl,
            3 => Self::GetFd,
            4 => Self::SetFd,
            5 => Self::SetCloexec,
            6 => Self::SetNonblock,
            7 => Self::ClearNonblock,
            8 => Self::GetLk,
            9 => Self::SetLk,
            _ => Self::Invalid,
        }
    }
}

#[derive(Clone, Copy, Debug, PartialEq, Eq, Structural)]
pub enum LockKind {
    Read,
    Write,
}

#[derive(Clone, Copy, Debug, PartialEq, Eq, Structural)]
pub struct LockEntry {
    pub dev: u32,
    pub inum: u32,
    pub kind: LockKind,
    pub pid: usize,
}

/// Whole-file advisory locks held by processes.
pub struct LockTable {
    pub entries: Vec<LockEntry>,
}

/// `e` keeps a process other than `pid` from taking a `kind` lock on the file.
pub open spec fn blocks(e: LockEntry, dev: u32, inum: u32, pid: usize, kind: LockKind) -> bool {
    e.dev == dev && e.inum == inum && e.pid != pid && (kind == LockKind::Write || e.kind
        == LockKind::Write)
}

/// `e` is a lock that `pid` holds on the file.
pub open spec fn owned_by(e: LockEntry, dev: u32, inum: u32, pid: usize) -> bool {
    e.dev == dev && e.inum == inum && e.pid == pid
}

/// The entries of `s` that `pid` does not hold on the file, in order.
pub open spec fn without_owned(s: Seq<LockEntry>, dev: u32, inum: u32, pid: usize) -> Seq<
    LockEntry,
>
    decreases s.len(),
{
    if s.len() == 0 {
        s
    } else {
        let rest = without_owned(s.drop_last(), dev, inum, pid);
        if owned_by(s.last(), dev, inum, pid) {
            rest
        } else {
            rest.push(s.last())
        }
    }
}

/// Some entry of `s` blocks the request.
pub open spec fn any_blocks(s: Seq<LockEntry>, dev: u32, inum: u32, pid: usize, kind: LockKind) -> bool {
    exists|i: int| 0 <= i < s.len() && #[trigger] blocks(s[i], dev, inum, pid, kind)
}

/// The lock kind that a lock-type word names, if it names one.
pub open spec fn spec_lock_kind(lock_type: usize) -> Option<Option<LockKind>> {
    if lock_type == F_UNLCK {
        Some(None)
    } else if lock_type == F_RDLCK {
        Some(Some(LockKind::Read))
    } else if lock_type == F_WRLCK {
        Some(Some(LockKind::Write))
    } else {
        None
    }
}

/// A lock request is well formed: whole-file range and a known type.
pub open spec fn flock_valid(lock: Flock) -> bool {
    lock.l_whence == 0 && lock.l_start == 0 && lock.l_len == 0 && spec_lock_kind(lock.l_type)
        is Some
}

pub proof fn lemma_without_owned_facts(s: Seq<LockEntry>, dev: u32, inum: u32, pid: usize)
    ensures
        forall|i: int|
            0 <= i < without_owned(s, dev, inum, pid).len() ==> !owned_by(
                #[trigger] without_owned(s, dev, inum, pid)[i],
                dev,
                inum,
                pid,
            ),
        forall|i: int|
            0 <= i < without_owned(s, dev, inum, pid).len() ==> s.contains(
                #[trigger] without_owned(s, dev, inum, pid)[i],
            ),
        forall|i: int|
            0 <= i < s.len() && !owned_by(#[trigger] s[i], dev, inum, pid) ==> without_owned(
                s,
                dev,
                inum,
                pid,
            ).contains(s[i]),
    decreases s.len(),
{
    if s.len() > 0 {
        lemma_without_owned_facts(s.drop_last(), dev, inum, pid);
        let rest = without_owned(s.drop_last(), dev, inum, pid);
        assert forall|i: int| 0 <= i < rest.len() implies s.contains(#[trigger] rest[i]) by {
            let j = choose|j: int| 0 <= j < s.drop_last().len() && s.drop_last()[j] == rest[i];
            assert(s[j] == rest[i]);
        }
        assert forall|i: int| 0 <= i < s.len() && !owned_by(#[trigger] s[i], dev, inum, pid) implies without_owned(
            s, dev, inum, pid).contains(s[i]) by {
            if i < s.len() - 1 {
                assert(s.drop_last()[i] == s[i]);
                let k = choose|k: int| 0 <= k < rest.len() && rest[k] == s[i];
                if !owned_by(s.last(), dev, inum, pid) {
                    assert(rest.push(s.last())[k] == s[i]);
                }
            } else {
                assert(rest.push(s.last())[rest.len() as int] == s[i]);
            }
        }
        if !owned_by(s.last(), dev, inum, pid) {
            assert forall|i: int| 0 <= i < rest.push(s.last()).len() implies s.contains(
                #[trigger] rest.push(s.last())[i]) by {
                if i < rest.len() {
                    assert(rest.push(s.last())[i] == rest[i]);
                } else {
                    assert(s[s.len() - 1] == s.last());
                }
            }
        }
    }
}

fn lock_kind(lock_type: usize) -> (r: Result<Option<LockKind>>)
    ensures
        match spec_lock_kind(lock_type) {
            Some(k) => r == Ok::<Option<LockKind>, Error>(k),
            None => r == Err::<Option<LockKind>, Error>(Error::InvalidArgument),
        },
{
    match lock_type {
        F_UNLCK => Ok(None),
        F_RDLCK => Ok(Some(LockKind::Read)),
        F_WRLCK => Ok(Some(LockKind::Write)),
        _ => Err(Error::InvalidArgument),
    }
}

fn validate_flock(lock: &Flock) -> (r: Result<()>)
    ensures
        r is Ok <==> flock_valid(*lock),
        r is Err ==> r == Err::<(), Error>(Error::InvalidArgument),
{
    if lock.l_whence != 0 || lock.l_start != 0 || lock.l_len != 0 {
        return Err(Error::InvalidArgument);
    }
    let _ = lock_kind(lock.l_type)?;
    Ok(())
}

impl LockTable {
    pub fn new() -> (t: Self)
        ensures
            t.entries@ == Seq::<LockEntry>::empty(),
    {
        LockTable { entries: Vec::new() }
    }

    /// The first entry that blocks the request, if any.
    pub fn conflict(&self, dev: u32, inum: u32, pid: usize, kind: LockKind) -> (r: Option<
        LockEntry,
    >)
        ensures
            r is None <==> !any_blocks(self.entries@, dev, inum, pid, kind),
            r matches Some(e) ==> exists|i: int|
                0 <= i < self.entries@.len() && self.entries@[i] == e && #[trigger] blocks(
                    self.entries@[i],
                    dev,
                    inum,
                    pid,
                    kind,
                ) && forall|j: int| 0 <= j < i ==> !blocks(#[trigger] self.entries@[j], dev, inum, pid, kind),
    {
        let mut i: usize = 0;
        while i < self.entries.len()
            invariant
                0 <= i <= self.entries@.len(),
                forall|j: int| 0 <= j < i ==> !blocks(#[trigger] self.entries@[j], dev, inum, pid, kind),
            decreases self.entries@.len() - i,
        {
            let e = self.entries[i];
            if !(e.dev != dev || e.inum != inum || e.pid == pid) {
                match (kind, e.kind) {
                    (LockKind::Read, LockKind::Write) | (LockKind::Write, _) => {
                        assert(blocks(self.entries@[i as int], dev, inum, pid, kind));
                        return Some(e);
                    },
                    _ => {},
                }
            }
            i = i + 1;
        }
        None
    }

    /// Drops every lock that `pid` holds on the file.
    pub fn clear_pid(&mut self, dev: u32, inum: u32, pid: usize)
        ensures
            final(self).entries@ == without_owned(old(self).entries@, dev, inum, pid),
    {
        let ghost old_entries = self.entries@;
        let mut kept: Vec<LockEntry> = Vec::new();
        let mut i: usize = 0;
        while i < self.entries.len()
            invariant
                0 <= i <= self.entries@.len(),
                self.entries@ == old_entries,
                kept@ == without_owned(old_entries.subrange(0, i as int), dev, inum, pid),
            decreases self.entries@.len() - i,
        {
            let e = self.entries[i];
            assert(old_entries.subrange(0, i as int + 1).drop_last() =~= old_entries.subrange(
                0,
                i as int,
            ));
            if !(e.dev == dev && e.inum == inum && e.pid == pid) {
                kept.push(e);
            }
            i = i + 1;
        }
        assert(old_entries.subrange(0, old_entries.len() as int) =~= old_entries);
        self.entries = kept;
    }
}

/// Sets (or, for `F_UNLCK`, releases) `pid`'s lock on the file `(dev, inum)`.
/// The process's previous lock on the file is dropped first.
pub fn set_lock(table: &mut LockTable, dev: u32, inum: u32, pid: usize, lock: &Flock) -> (r: Result<()>)
    ensures
        !flock_valid(*lock) ==> r == Err::<(), Error>(Error::InvalidArgument) && final(table).entries@
            == old(table).entries@,
        flock_valid(*lock) ==> ({
            let cleared = without_owned(old(table).entries@, dev, inum, pid);
            match spec_lock_kind(lock.l_type).unwrap() {
                None => r is Ok && final(table).entries@ == cleared,
                Some(kind) => if any_blocks(cleared, dev, inum, pid, kind) {
                    r == Err::<(), Error>(Error::ResourceBusy) && final(table).entries@ == cleared
                } else {
                    r is Ok && final(table).entries@ == cleared.push(
                        LockEntry { dev, inum, kind, pid },
                    )
                },
            }
        }),
{
    validate_flock(lock)?;
    let kind = lock_kind(lock.l_type)?;
    table.clear_pid(dev, inum, pid);
    let kind = match kind {
        None => {
            return Ok(());
        },
        Some(k) => k,
    };
    if table.conflict(dev, inum, pid, kind).is_some() {
        return Err(Error::ResourceBusy);
    }
    table.entries.push(LockEntry { dev, inum, kind, pid });
    Ok(())
}

/// The lock type word that a lock kind is reported as.
pub open spec fn kind_type(k: LockKind) -> usize {
    match k {
        LockKind::Read => F_RDLCK,
        LockKind::Write => F_WRLCK,
    }
}

/// Reports into `lock` the first lock that would block `pid`'s request,
/// or `F_UNLCK` when none would.
pub fn get_lock(table: &LockTable, dev: u32, inum: u32, pid: usize, lock: &mut Flock) -> (r: Result<()>)
    ensures
        !flock_valid(*old(lock)) ==> r == Err::<(), Error>(Error::InvalidArgument) && *final(lock)
            == *old(lock),
        flock_valid(*old(lock)) ==> r is Ok && final(lock).l_whence == old(lock).l_whence
            && final(lock).l_start == old(lock).l_start && final(lock).l_len == old(lock).l_len
            && match spec_lock_kind(old(lock).l_type).unwrap() {
            None => final(lock).l_type == F_UNLCK && final(lock).l_pid == 0,
            Some(kind) => if any_blocks(table.entries@, dev, inum, pid, kind) {
                exists|i: int|
                    0 <= i < table.entries@.len() && #[trigger] blocks(
                        table.entries@[i],
                        dev,
                        inum,
                        pid,
                        kind,
                    ) && (forall|j: int|
                        0 <= j < i ==> !blocks(#[trigger] table.entries@[j], dev, inum, pid, kind))
                        && final(lock).l_type == kind_type(table.entries@[i].kind)
                        && final(lock).l_pid == table.entries@[i].pid
            } else {
                final(lock).l_type == F_UNLCK && final(lock).l_pid == 0
            },
        },
{
    validate_flock(lock)?;
    let kind = match lock_kind(lock.l_type)? {
        None => {
            lock.l_type = F_UNLCK;
            lock.l_pid = 0;
            return Ok(());
        },
        Some(k) => k,
    };
    match table.conflict(dev, inum, pid, kind) {
        Some(entry) => {
            lock.l_type = match entry.kind {
                LockKind::Read => F_RDLCK,
                LockKind::Write => F_WRLCK,
            };
            lock.l_pid = entry.pid;
        },
        None => {
            lock.l_type = F_UNLCK;
            lock.l_pid = 0;
        },
    }
    Ok(())
}

/// Drops every lock that `pid` holds on the file.
pub fn clear_locks(table: &mut LockTable, dev: u32, inum: u32, pid: usize)
    ensures
        final(table).entries@ == without_owned(old(table).entries@, dev, inum, pid),
{
    table.clear_pid(dev, inum, pid);
}

/// A lock that `set_lock` grants is seen by every other process that asks
/// for a conflicting lock on the same file.
pub proof fn law_granted_lock_blocks_others(
    before: Seq<LockEntry>,
    after: Seq<LockEntry>,
    dev: u32,
    inum: u32,
    pid: usize,
    kind: LockKind,
    other: usize,
    other_kind: LockKind,
)
    requires
        after == without_owned(before, dev, inum, pid).push(LockEntry { dev, inum, kind, pid }),
        other != pid,
        kind == LockKind::Write || other_kind == LockKind::Write,
    ensures
        any_blocks(after, dev, inum, other, other_kind),
{
    let n = after.len() - 1;
    assert(blocks(after[n], dev, inum, other, other_kind));
}

/// After `clear_locks`, the process holds no lock on the file, and the
/// other locks are all still there.
pub proof fn law_clear_removes_only_own(before: Seq<LockEntry>, dev: u32, inum: u32, pid: usize)
    ensures
        forall|i: int|
            0 <= i < without_owned(before, dev, inum, pid).len() ==> !owned_by(
                #[trigger] without_owned(before, dev, inum, pid)[i],
                dev,
                inum,
                pid,
            ),
        forall|i: int|
            0 <= i < before.len() && !owned_by(#[trigger] before[i], dev, inum, pid)
                ==> without_owned(before, dev, inum, pid).contains(before[i]),
{
    lemma_without_owned_facts(before, dev, inum, pid);
}


/// Read locks are shared: when every lock that other processes hold on a
/// file is a read lock, a read-lock request on it is not blocked, neither
/// before nor after the requester's own locks are dropped, so `set_lock`
/// grants it and `get_lock` reports `F_UNLCK`. A write lock of another
/// process, on the other hand, blocks every request, and any lock of
/// another process blocks a write request.
pub proof fn law_read_locks_are_shared(s: Seq<LockEntry>, dev: u32, inum: u32, pid: usize)
    ensures
        (forall|i: int|
            0 <= i < s.len() && (#[trigger] s[i]).dev == dev && s[i].inum == inum && s[i].pid != pid
                ==> s[i].kind == LockKind::Read) ==> {
            &&& !any_blocks(s, dev, inum, pid, LockKind::Read)
            &&& !any_blocks(without_owned(s, dev, inum, pid), dev, inum, pid, LockKind::Read)
        },
        forall|i: int|
            0 <= i < s.len() && (#[trigger] s[i]).dev == dev && s[i].inum == inum && s[i].pid != pid
                && s[i].kind == LockKind::Write ==> any_blocks(s, dev, inum, pid, LockKind::Read) && any_blocks(
                s,
                dev,
                inum,
                pid,
                LockKind::Write,
            ),
        forall|i: int|
            0 <= i < s.len() && (#[trigger] s[i]).dev == dev && s[i].inum == inum && s[i].pid != pid
                ==> any_blocks(s, dev, inum, pid, LockKind::Write),
{
    lemma_without_owned_facts(s, dev, inum, pid);
    assert forall|i: int|
        0 <= i < s.len() && (#[trigger] s[i]).dev == dev && s[i].inum == inum && s[i].pid != pid
            implies any_blocks(s, dev, inum, pid, LockKind::Write) by {
        assert(blocks(s[i], dev, inum, pid, LockKind::Write));
    }
    if forall|i: int|
        0 <= i < s.len() && (#[trigger] s[i]).dev == dev && s[i].inum == inum && s[i].pid != pid
            ==> s[i].kind == LockKind::Read {
        let c = without_owned(s, dev, inum, pid);
        assert forall|i: int| 0 <= i < c.len() implies !#[trigger] blocks(c[i], dev, inum, pid, LockKind::Read) by {
            let j = choose|j: int| 0 <= j < s.len() && s[j] == c[i];
            assert(s[j].dev == dev && s[j].inum == inum && s[j].pid != pid ==> s[j].kind == LockKind::Read);
        }
    }
    assert forall|i: int|
        0 <= i < s.len() && (#[trigger] s[i]).dev == dev && s[i].inum == inum && s[i].pid != pid
            && s[i].kind == LockKind::Write implies any_blocks(s, dev, inum, pid, LockKind::Read) && any_blocks(
        s,
        dev,
        inum,
        pid,
        LockKind::Write,
    ) by {
        assert(blocks(s[i], dev, inum, pid, LockKind::Read));
        assert(blocks(s[i], dev, inum, pid, LockKind::Write));
    }
}

} // verus!
