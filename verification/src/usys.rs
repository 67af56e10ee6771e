use vstd::prelude::*;
use crate::syscall::SysCalls;

verus! {

/// How a system call returns: with nothing, with a number, or never.
#[derive(Clone, Copy, Debug, PartialEq, Eq, Structural)]
pub enum Fn {
    U,
    I,
    N,
}

/// The number of system calls, the invalid one included.
pub const NSYSCALLS: usize = 62;

impl SysCalls {
    /// How the call returns.
    pub open spec fn spec_kind(self) -> Fn {
        match self {
            SysCalls::Pipe | SysCalls::Kill | SysCalls::Fstat | SysCalls::Chdir | SysCalls::Sleep | SysCalls::Mknod | SysCalls::Unlink | SysCalls::Link | SysCalls::Mkdir | SysCalls::Close | SysCalls::MunMap | SysCalls::Sigreturn | SysCalls::ShmDetach | SysCalls::ShmDestroy | SysCalls::SemWait | SysCalls::SemPost | SysCalls::SemClose | SysCalls::Fsync | SysCalls::Symlink | SysCalls::Bind | SysCalls::Listen | SysCalls::Connect | SysCalls::Setpgid | SysCalls::Tcsetpgrp | SysCalls::LogCrash => Fn::U,
            SysCalls::Fork | SysCalls::Wait | SysCalls::Read | SysCalls::Exec | SysCalls::Dup | SysCalls::Getpid | SysCalls::Sbrk | SysCalls::Uptime | SysCalls::Open | SysCalls::Write | SysCalls::Dup2 | SysCalls::Fcntl | SysCalls::Nonblock | SysCalls::Freepages | SysCalls::MMap | SysCalls::Clone | SysCalls::Join | SysCalls::ExtIrqCount | SysCalls::KTaskPolls | SysCalls::Poll | SysCalls::Select | SysCalls::Waitpid | SysCalls::Sigaction | SysCalls::Setitimer | SysCalls::ShmCreate | SysCalls::ShmAttach | SysCalls::SemCreate | SysCalls::SemTryWait | SysCalls::Socket | SysCalls::Accept | SysCalls::Getpgrp | SysCalls::Setsid | SysCalls::Tcgetpgrp | SysCalls::Getnprocs | SysCalls::Getnprocsconf => Fn::I,
            SysCalls::Invalid | SysCalls::Exit => Fn::N,
        }
    }

    pub fn kind(self) -> (k: Fn)
        ensures
            k == self.spec_kind(),
    {
        match self {
            SysCalls::Pipe | SysCalls::Kill | SysCalls::Fstat | SysCalls::Chdir | SysCalls::Sleep | SysCalls::Mknod | SysCalls::Unlink | SysCalls::Link | SysCalls::Mkdir | SysCalls::Close | SysCalls::MunMap | SysCalls::Sigreturn | SysCalls::ShmDetach | SysCalls::ShmDestroy | SysCalls::SemWait | SysCalls::SemPost | SysCalls::SemClose | SysCalls::Fsync | SysCalls::Symlink | SysCalls::Bind | SysCalls::Listen | SysCalls::Connect | SysCalls::Setpgid | SysCalls::Tcsetpgrp | SysCalls::LogCrash => Fn::U,
            SysCalls::Fork | SysCalls::Wait | SysCalls::Read | SysCalls::Exec | SysCalls::Dup | SysCalls::Getpid | SysCalls::Sbrk | SysCalls::Uptime | SysCalls::Open | SysCalls::Write | SysCalls::Dup2 | SysCalls::Fcntl | SysCalls::Nonblock | SysCalls::Freepages | SysCalls::MMap | SysCalls::Clone | SysCalls::Join | SysCalls::ExtIrqCount | SysCalls::KTaskPolls | SysCalls::Poll | SysCalls::Select | SysCalls::Waitpid | SysCalls::Sigaction | SysCalls::Setitimer | SysCalls::ShmCreate | SysCalls::ShmAttach | SysCalls::SemCreate | SysCalls::SemTryWait | SysCalls::Socket | SysCalls::Accept | SysCalls::Getpgrp | SysCalls::Setsid | SysCalls::Tcgetpgrp | SysCalls::Getnprocs | SysCalls::Getnprocsconf => Fn::I,
            SysCalls::Invalid | SysCalls::Exit => Fn::N,
        }
    }

    /// The call's parameter list, as written in its user-side signature.
    pub open spec fn spec_params(self) -> Seq<char> {
        match self {
            SysCalls::Invalid => ""@,
            SysCalls::Fork => "()"@,
            SysCalls::Exit => "(xstatus: i32)"@,
            SysCalls::Wait => "(xstatus: &mut i32)"@,
            SysCalls::Pipe => "(p: &mut [usize])"@,
            SysCalls::Read => "(fd: usize, buf: &mut [u8])"@,
            SysCalls::Kill => "(pid: usize, sig: usize)"@,
            SysCalls::Exec => "(filename: &str, argv: &[&str], envp: Option<&[Option<&str>]>)"@,
            SysCalls::Fstat => "(fd: usize, st: &mut Stat)"@,
            SysCalls::Chdir => "(dirname: &str)"@,
            SysCalls::Dup => "(fd: usize)"@,
            SysCalls::Getpid => "()"@,
            SysCalls::Sbrk => "(n: usize)"@,
            SysCalls::Sleep => "(n: usize)"@,
            SysCalls::Uptime => "()"@,
            SysCalls::Open => "(filename: &str, flags: usize)"@,
            SysCalls::Write => "(fd: usize, b: &[u8])"@,
            SysCalls::Mknod => "(file: &str, mj: usize, mi: usize)"@,
            SysCalls::Unlink => "(file: &str)"@,
            SysCalls::Link => "(file1: &str, file2: &str)"@,
            SysCalls::Mkdir => "(dir: &str)"@,
            SysCalls::Close => "(fd: usize)"@,
            SysCalls::Dup2 => "(src: usize, dst: usize)"@,
            SysCalls::Fcntl => "(fd: usize, cmd: FcntlCmd, arg: usize)"@,
            SysCalls::Nonblock => "(fd: usize, on: usize)"@,
            SysCalls::Freepages => "()"@,
            SysCalls::MMap => "(addr: usize, len: usize, prot: usize, flags: usize, fd: usize, offset: usize)"@,
            SysCalls::MunMap => "(addr: usize, len: usize)"@,
            SysCalls::Clone => "(fcn: usize, arg1: usize, arg2: usize, stack: usize)"@,
            SysCalls::Join => "(stack: &mut usize)"@,
            SysCalls::ExtIrqCount => "()"@,
            SysCalls::KTaskPolls => "()"@,
            SysCalls::Poll => "(fds: &mut [poll::PollFd], timeout: isize)"@,
            SysCalls::Select => "(fds: &mut [poll::PollFd], timeout: isize)"@,
            SysCalls::Waitpid => "(pid: isize, xstatus: &mut i32, options: usize)"@,
            SysCalls::Sigaction => "(signum: usize, handler: usize, restorer: usize)"@,
            SysCalls::Sigreturn => "()"@,
            SysCalls::Setitimer => "(initial: usize, interval: usize)"@,
            SysCalls::ShmCreate => "(size: usize)"@,
            SysCalls::ShmAttach => "(id: usize, prot: usize)"@,
            SysCalls::ShmDetach => "(addr: usize)"@,
            SysCalls::ShmDestroy => "(id: usize)"@,
            SysCalls::SemCreate => "(value: usize)"@,
            SysCalls::SemWait => "(id: usize)"@,
            SysCalls::SemTryWait => "(id: usize)"@,
            SysCalls::SemPost => "(id: usize)"@,
            SysCalls::SemClose => "(id: usize)"@,
            SysCalls::Fsync => "(fd: usize)"@,
            SysCalls::Symlink => "(target: &str, linkpath: &str)"@,
            SysCalls::Socket => "(domain: usize, stype: usize, protocol: usize)"@,
            SysCalls::Bind => "(fd: usize, path: &str)"@,
            SysCalls::Listen => "(fd: usize, backlog: usize)"@,
            SysCalls::Accept => "(fd: usize)"@,
            SysCalls::Connect => "(fd: usize, path: &str)"@,
            SysCalls::Setpgid => "(pid: usize, pgid: usize)"@,
            SysCalls::Getpgrp => "()"@,
            SysCalls::Setsid => "()"@,
            SysCalls::Tcgetpgrp => "(fd: usize)"@,
            SysCalls::Tcsetpgrp => "(fd: usize, pgid: usize)"@,
            SysCalls::LogCrash => "(stage: usize)"@,
            SysCalls::Getnprocs => "()"@,
            SysCalls::Getnprocsconf => "()"@,
        }
    }

    pub fn params(self) -> (p: &'static str)
        ensures
            p@ == self.spec_params(),
    {
        match self {
            SysCalls::Invalid => "",
            SysCalls::Fork => "()",
            SysCalls::Exit => "(xstatus: i32)",
            SysCalls::Wait => "(xstatus: &mut i32)",
            SysCalls::Pipe => "(p: &mut [usize])",
            SysCalls::Read => "(fd: usize, buf: &mut [u8])",
            SysCalls::Kill => "(pid: usize, sig: usize)",
            SysCalls::Exec => "(filename: &str, argv: &[&str], envp: Option<&[Option<&str>]>)",
            SysCalls::Fstat => "(fd: usize, st: &mut Stat)",
            SysCalls::Chdir => "(dirname: &str)",
            SysCalls::Dup => "(fd: usize)",
            SysCalls::Getpid => "()",
            SysCalls::Sbrk => "(n: usize)",
            SysCalls::Sleep => "(n: usize)",
            SysCalls::Uptime => "()",
            SysCalls::Open => "(filename: &str, flags: usize)",
            SysCalls::Write => "(fd: usize, b: &[u8])",
            SysCalls::Mknod => "(file: &str, mj: usize, mi: usize)",
            SysCalls::Unlink => "(file: &str)",
            SysCalls::Link => "(file1: &str, file2: &str)",
            SysCalls::Mkdir => "(dir: &str)",
            SysCalls::Close => "(fd: usize)",
            SysCalls::Dup2 => "(src: usize, dst: usize)",
            SysCalls::Fcntl => "(fd: usize, cmd: FcntlCmd, arg: usize)",
            SysCalls::Nonblock => "(fd: usize, on: usize)",
            SysCalls::Freepages => "()",
            SysCalls::MMap => "(addr: usize, len: usize, prot: usize, flags: usize, fd: usize, offset: usize)",
            SysCalls::MunMap => "(addr: usize, len: usize)",
            SysCalls::Clone => "(fcn: usize, arg1: usize, arg2: usize, stack: usize)",
            SysCalls::Join => "(stack: &mut usize)",
            SysCalls::ExtIrqCount => "()",
            SysCalls::KTaskPolls => "()",
            SysCalls::Poll => "(fds: &mut [poll::PollFd], timeout: isize)",
            SysCalls::Select => "(fds: &mut [poll::PollFd], timeout: isize)",
            SysCalls::Waitpid => "(pid: isize, xstatus: &mut i32, options: usize)",
            SysCalls::Sigaction => "(signum: usize, handler: usize, restorer: usize)",
            SysCalls::Sigreturn => "()",
            SysCalls::Setitimer => "(initial: usize, interval: usize)",
            SysCalls::ShmCreate => "(size: usize)",
            SysCalls::ShmAttach => "(id: usize, prot: usize)",
            SysCalls::ShmDetach => "(addr: usize)",
            SysCalls::ShmDestroy => "(id: usize)",
            SysCalls::SemCreate => "(value: usize)",
            SysCalls::SemWait => "(id: usize)",
            SysCalls::SemTryWait => "(id: usize)",
            SysCalls::SemPost => "(id: usize)",
            SysCalls::SemClose => "(id: usize)",
            SysCalls::Fsync => "(fd: usize)",
            SysCalls::Symlink => "(target: &str, linkpath: &str)",
            SysCalls::Socket => "(domain: usize, stype: usize, protocol: usize)",
            SysCalls::Bind => "(fd: usize, path: &str)",
            SysCalls::Listen => "(fd: usize, backlog: usize)",
            SysCalls::Accept => "(fd: usize)",
            SysCalls::Connect => "(fd: usize, path: &str)",
            SysCalls::Setpgid => "(pid: usize, pgid: usize)",
            SysCalls::Getpgrp => "()",
            SysCalls::Setsid => "()",
            SysCalls::Tcgetpgrp => "(fd: usize)",
            SysCalls::Tcsetpgrp => "(fd: usize, pgid: usize)",
            SysCalls::LogCrash => "(stage: usize)",
            SysCalls::Getnprocs => "()",
            SysCalls::Getnprocsconf => "()",
        }
    }

    /// The call's name: the variant's name in lower case.
    pub open spec fn spec_fn_name(self) -> Seq<char> {
        match self {
            SysCalls::Invalid => "invalid"@,
            SysCalls::Fork => "fork"@,
            SysCalls::Exit => "exit"@,
            SysCalls::Wait => "wait"@,
            SysCalls::Pipe => "pipe"@,
            SysCalls::Read => "read"@,
            SysCalls::Kill => "kill"@,
            SysCalls::Exec => "exec"@,
            SysCalls::Fstat => "fstat"@,
            SysCalls::Chdir => "chdir"@,
            SysCalls::Dup => "dup"@,
            SysCalls::Getpid => "getpid"@,
            SysCalls::Sbrk => "sbrk"@,
            SysCalls::Sleep => "sleep"@,
            SysCalls::Uptime => "uptime"@,
            SysCalls::Open => "open"@,
            SysCalls::Write => "write"@,
            SysCalls::Mknod => "mknod"@,
            SysCalls::Unlink => "unlink"@,
            SysCalls::Link => "link"@,
            SysCalls::Mkdir => "mkdir"@,
            SysCalls::Close => "close"@,
            SysCalls::Dup2 => "dup2"@,
            SysCalls::Fcntl => "fcntl"@,
            SysCalls::Nonblock => "nonblock"@,
            SysCalls::Freepages => "freepages"@,
            SysCalls::MMap => "mmap"@,
            SysCalls::MunMap => "munmap"@,
            SysCalls::Clone => "clone"@,
            SysCalls::Join => "join"@,
            SysCalls::ExtIrqCount => "extirqcount"@,
            SysCalls::KTaskPolls => "ktaskpolls"@,
            SysCalls::Poll => "poll"@,
            SysCalls::Select => "select"@,
            SysCalls::Waitpid => "waitpid"@,
            SysCalls::Sigaction => "sigaction"@,
            SysCalls::Sigreturn => "sigreturn"@,
            SysCalls::Setitimer => "setitimer"@,
            SysCalls::ShmCreate => "shmcreate"@,
            SysCalls::ShmAttach => "shmattach"@,
            SysCalls::ShmDetach => "shmdetach"@,
            SysCalls::ShmDestroy => "shmdestroy"@,
            SysCalls::SemCreate => "semcreate"@,
            SysCalls::SemWait => "semwait"@,
            SysCalls::SemTryWait => "semtrywait"@,
            SysCalls::SemPost => "sempost"@,
            SysCalls::SemClose => "semclose"@,
            SysCalls::Fsync => "fsync"@,
            SysCalls::Symlink => "symlink"@,
            SysCalls::Socket => "socket"@,
            SysCalls::Bind => "bind"@,
            SysCalls::Listen => "listen"@,
            SysCalls::Accept => "accept"@,
            SysCalls::Connect => "connect"@,
            SysCalls::Setpgid => "setpgid"@,
            SysCalls::Getpgrp => "getpgrp"@,
            SysCalls::Setsid => "setsid"@,
            SysCalls::Tcgetpgrp => "tcgetpgrp"@,
            SysCalls::Tcsetpgrp => "tcsetpgrp"@,
            SysCalls::LogCrash => "logcrash"@,
            SysCalls::Getnprocs => "getnprocs"@,
            SysCalls::Getnprocsconf => "getnprocsconf"@,
        }
    }

    pub fn fn_name(&self) -> (s: String)
        ensures
            s@ == self.spec_fn_name(),
    {
        let n: &str = match *self {
            SysCalls::Invalid => "invalid",
            SysCalls::Fork => "fork",
            SysCalls::Exit => "exit",
            SysCalls::Wait => "wait",
            SysCalls::Pipe => "pipe",
            SysCalls::Read => "read",
            SysCalls::Kill => "kill",
            SysCalls::Exec => "exec",
            SysCalls::Fstat => "fstat",
            SysCalls::Chdir => "chdir",
            SysCalls::Dup => "dup",
            SysCalls::Getpid => "getpid",
            SysCalls::Sbrk => "sbrk",
            SysCalls::Sleep => "sleep",
            SysCalls::Uptime => "uptime",
            SysCalls::Open => "open",
            SysCalls::Write => "write",
            SysCalls::Mknod => "mknod",
            SysCalls::Unlink => "unlink",
            SysCalls::Link => "link",
            SysCalls::Mkdir => "mkdir",
            SysCalls::Close => "close",
            SysCalls::Dup2 => "dup2",
            SysCalls::Fcntl => "fcntl",
            SysCalls::Nonblock => "nonblock",
            SysCalls::Freepages => "freepages",
            SysCalls::MMap => "mmap",
            SysCalls::MunMap => "munmap",
            SysCalls::Clone => "clone",
            SysCalls::Join => "join",
            SysCalls::ExtIrqCount => "extirqcount",
            SysCalls::KTaskPolls => "ktaskpolls",
            SysCalls::Poll => "poll",
            SysCalls::Select => "select",
            SysCalls::Waitpid => "waitpid",
            SysCalls::Sigaction => "sigaction",
            SysCalls::Sigreturn => "sigreturn",
            SysCalls::Setitimer => "setitimer",
            SysCalls::ShmCreate => "shmcreate",
            SysCalls::ShmAttach => "shmattach",
            SysCalls::ShmDetach => "shmdetach",
            SysCalls::ShmDestroy => "shmdestroy",
            SysCalls::SemCreate => "semcreate",
            SysCalls::SemWait => "semwait",
            SysCalls::SemTryWait => "semtrywait",
            SysCalls::SemPost => "sempost",
            SysCalls::SemClose => "semclose",
            SysCalls::Fsync => "fsync",
            SysCalls::Symlink => "symlink",
            SysCalls::Socket => "socket",
            SysCalls::Bind => "bind",
            SysCalls::Listen => "listen",
            SysCalls::Accept => "accept",
            SysCalls::Connect => "connect",
            SysCalls::Setpgid => "setpgid",
            SysCalls::Getpgrp => "getpgrp",
            SysCalls::Setsid => "setsid",
            SysCalls::Tcgetpgrp => "tcgetpgrp",
            SysCalls::Tcsetpgrp => "tcsetpgrp",
            SysCalls::LogCrash => "logcrash",
            SysCalls::Getnprocs => "getnprocs",
            SysCalls::Getnprocsconf => "getnprocsconf",
        };
        String::from_str(n)
    }
}

/// `c` is white space (the Unicode `White_Space` property).
pub open spec fn is_space(c: char) -> bool {
    let u = c as u32;
    (9 <= u <= 13) || u == 32 || u == 0x85 || u == 0xa0 || u == 0x1680 || (0x2000 <= u <= 0x200a) || u == 0x2028
        || u == 0x2029 || u == 0x202f || u == 0x205f || u == 0x3000
}

fn is_space_char(c: char) -> (b: bool)
    ensures
        b == is_space(c),
{
    let u = c as u32;
    (9 <= u && u <= 13) || u == 32 || u == 0x85 || u == 0xa0 || u == 0x1680 || (0x2000 <= u && u <= 0x200a)
        || u == 0x2028 || u == 0x2029 || u == 0x202f || u == 0x205f || u == 0x3000
}

pub open spec fn trim_start(s: Seq<char>) -> Seq<char>
    decreases s.len(),
{
    if s.len() > 0 && is_space(s[0]) {
        trim_start(s.drop_first())
    } else {
        s
    }
}

pub open spec fn trim_end(s: Seq<char>) -> Seq<char>
    decreases s.len(),
{
    if s.len() > 0 && is_space(s.last()) {
        trim_end(s.drop_last())
    } else {
        s
    }
}

/// `s` without white space at either end.
pub open spec fn trim(s: Seq<char>) -> Seq<char> {
    trim_end(trim_start(s))
}

/// The pieces of `s` between the occurrences of `sep` (one more piece
/// than there are occurrences).
pub open spec fn split_chars(s: Seq<char>, sep: char) -> Seq<Seq<char>>
    decreases s.len(),
{
    if s.len() == 0 {
        seq![Seq::empty()]
    } else {
        let r = split_chars(s.drop_last(), sep);
        if s.last() == sep {
            r.push(Seq::empty())
        } else {
            r.update(r.len() - 1, r.last().push(s.last()))
        }
    }
}

proof fn lemma_split_len(s: Seq<char>, sep: char)
    ensures
        split_chars(s, sep).len() >= 1,
    decreases s.len(),
{
    if s.len() > 0 {
        lemma_split_len(s.drop_last(), sep);
    }
}

/// The first position from `k` on where ": " starts.
pub open spec fn find_colon_space(s: Seq<char>, k: int) -> Option<int>
    decreases s.len() - k,
{
    if k < 0 || k + 1 >= s.len() {
        None
    } else if s[k] == ':' && s[k + 1] == ' ' {
        Some(k)
    } else {
        find_colon_space(s, k + 1)
    }
}

proof fn lemma_find_colon(s: Seq<char>, k: int)
    requires
        0 <= k,
    ensures
        find_colon_space(s, k) matches Some(i) ==> k <= i && i + 1 < s.len(),
    decreases s.len() - k,
{
    if k + 1 < s.len() && !(s[k] == ':' && s[k + 1] == ' ') {
        lemma_find_colon(s, k + 1);
    }
}

/// `s` split at its first ": ", if it has one.
pub open spec fn split_once_colon(s: Seq<char>) -> Option<(Seq<char>, Seq<char>)> {
    match find_colon_space(s, 0) {
        Some(i) => Some((s.take(i), s.skip(i + 2))),
        None => None,
    }
}

/// The `name: type` pairs among `pieces`, each trimmed first.
pub open spec fn parse_pieces(ps: Seq<Seq<char>>) -> Seq<(Seq<char>, Seq<char>)>
    decreases ps.len(),
{
    if ps.len() == 0 {
        Seq::empty()
    } else {
        let r = parse_pieces(ps.drop_last());
        match split_once_colon(trim(ps.last())) {
            Some(x) => r.push(x),
            None => r,
        }
    }
}

/// The `name: type` pairs of a parameter list `(a: A, b: B, ...)`;
/// nothing when it is not wrapped in parentheses.
pub open spec fn spec_args(p: Seq<char>) -> Seq<(Seq<char>, Seq<char>)> {
    if p.len() >= 2 && p[0] == '(' && p.last() == ')' {
        parse_pieces(split_chars(p.subrange(1, p.len() - 1), ','))
    } else {
        Seq::empty()
    }
}

pub open spec fn arg_views<'a>(v: Seq<(&'a str, &'a str)>) -> Seq<(Seq<char>, Seq<char>)> {
    v.map_values(|p: (&'a str, &'a str)| (p.0@, p.1@))
}

/// Whether `s[i]` is white space, for `i < end`.
fn space_at(s: &str, i: usize, end: usize) -> (b: bool)
    requires
        end <= s@.len(),
    ensures
        b == (i < end && is_space(s@[i as int])),
{
    if i < end {
        is_space_char(s.get_char(i))
    } else {
        false
    }
}

/// The bounds of `s[a..b]` with white space trimmed from both ends.
fn trim_bounds(s: &str, a: usize, b: usize) -> (r: (usize, usize))
    requires
        a <= b <= s@.len(),
    ensures
        a <= r.0 <= r.1 <= b,
        s@.subrange(r.0 as int, r.1 as int) == trim(s@.subrange(a as int, b as int)),
{
    let mut i = a;
    while space_at(s, i, b)
        invariant
            a <= i <= b <= s@.len(),
            trim_start(s@.subrange(a as int, b as int)) == trim_start(s@.subrange(i as int, b as int)),
        decreases b - i,
    {
        assert(s@.subrange(i as int, b as int).drop_first() =~= s@.subrange(i + 1, b as int));
        i = i + 1;
    }
    assert(trim_start(s@.subrange(i as int, b as int)) == s@.subrange(i as int, b as int));
    let mut j = b;
    while j > i && space_at(s, j - 1, b)
        invariant
            a <= i <= j <= b <= s@.len(),
            trim_end(s@.subrange(i as int, b as int)) == trim_end(s@.subrange(i as int, j as int)),
        decreases j - i,
    {
        assert(s@.subrange(i as int, j as int).drop_last() =~= s@.subrange(i as int, j - 1));
        j = j - 1;
    }
    assert(trim_end(s@.subrange(i as int, j as int)) == s@.subrange(i as int, j as int));
    (i, j)
}

/// Where ": " first starts in `s[a..b]`, counted from the start of `s`.
fn find_colon(s: &str, a: usize, b: usize) -> (r: Option<usize>)
    requires
        a <= b <= s@.len(),
    ensures
        match find_colon_space(s@.subrange(a as int, b as int), 0) {
            None => r is None,
            Some(k) => r matches Some(x) && x == a + k,
        },
        r matches Some(x) ==> a <= x && x + 2 <= b,
{
    proof {
        lemma_find_colon(s@.subrange(a as int, b as int), 0);
    }
    let ghost t = s@.subrange(a as int, b as int);
    let mut k = a;
    while b - k >= 2
        invariant
            a <= k <= b <= s@.len(),
            t == s@.subrange(a as int, b as int),
            find_colon_space(t, 0) == find_colon_space(t, k - a),
        decreases b - k,
    {
        if s.get_char(k) == ':' && s.get_char(k + 1) == ' ' {
            return Some(k);
        }
        k = k + 1;
    }
    None
}

/// Adds the `name: type` pair of the piece `s[a..b]`, if it has one.
fn push_piece<'a>(s: &'a str, a: usize, b: usize, out: &mut Vec<(&'a str, &'a str)>)
    requires
        a <= b <= s@.len(),
    ensures
        arg_views(final(out)@) == match split_once_colon(trim(s@.subrange(a as int, b as int))) {
            Some(x) => arg_views(old(out)@).push(x),
            None => arg_views(old(out)@),
        },
{
    let (i, j) = trim_bounds(s, a, b);
    let ghost t = s@.subrange(i as int, j as int);
    assert(t == trim(s@.subrange(a as int, b as int)));
    match find_colon(s, i, j) {
        None => {
            assert(split_once_colon(t) is None);
        },
        Some(k) => {
            assert(find_colon_space(t, 0) == Some(k - i));
            let name = s.substring_char(i, k);
            let ty = s.substring_char(k + 2, j);
            out.push((name, ty));
            proof {
                assert(name@ =~= t.take(k - i));
                assert(ty@ =~= t.skip(k - i + 2));
                assert(arg_views(out@) =~= arg_views(old(out)@).push((name@, ty@)));
                assert(split_once_colon(t) == Some((name@, ty@)));
            }
        },
    }
}

/// `pat` occurs in `s` at `i`.
pub open spec fn occurs_at(s: Seq<char>, pat: Seq<char>, i: int) -> bool {
    0 <= i && i + pat.len() <= s.len() && s.subrange(i, i + pat.len()) == pat
}

/// `pat` occurs in `s`.
pub open spec fn has_sub(s: Seq<char>, pat: Seq<char>) -> bool {
    exists|i: int| occurs_at(s, pat, i)
}

fn matches_at(s: &str, pat: &str, i: usize) -> (b: bool)
    ensures
        b == occurs_at(s@, pat@, i as int),
{
    let n = s.unicode_len();
    let m = pat.unicode_len();
    if m > n || i > n - m {
        return false;
    }
    let mut j: usize = 0;
    while j < m
        invariant
            n == s@.len(),
            m == pat@.len(),
            i + m <= n,
            0 <= j <= m,
            forall|q: int| 0 <= q < j ==> s@[i + q] == pat@[q],
        decreases m - j,
    {
        if s.get_char(i + j) != pat.get_char(j) {
            assert(s@.subrange(i as int, i + m)[j as int] != pat@[j as int]);
            return false;
        }
        j = j + 1;
    }
    assert(s@.subrange(i as int, i + m) =~= pat@);
    true
}

fn contains_str(s: &str, pat: &str) -> (b: bool)
    ensures
        b == has_sub(s@, pat@),
{
    let n = s.unicode_len();
    let mut i: usize = 0;
    while i <= n
        invariant
            n == s@.len(),
            forall|q: int| 0 <= q < i ==> !occurs_at(s@, pat@, q),
        decreases n + 1 - i,
    {
        if matches_at(s, pat, i) {
            return true;
        }
        if i == n {
            assert forall|q: int| !occurs_at(s@, pat@, q) by {
                if 0 <= q && q + pat@.len() <= s@.len() {
                    assert(q <= n);
                }
            }
            return false;
        }
        i = i + 1;
    }
    false
}

/// The decimal digits of `n`.
pub open spec fn spec_decimal(n: nat) -> Seq<char>
    decreases n,
{
    if n < 10 {
        seq![(n + 48) as char]
    } else {
        spec_decimal(n / 10) + seq![((n % 10) + 48) as char]
    }
}

fn digit(d: usize) -> (s: &'static str)
    requires
        d < 10,
    ensures
        s@ == seq![(d + 48) as char],
{
    proof {
        reveal_strlit("0");
        reveal_strlit("1");
        reveal_strlit("2");
        reveal_strlit("3");
        reveal_strlit("4");
        reveal_strlit("5");
        reveal_strlit("6");
        reveal_strlit("7");
        reveal_strlit("8");
        reveal_strlit("9");
    }
    if d == 0 {
        "0"
    } else if d == 1 {
        "1"
    } else if d == 2 {
        "2"
    } else if d == 3 {
        "3"
    } else if d == 4 {
        "4"
    } else if d == 5 {
        "5"
    } else if d == 6 {
        "6"
    } else if d == 7 {
        "7"
    } else if d == 8 {
        "8"
    } else {
        "9"
    }
}

/// `n` in decimal.
pub fn decimal(n: usize) -> (s: String)
    ensures
        s@ == spec_decimal(n as nat),
    decreases n,
{
    if n < 10 {
        String::from_str(digit(n))
    } else {
        let mut s = decimal(n / 10);
        s.append(digit(n % 10));
        s
    }
}

pub open spec fn spec_return_type(k: Fn) -> Seq<char> {
    match k {
        Fn::I => "Result<usize>"@,
        Fn::U => "Result<()>"@,
        Fn::N => "!"@,
    }
}

/// The user-side signature of system call `c`.
pub open spec fn spec_signature(c: SysCalls) -> Seq<char> {
    "fn "@ + c.spec_fn_name() + c.spec_params() + " -> "@ + spec_return_type(c.spec_kind())
}

/// The register line that passes argument `i`, `name: ty`, to the call:
/// slices and strings by address, references by pointer, fcntl commands
/// by number, the rest as they are.
pub open spec fn spec_arg_line(i: nat, name: Seq<char>, ty: Seq<char>) -> Seq<char> {
    let head = "            in(\"a"@ + spec_decimal(i) + "\") "@;
    if has_sub(ty, "&str"@) || has_sub(ty, "&["@) || has_sub(ty, "&mut ["@) {
        head + "&"@ + name + " as *const _ as usize,\n"@
    } else if !has_sub(ty, "]"@) && has_sub(ty, "&mut "@) {
        head + name + " as *mut _ as usize,\n"@
    } else if !has_sub(ty, "]"@) && has_sub(ty, "&"@) {
        head + name + " as *const _ as usize,\n"@
    } else if has_sub(ty, "FcntlCmd"@) {
        head + name + " as usize,\n"@
    } else {
        head + name + ",\n"@
    }
}

/// The register lines of the arguments `a`, numbered from 0.
pub open spec fn spec_args_text(a: Seq<(Seq<char>, Seq<char>)>) -> Seq<char>
    decreases a.len(),
{
    if a.len() == 0 {
        Seq::empty()
    } else {
        spec_args_text(a.drop_last()) + spec_arg_line((a.len() - 1) as nat, a.last().0, a.last().1)
    }
}

/// How the stub turns the returned register into its result.
pub open spec fn spec_ret_code(k: Fn) -> Seq<char> {
    match k {
        Fn::I => "match _ret { 0.. => Ok(_ret as usize), _ => Err(Error::from_isize(_ret)) }"@,
        Fn::U => "match _ret { 0 => Ok(()), _ => Err(Error::from_isize(_ret)) }"@,
        Fn::N => "unreachable!()"@,
    }
}

/// The user-side stub of system call `c`: its signature, an `ecall` with
/// the arguments in a0 onwards and the call's number in a7, and the
/// conversion of the result.
pub open spec fn spec_usys(c: SysCalls) -> Seq<char> {
    "\npub "@ + spec_signature(c) + " {\n    let _ret: isize;\n    unsafe {\n        asm!(\n            \"ecall\","@ + "\n"@
        + spec_args_text(spec_args(c.spec_params())) + "            in(\"a7\") "@ + spec_decimal(c.spec_number() as nat)
        + ",\n            lateout(\"a0\") _ret,\n        );\n    }\n"@ + "    "@ + spec_ret_code(c.spec_kind()) + "\n}"@
}

fn push_arg_line(out: &mut String, i: usize, name: &str, ty: &str)
    ensures
        final(out)@ == old(out)@ + spec_arg_line(i as nat, name@, ty@),
{
    let ghost o = out@;
    out.append("            in(\"a");
    let d = decimal(i);
    out.append(d.as_str());
    out.append("\") ");
    let ghost h = out@;
    if contains_str(ty, "&str") || contains_str(ty, "&[") || contains_str(ty, "&mut [") {
        out.append("&");
        out.append(name);
        out.append(" as *const _ as usize,\n");
    } else if !contains_str(ty, "]") && contains_str(ty, "&mut ") {
        out.append(name);
        out.append(" as *mut _ as usize,\n");
    } else if !contains_str(ty, "]") && contains_str(ty, "&") {
        out.append(name);
        out.append(" as *const _ as usize,\n");
    } else if contains_str(ty, "FcntlCmd") {
        out.append(name);
        out.append(" as usize,\n");
    } else {
        out.append(name);
        out.append(",\n");
    }
    assert(out@ =~= o + spec_arg_line(i as nat, name@, ty@));
}

impl SysCalls {
    /// All system calls, in the order of their numbers.
    pub fn into_enum_iter() -> (r: Vec<SysCalls>)
        ensures
            r@.len() == NSYSCALLS,
            forall|i: int| 0 <= i < NSYSCALLS ==> #[trigger] r@[i] == SysCalls::spec_from_usize(i as usize),
    {
        let mut r: Vec<SysCalls> = Vec::new();
        let mut n: usize = 0;
        while n < NSYSCALLS
            invariant
                0 <= n <= NSYSCALLS,
                r@.len() == n,
                forall|i: int| 0 <= i < n ==> #[trigger] r@[i] == SysCalls::spec_from_usize(i as usize),
            decreases NSYSCALLS - n,
        {
            r.push(SysCalls::from_usize(n));
            n = n + 1;
        }
        r
    }

    /// The type the user-side call returns.
    pub fn return_type(&self) -> (r: &'static str)
        ensures
            r@ == spec_return_type(self.spec_kind()),
    {
        match self.kind() {
            Fn::I => "Result<usize>",
            Fn::U => "Result<()>",
            Fn::N => "!",
        }
    }

    /// The user-side signature: `fn name(params) -> type`.
    pub fn signature(self) -> (s: String)
        ensures
            s@ == spec_signature(self),
    {
        let mut s = String::from_str("fn ");
        let name = self.fn_name();
        s.append(name.as_str());
        s.append(self.params());
        s.append(" -> ");
        s.append(self.return_type());
        s
    }

    /// The `name: type` pairs of the call's parameters.
    pub fn args(&self) -> (r: Vec<(&'static str, &'static str)>)
        requires
            *self != SysCalls::Invalid,
        ensures
            arg_views(r@) == spec_args(self.spec_params()),
    {
        let p: &'static str = self.params();
        let n = p.unicode_len();
        let mut out: Vec<(&'static str, &'static str)> = Vec::new();
        if n < 2 || p.get_char(0) != '(' || p.get_char(n - 1) != ')' {
            assert(arg_views(out@) =~= Seq::empty());
            return out;
        }
        let ghost inner = p@.subrange(1, n - 1);
        let mut start: usize = 1;
        let mut i: usize = 1;
        proof {
            assert(inner.take(0) =~= Seq::<char>::empty());
            assert(split_chars(inner.take(0), ',') == seq![Seq::<char>::empty()]);
            assert(split_chars(inner.take(0), ',').drop_last() =~= Seq::<Seq<char>>::empty());
            assert(arg_views(out@) =~= Seq::empty());
            assert(p@.subrange(1, 1) =~= Seq::<char>::empty());
        }
        while i < n - 1
            invariant
                n == p@.len(),
                n >= 2,
                inner == p@.subrange(1, n - 1),
                1 <= start <= i <= n - 1,
                arg_views(out@) == parse_pieces(split_chars(inner.take(i - 1), ',').drop_last()),
                split_chars(inner.take(i - 1), ',').last() == p@.subrange(start as int, i as int),
            decreases n - 1 - i,
        {
            let ghost x = inner.take(i - 1);
            let ghost x1 = inner.take(i as int);
            proof {
                lemma_split_len(x, ',');
                assert(x1.drop_last() =~= x);
                assert(x1.last() == p@[i as int]);
            }
            if p.get_char(i) == ',' {
                push_piece(p, start, i, &mut out);
                proof {
                    let sx = split_chars(x, ',');
                    assert(split_chars(x1, ',') == sx.push(Seq::empty()));
                    assert(split_chars(x1, ',').drop_last() =~= sx);
                    assert(sx.drop_last().push(sx.last()) =~= sx);
                    assert(p@.subrange(i + 1, i + 1) =~= Seq::<char>::empty());
                }
                start = i + 1;
            } else {
                proof {
                    let sx = split_chars(x, ',');
                    assert(split_chars(x1, ',') == sx.update(sx.len() - 1, sx.last().push(p@[i as int])));
                    assert(split_chars(x1, ',').drop_last() =~= sx.drop_last());
                    assert(p@.subrange(start as int, i + 1) =~= p@.subrange(start as int, i as int).push(p@[i as int]));
                }
            }
            i = i + 1;
        }
        proof {
            let sx = split_chars(inner, ',');
            assert(inner.take(i - 1) =~= inner);
            lemma_split_len(inner, ',');
            assert(sx.drop_last().push(sx.last()) =~= sx);
        }
        push_piece(p, start, n - 1, &mut out);
        out
    }

    /// The user-side stub that makes the call.
    pub fn gen_usys(self) -> (s: String)
        requires
            self != SysCalls::Invalid,
        ensures
            s@ == spec_usys(self),
    {
        let sig = self.signature();
        let mut out = String::from_str("\npub ");
        out.append(sig.as_str());
        out.append(" {\n    let _ret: isize;\n    unsafe {\n        asm!(\n            \"ecall\",");
        out.append("\n");
        let ghost p1 = out@;
        let args = self.args();
        let ghost av = arg_views(args@);
        let mut k: usize = 0;
        while k < args.len()
            invariant
                av == arg_views(args@),
                av.len() == args@.len(),
                0 <= k <= args@.len(),
                out@ == p1 + spec_args_text(av.take(k as int)),
            decreases args@.len() - k,
        {
            let (name, ty) = args[k];
            push_arg_line(&mut out, k, name, ty);
            proof {
                assert(av.take(k + 1).drop_last() =~= av.take(k as int));
                assert(av[k as int] == (name@, ty@));
                assert(out@ =~= p1 + spec_args_text(av.take(k + 1)));
            }
            k = k + 1;
        }
        assert(av.take(k as int) =~= av);
        out.append("            in(\"a7\") ");
        let num = decimal(self.number());
        out.append(num.as_str());
        out.append(",\n            lateout(\"a0\") _ret,\n        );\n    }\n");
        out.append("    ");
        let code: &str = match self.kind() {
            Fn::I => "match _ret { 0.. => Ok(_ret as usize), _ => Err(Error::from_isize(_ret)) }",
            Fn::U => "match _ret { 0 => Ok(()), _ => Err(Error::from_isize(_ret)) }",
            Fn::N => "unreachable!()",
        };
        out.append(code);
        out.append("\n}");
        out
    }
}

} // verus!
