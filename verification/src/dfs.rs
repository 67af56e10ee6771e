use vstd::prelude::*;
use crate::error::{Error, Result};
use crate::util::{min_usize, sat_add, sat_mul, spec_min, spec_sat_add_usize, spec_sat_mul};

verus! {

pub const DFS_MAGIC: u32 = 0x4446_5331;
pub const DFS_PORT_BASE: u16 = 7000;
pub const DFS_PORT_STRIDE: u16 = 3000;
pub const DFS_PORT_TRIES: usize = 8;
pub const DFS_MAX_CHUNK: usize = 512;
/// Size of an encoded request header.
pub const DFS_REQ_LEN: usize = 24;
/// Size of an encoded response header.
pub const DFS_RESP_LEN: usize = 16;

/// Operations of the remote file protocol.
#[derive(Clone, Copy, Debug, PartialEq, Eq, Structural)]
pub enum DfsOp {
    Open,
    Read,
    Write,
    Close,
    Stat,
    Mkdir,
    Unlink,
    Link,
    Symlink,
    Fsync,
}

impl DfsOp {
    pub open spec fn spec_code(self) -> u16 {
        match self {
            DfsOp::Open => 1,
            DfsOp::Read => 2,
            DfsOp::Write => 3,
            DfsOp::Close => 4,
            DfsOp::Stat => 5,
            DfsOp::Mkdir => 6,
            DfsOp::Unlink => 7,
            DfsOp::Link => 8,
            DfsOp::Symlink => 9,
            DfsOp::Fsync => 10,
        }
    }

    /// The operation's number on the wire.
    pub fn code(self) -> (c: u16)
        ensures
            c == self.spec_code(),
    {
        match self {
            DfsOp::Open => 1,
            DfsOp::Read => 2,
            DfsOp::Write => 3,
            DfsOp::Close => 4,
            DfsOp::Stat => 5,
            DfsOp::Mkdir => 6,
            DfsOp::Unlink => 7,
            DfsOp::Link => 8,
            DfsOp::Symlink => 9,
            DfsOp::Fsync => 10,
        }
    }
}

/// A request header.
#[derive(Clone, Copy, Debug, PartialEq, Eq, Structural)]
pub struct DfsReq {
    pub magic: u32,
    pub op: u16,
    pub pad: u16,
    pub flags: u32,
    pub handle: u32,
    pub len: u32,
    pub aux: u32,
}

impl DfsReq {
    pub fn new(op: DfsOp, flags: u32, handle: u32, len: u32, aux: u32) -> (r: Self)
        ensures
            r == (DfsReq { magic: DFS_MAGIC, op: op.spec_code(), pad: 0, flags, handle, len, aux }),
    {
        DfsReq { magic: DFS_MAGIC, op: op.code(), pad: 0, flags, handle, len, aux }
    }
}

/// A response header: a negative status is an error.
#[derive(Clone, Copy, Debug, PartialEq, Eq, Structural)]
pub struct DfsResp {
    pub magic: u32,
    pub status: i32,
    pub handle: u32,
    pub len: u32,
}

impl DfsResp {
    /// A successful response.
    pub fn ok(handle: u32, len: u32) -> (r: Self)
        ensures
            r == (DfsResp { magic: DFS_MAGIC, status: 0, handle, len }),
    {
        DfsResp { magic: DFS_MAGIC, status: 0, handle, len }
    }
}

/// Little-endian bytes of `x`.
pub open spec fn le16(x: u16) -> Seq<u8> {
    seq![(x % 256) as u8, (x / 256) as u8]
}

pub open spec fn le32(x: u32) -> Seq<u8> {
    seq![(x % 256) as u8, ((x / 256) % 256) as u8, ((x / 65536) % 256) as u8, (x / 16777216) as u8]
}

/// The value of four little-endian bytes.
pub open spec fn from_le32(b: Seq<u8>) -> u32 {
    (b[0] + 256 * b[1] + 65536 * b[2] + 16777216 * b[3]) as u32
}

/// The wire form of a request header.
pub open spec fn spec_req_bytes(r: DfsReq) -> Seq<u8> {
    le32(r.magic) + le16(r.op) + le16(r.pad) + le32(r.flags) + le32(r.handle) + le32(r.len) + le32(r.aux)
}

/// The wire form of a response header.
pub open spec fn spec_resp_bytes(r: DfsResp) -> Seq<u8> {
    le32(r.magic) + le32(r.status as u32) + le32(r.handle) + le32(r.len)
}

pub fn push_le16(out: &mut Vec<u8>, x: u16)
    ensures
        final(out)@ == old(out)@ + le16(x),
{
    out.push((x % 256) as u8);
    out.push((x / 256) as u8);
    assert(final(out)@ =~= old(out)@ + le16(x));
}

pub fn push_le32(out: &mut Vec<u8>, x: u32)
    ensures
        final(out)@ == old(out)@ + le32(x),
{
    out.push((x % 256) as u8);
    out.push(((x / 256) % 256) as u8);
    out.push(((x / 65536) % 256) as u8);
    out.push((x / 16777216) as u8);
    assert(final(out)@ =~= old(out)@ + le32(x));
}

/// The four bytes at `off` as a little-endian number.
pub fn read_le32(b: &[u8], off: usize) -> (x: u32)
    requires
        off + 4 <= b@.len(),
    ensures
        x == from_le32(b@.subrange(off as int, off + 4)),
{
    let b0 = b[off] as u32;
    let b1 = b[off + 1] as u32;
    let b2 = b[off + 2] as u32;
    let b3 = b[off + 3] as u32;
    b0 + 256 * b1 + 65536 * b2 + 16777216 * b3
}

/// Decoding gives back what encoding wrote.
pub proof fn lemma_le32_roundtrip(x: u32)
    ensures
        from_le32(le32(x)) == x,
{
    let b0 = x % 256;
    let b1 = (x / 256) % 256;
    let b2 = (x / 65536) % 256;
    let b3 = x / 16777216;
    assert(b0 + 256 * b1 + 65536 * b2 + 16777216 * b3 == x) by (nonlinear_arith)
        requires
            b0 == x % 256,
            b1 == (x / 256) % 256,
            b2 == (x / 65536) % 256,
            b3 == x / 16777216,
            0 <= x < 0x1_0000_0000,
    {
        vstd::arithmetic::div_mod::lemma_fundamental_div_mod(x as int, 256);
        vstd::arithmetic::div_mod::lemma_fundamental_div_mod(x as int / 256, 256);
        vstd::arithmetic::div_mod::lemma_fundamental_div_mod(x as int / 65536, 256);
        vstd::arithmetic::div_mod::lemma_div_denominator(x as int, 256, 256);
        vstd::arithmetic::div_mod::lemma_div_denominator(x as int, 65536, 256);
    }
}

/// The wire form of request `r`.
pub fn req_bytes(r: &DfsReq) -> (out: Vec<u8>)
    ensures
        out@ == spec_req_bytes(*r),
        out@.len() == DFS_REQ_LEN,
{
    let mut out: Vec<u8> = Vec::new();
    push_le32(&mut out, r.magic);
    push_le16(&mut out, r.op);
    push_le16(&mut out, r.pad);
    push_le32(&mut out, r.flags);
    push_le32(&mut out, r.handle);
    push_le32(&mut out, r.len);
    push_le32(&mut out, r.aux);
    out
}

/// The wire form of response `r`.
pub fn resp_bytes(r: &DfsResp) -> (out: Vec<u8>)
    ensures
        out@ == spec_resp_bytes(*r),
        out@.len() == DFS_RESP_LEN,
{
    let mut out: Vec<u8> = Vec::new();
    push_le32(&mut out, r.magic);
    push_le32(&mut out, r.status as u32);
    push_le32(&mut out, r.handle);
    push_le32(&mut out, r.len);
    out
}

/// Reads a response header from the first bytes of `buf`: too short a
/// buffer or a wrong magic number is refused.
pub fn parse_resp(buf: &[u8]) -> (r: Result<DfsResp>)
    ensures
        buf@.len() < DFS_RESP_LEN ==> r == Err::<DfsResp, Error>(Error::InvalidArgument),
        buf@.len() >= DFS_RESP_LEN ==> ({
            let magic = from_le32(buf@.subrange(0, 4));
            if magic != DFS_MAGIC {
                r == Err::<DfsResp, Error>(Error::InvalidArgument)
            } else {
                r == Ok::<DfsResp, Error>(
                    DfsResp {
                        magic,
                        status: from_le32(buf@.subrange(4, 8)) as i32,
                        handle: from_le32(buf@.subrange(8, 12)),
                        len: from_le32(buf@.subrange(12, 16)),
                    },
                )
            }
        }),
{
    if buf.len() < DFS_RESP_LEN {
        return Err(Error::InvalidArgument);
    }
    let magic = read_le32(buf, 0);
    if magic != DFS_MAGIC {
        return Err(Error::InvalidArgument);
    }
    let status = read_le32(buf, 4) as i32;
    let handle = read_le32(buf, 8);
    let len = read_le32(buf, 12);
    Ok(DfsResp { magic, status, handle, len })
}

/// A response's status: negative numbers are errors, passed on as they
/// are.
pub fn check_status(resp: &DfsResp) -> (r: core::result::Result<(), i32>)
    ensures
        resp.status < 0 ==> r == Err::<(), i32>(resp.status),
        resp.status >= 0 ==> r is Ok,
{
    if resp.status < 0 {
        return Err(resp.status);
    }
    Ok(())
}

/// The ports to try for seat `seat`: one stride apart, capped at 65535.
pub open spec fn spec_port(seat: usize, i: int) -> u16 {
    spec_min(
        DFS_PORT_BASE + spec_sat_mul(spec_sat_add_usize(seat as int, i), DFS_PORT_STRIDE as int),
        u16::MAX as int,
    ) as u16
}

pub fn dfs_port_candidates(seat: usize) -> (ports: Vec<u16>)
    ensures
        ports@.len() == DFS_PORT_TRIES,
        forall|i: int| 0 <= i < DFS_PORT_TRIES ==> #[trigger] ports@[i] == spec_port(seat, i),
{
    let mut ports: Vec<u16> = Vec::new();
    let mut i: usize = 0;
    while i < DFS_PORT_TRIES
        invariant
            0 <= i <= DFS_PORT_TRIES,
            ports@.len() == i,
            forall|j: int| 0 <= j < i ==> #[trigger] ports@[j] == spec_port(seat, j),
        decreases DFS_PORT_TRIES - i,
    {
        let off = sat_mul(sat_add(seat, i), DFS_PORT_STRIDE as usize);
        let p: usize = if off > (u16::MAX as usize) { u16::MAX as usize } else {
            min_usize(DFS_PORT_BASE as usize + off, u16::MAX as usize)
        };
        ports.push(p as u16);
        i = i + 1;
    }
    ports
}

/// "/dfs".
pub open spec fn dfs_prefix() -> Seq<u8> {
    seq![47u8, 100u8, 102u8, 115u8]
}

/// Whether `path` names the remote tree: "/dfs" itself or below "/dfs/".
pub open spec fn spec_is_remote(path: Seq<u8>) -> bool {
    path == dfs_prefix() || (path.len() >= 5 && path.subrange(0, 4) == dfs_prefix() && path[4] == 47u8)
}

/// The remote server's path for `path`: "/" for "/dfs", the part after
/// "/dfs" below it.
pub open spec fn spec_remote_path(path: Seq<u8>) -> Option<Seq<u8>> {
    if path == dfs_prefix() {
        Some(seq![47u8])
    } else if spec_is_remote(path) {
        Some(path.subrange(4, path.len() as int))
    } else {
        None
    }
}

fn starts_with_prefix(path: &[u8]) -> (b: bool)
    ensures
        b == (path@.len() >= 4 && path@.subrange(0, 4) == dfs_prefix()),
{
    if path.len() < 4 {
        return false;
    }
    let b = path[0] == 47u8 && path[1] == 100u8 && path[2] == 102u8 && path[3] == 115u8;
    assert(b == (path@.subrange(0, 4) =~= dfs_prefix()));
    b
}

pub fn is_remote_path(path: &[u8]) -> (b: bool)
    ensures
        b == spec_is_remote(path@),
{
    if !starts_with_prefix(path) {
        assert(path@ != dfs_prefix()) by {
            if path@ == dfs_prefix() {
                assert(path@.subrange(0, 4) =~= dfs_prefix());
            }
        }
        return false;
    }
    if path.len() == 4 {
        assert(path@ =~= dfs_prefix());
        return true;
    }
    assert(path@ != dfs_prefix());
    path[4] == 47u8
}

pub fn remote_path(path: &[u8]) -> (r: Option<Vec<u8>>)
    ensures
        match spec_remote_path(path@) {
            None => r is None,
            Some(p) => r matches Some(v) && v@ == p,
        },
{
    if !is_remote_path(path) {
        return None;
    }
    let mut out: Vec<u8> = Vec::new();
    if path.len() == 4 {
        out.push(47u8);
        assert(path@ =~= dfs_prefix());
        assert(out@ =~= seq![47u8]);
        return Some(out);
    }
    let mut i: usize = 4;
    while i < path.len()
        invariant
            4 <= i <= path@.len(),
            out@ == path@.subrange(4, i as int),
        decreases path@.len() - i,
    {
        out.push(path[i]);
        i = i + 1;
        assert(out@ =~= path@.subrange(4, i as int));
    }
    assert(path@ != dfs_prefix());
    Some(out)
}

/// A request and the payloads that follow it.
pub struct DfsCall {
    pub req: DfsReq,
    pub payloads: Vec<Vec<u8>>,
}

/// A request naming one remote path.
fn path_call(op: DfsOp, path: &[u8], flags: u32) -> (r: Result<DfsCall>)
    ensures
        match spec_remote_path(path@) {
            None => r == Err::<DfsCall, Error>(Error::InvalidArgument),
            Some(p) => r matches Ok(c) && c.req == (DfsReq {
                magic: DFS_MAGIC,
                op: op.spec_code(),
                pad: 0,
                flags,
                handle: 0,
                len: p.len() as u32,
                aux: 0,
            }) && c.payloads@.len() == 1 && c.payloads@[0]@ == p,
        },
{
    let rpath = match remote_path(path) {
        Some(p) => p,
        None => { return Err(Error::InvalidArgument); },
    };
    let req = DfsReq::new(op, flags, 0, rpath.len() as u32, 0);
    let mut payloads: Vec<Vec<u8>> = Vec::new();
    payloads.push(rpath);
    Ok(DfsCall { req, payloads })
}

/// The call that opens remote `path` with open flags `flags`.
pub fn open(path: &[u8], flags: usize) -> (r: Result<DfsCall>)
    ensures
        match spec_remote_path(path@) {
            None => r == Err::<DfsCall, Error>(Error::InvalidArgument),
            Some(p) => r matches Ok(c) && c.req == (DfsReq {
                magic: DFS_MAGIC,
                op: DfsOp::Open.spec_code(),
                pad: 0,
                flags: flags as u32,
                handle: 0,
                len: p.len() as u32,
                aux: 0,
            }) && c.payloads@.len() == 1 && c.payloads@[0]@ == p,
        },
{
    path_call(DfsOp::Open, path, flags as u32)
}

/// The call that makes remote directory `path`.
pub fn mkdir(path: &[u8]) -> (r: Result<DfsCall>)
    ensures
        match spec_remote_path(path@) {
            None => r == Err::<DfsCall, Error>(Error::InvalidArgument),
            Some(p) => r matches Ok(c) && c.req == (DfsReq {
                magic: DFS_MAGIC,
                op: DfsOp::Mkdir.spec_code(),
                pad: 0,
                flags: 0,
                handle: 0,
                len: p.len() as u32,
                aux: 0,
            }) && c.payloads@.len() == 1 && c.payloads@[0]@ == p,
        },
{
    path_call(DfsOp::Mkdir, path, 0)
}

/// The call that removes remote `path`.
pub fn unlink(path: &[u8]) -> (r: Result<DfsCall>)
    ensures
        match spec_remote_path(path@) {
            None => r == Err::<DfsCall, Error>(Error::InvalidArgument),
            Some(p) => r matches Ok(c) && c.req == (DfsReq {
                magic: DFS_MAGIC,
                op: DfsOp::Unlink.spec_code(),
                pad: 0,
                flags: 0,
                handle: 0,
                len: p.len() as u32,
                aux: 0,
            }) && c.payloads@.len() == 1 && c.payloads@[0]@ == p,
        },
{
    path_call(DfsOp::Unlink, path, 0)
}

/// The call that links remote `new` to remote `old`.
pub fn link(old: &[u8], new: &[u8]) -> (r: Result<DfsCall>)
    ensures
        match (spec_remote_path(old@), spec_remote_path(new@)) {
            (Some(o), Some(n)) => r matches Ok(c) && c.req == (DfsReq {
                magic: DFS_MAGIC,
                op: DfsOp::Link.spec_code(),
                pad: 0,
                flags: 0,
                handle: 0,
                len: o.len() as u32,
                aux: n.len() as u32,
            }) && c.payloads@.len() == 2 && c.payloads@[0]@ == o && c.payloads@[1]@ == n,
            _ => r == Err::<DfsCall, Error>(Error::InvalidArgument),
        },
{
    let oldp = match remote_path(old) {
        Some(p) => p,
        None => { return Err(Error::InvalidArgument); },
    };
    let newp = match remote_path(new) {
        Some(p) => p,
        None => { return Err(Error::InvalidArgument); },
    };
    let req = DfsReq::new(DfsOp::Link, 0, 0, oldp.len() as u32, newp.len() as u32);
    let mut payloads: Vec<Vec<u8>> = Vec::new();
    payloads.push(oldp);
    payloads.push(newp);
    Ok(DfsCall { req, payloads })
}

/// The target a symlink stores: remote targets lose their "/dfs" prefix.
pub open spec fn spec_link_target(target: Seq<u8>) -> Seq<u8> {
    match spec_remote_path(target) {
        Some(p) => p,
        None => target,
    }
}

/// The call that makes remote `linkpath` a symbolic link to `target`.
pub fn symlink(target: &[u8], linkpath: &[u8]) -> (r: Result<DfsCall>)
    ensures
        match spec_remote_path(linkpath@) {
            None => r == Err::<DfsCall, Error>(Error::InvalidArgument),
            Some(l) => r matches Ok(c) && c.req == (DfsReq {
                magic: DFS_MAGIC,
                op: DfsOp::Symlink.spec_code(),
                pad: 0,
                flags: 0,
                handle: 0,
                len: spec_link_target(target@).len() as u32,
                aux: l.len() as u32,
            }) && c.payloads@.len() == 2 && c.payloads@[0]@ == spec_link_target(target@) && c.payloads@[1]@ == l,
        },
{
    let linkp = match remote_path(linkpath) {
        Some(p) => p,
        None => { return Err(Error::InvalidArgument); },
    };
    let tgt: Vec<u8> = match remote_path(target) {
        Some(p) => p,
        None => {
            let mut v: Vec<u8> = Vec::new();
            let mut i: usize = 0;
            while i < target.len()
                invariant
                    0 <= i <= target@.len(),
                    v@ == target@.subrange(0, i as int),
                decreases target@.len() - i,
            {
                v.push(target[i]);
                i = i + 1;
                assert(v@ =~= target@.subrange(0, i as int));
            }
            assert(target@.subrange(0, target@.len() as int) =~= target@);
            v
        },
    };
    let req = DfsReq::new(DfsOp::Symlink, 0, 0, tgt.len() as u32, linkp.len() as u32);
    let mut payloads: Vec<Vec<u8>> = Vec::new();
    payloads.push(tgt);
    payloads.push(linkp);
    Ok(DfsCall { req, payloads })
}

/// The call that closes remote file `handle`.
pub fn close(handle: u32) -> (c: DfsCall)
    ensures
        c.req == (DfsReq { magic: DFS_MAGIC, op: DfsOp::Close.spec_code(), pad: 0, flags: 0, handle, len: 0, aux: 0 }),
        c.payloads@.len() == 0,
{
    DfsCall { req: DfsReq::new(DfsOp::Close, 0, handle, 0, 0), payloads: Vec::new() }
}

/// The call that syncs remote file `handle`.
pub fn fsync(handle: u32) -> (c: DfsCall)
    ensures
        c.req == (DfsReq { magic: DFS_MAGIC, op: DfsOp::Fsync.spec_code(), pad: 0, flags: 0, handle, len: 0, aux: 0 }),
        c.payloads@.len() == 0,
{
    DfsCall { req: DfsReq::new(DfsOp::Fsync, 0, handle, 0, 0), payloads: Vec::new() }
}

/// The call that asks for remote file `handle`'s metadata.
pub fn stat(handle: u32) -> (c: DfsCall)
    ensures
        c.req == (DfsReq { magic: DFS_MAGIC, op: DfsOp::Stat.spec_code(), pad: 0, flags: 0, handle, len: 0, aux: 0 }),
        c.payloads@.len() == 0,
{
    DfsCall { req: DfsReq::new(DfsOp::Stat, 0, handle, 0, 0), payloads: Vec::new() }
}

/// The size of the next chunk of a transfer of `n` bytes of which `total`
/// are done.
pub fn chunk_len(n: usize, total: usize) -> (c: usize)
    requires
        total < n,
    ensures
        c == spec_min(DFS_MAX_CHUNK as int, n - total),
        0 < c <= DFS_MAX_CHUNK,
{
    min_usize(DFS_MAX_CHUNK, n - total)
}

/// The bytes sent for `call`: the request header, then each payload.
pub open spec fn spec_frame(req: DfsReq, payloads: Seq<Vec<u8>>) -> Seq<u8>
    decreases payloads.len(),
{
    if payloads.len() == 0 {
        spec_req_bytes(req)
    } else {
        spec_frame(req, payloads.drop_last()) + payloads.last()@
    }
}

pub fn frame(call: &DfsCall) -> (out: Vec<u8>)
    ensures
        out@ == spec_frame(call.req, call.payloads@),
{
    let mut out = req_bytes(&call.req);
    let mut i: usize = 0;
    while i < call.payloads.len()
        invariant
            0 <= i <= call.payloads@.len(),
            out@ == spec_frame(call.req, call.payloads@.subrange(0, i as int)),
        decreases call.payloads@.len() - i,
    {
        let p = &call.payloads[i];
        let mut j: usize = 0;
        let ghost start = out@;
        while j < p.len()
            invariant
                0 <= j <= p@.len(),
                out@ == start + p@.subrange(0, j as int),
            decreases p@.len() - j,
        {
            out.push(p[j]);
            j = j + 1;
            assert(out@ =~= start + p@.subrange(0, j as int));
        }
        proof {
            let s = call.payloads@.subrange(0, i + 1);
            assert(s.drop_last() =~= call.payloads@.subrange(0, i as int));
            assert(p@.subrange(0, p@.len() as int) =~= p@);
        }
        i = i + 1;
    }
    assert(call.payloads@.subrange(0, call.payloads@.len() as int) =~= call.payloads@);
    out
}

/// A response header read back from its wire form is the header: parsing
/// undoes encoding.
pub proof fn law_resp_roundtrip(r: DfsResp)
    requires
        r.magic == DFS_MAGIC,
    ensures
        ({
            let b = spec_resp_bytes(r);
            &&& b.len() == DFS_RESP_LEN
            &&& from_le32(b.subrange(0, 4)) == r.magic
            &&& from_le32(b.subrange(4, 8)) as i32 == r.status
            &&& from_le32(b.subrange(8, 12)) == r.handle
            &&& from_le32(b.subrange(12, 16)) == r.len
        }),
{
    let b = spec_resp_bytes(r);
    lemma_le32_roundtrip(r.magic);
    lemma_le32_roundtrip(r.status as u32);
    lemma_le32_roundtrip(r.handle);
    lemma_le32_roundtrip(r.len);
    assert(b.subrange(0, 4) =~= le32(r.magic));
    assert(b.subrange(4, 8) =~= le32(r.status as u32));
    assert(b.subrange(8, 12) =~= le32(r.handle));
    assert(b.subrange(12, 16) =~= le32(r.len));
    let st: i32 = r.status;
    assert((st as u32) as i32 == st) by (bit_vector);
}


/// Where one exchange with the file server stands.
#[derive(Clone, Copy, Debug, PartialEq, Eq, Structural)]
pub enum RpcState {
    /// Sending part `part` of the request: the header first, then each
    /// payload.
    Sending { part: usize },
    /// Waiting for the reply header.
    AwaitHeader,
    /// Waiting for the data announced by reply header `resp`.
    AwaitData { resp: DfsResp },
    /// The exchange is over.
    Over,
}

/// What the connection did with the last action.
#[derive(Debug)]
pub enum RpcEvent {
    /// A request part was sent, or sending it failed.
    Sent(Result<()>),
    /// The bytes received for a `Recv` (fewer than asked when the
    /// connection ended), or the error receiving them.
    Received(Result<Vec<u8>>),
}

/// What the client does next.
#[derive(Debug)]
pub enum RpcAction {
    /// Send request part `part`.
    Send { part: usize },
    /// Receive exactly `len` bytes.
    Recv { len: usize },
    /// The exchange succeeded with this reply and its data.
    Finish { resp: DfsResp, data: Vec<u8> },
    /// Forget the connection, so that the next call connects afresh, and
    /// fail with `err`.
    Drop { err: Error },
    /// Nothing: the event does not belong to the state.
    Ignore,
}

/// One step of an exchange of a request in `parts` parts: the state
/// reached on event `ev` in state `s`, and what the client does next.
/// Every failure drops the connection.
pub fn rpc_step(s: RpcState, parts: usize, ev: RpcEvent) -> (r: (RpcState, RpcAction))
    requires
        s matches RpcState::Sending { part } ==> part < parts,
    ensures
        r.0 matches RpcState::Sending { part } ==> part < parts,
        r.1 matches RpcAction::Drop { .. } ==> r.0 == RpcState::Over,
        match (s, ev) {
            (RpcState::Sending { part }, RpcEvent::Sent(Err(e))) => r.0 == RpcState::Over && r.1 == RpcAction::Drop { err: e },
            (RpcState::Sending { part }, RpcEvent::Sent(Ok(()))) => if part + 1 < parts {
                r.0 == RpcState::Sending { part: (part + 1) as usize } && r.1 == RpcAction::Send { part: (part + 1) as usize }
            } else {
                r.0 == RpcState::AwaitHeader && r.1 == RpcAction::Recv { len: DFS_RESP_LEN }
            },
            (RpcState::AwaitHeader, RpcEvent::Received(Err(e))) => r.0 == RpcState::Over && r.1 == RpcAction::Drop { err: e },
            (RpcState::AwaitHeader, RpcEvent::Received(Ok(b))) => {
                let magic = from_le32(b@.subrange(0, 4));
                if b@.len() != DFS_RESP_LEN {
                    r.0 == RpcState::Over && r.1 == RpcAction::Drop { err: Error::NotConnected }
                } else if magic != DFS_MAGIC {
                    r.0 == RpcState::Over && r.1 == RpcAction::Drop { err: Error::InvalidArgument }
                } else {
                    let resp = DfsResp {
                        magic,
                        status: from_le32(b@.subrange(4, 8)) as i32,
                        handle: from_le32(b@.subrange(8, 12)),
                        len: from_le32(b@.subrange(12, 16)),
                    };
                    if resp.len == 0 {
                        r.0 == RpcState::Over && (r.1 matches RpcAction::Finish { resp: rr, data } && rr == resp && data@.len() == 0)
                    } else {
                        r.0 == RpcState::AwaitData { resp } && r.1 == RpcAction::Recv { len: resp.len as usize }
                    }
                }
            },
            (RpcState::AwaitData { resp }, RpcEvent::Received(Err(e))) => r.0 == RpcState::Over && r.1 == RpcAction::Drop { err: e },
            (RpcState::AwaitData { resp }, RpcEvent::Received(Ok(d))) => if d@.len() == resp.len {
                r.0 == RpcState::Over && (r.1 matches RpcAction::Finish { resp: rr, data } && rr == resp && data@ == d@)
            } else {
                r.0 == RpcState::Over && r.1 == RpcAction::Drop { err: Error::NotConnected }
            },
            _ => r.0 == s && r.1 == RpcAction::Ignore,
        },
{
    match (s, ev) {
        (RpcState::Sending { part }, RpcEvent::Sent(res)) => match res {
            Err(e) => (RpcState::Over, RpcAction::Drop { err: e }),
            Ok(()) => if part + 1 < parts {
                (RpcState::Sending { part: part + 1 }, RpcAction::Send { part: part + 1 })
            } else {
                (RpcState::AwaitHeader, RpcAction::Recv { len: DFS_RESP_LEN })
            },
        },
        (RpcState::AwaitHeader, RpcEvent::Received(res)) => match res {
            Err(e) => (RpcState::Over, RpcAction::Drop { err: e }),
            Ok(b) => if b.len() != DFS_RESP_LEN {
                (RpcState::Over, RpcAction::Drop { err: Error::NotConnected })
            } else { match parse_resp(b.as_slice()) {
                Err(_) => (RpcState::Over, RpcAction::Drop { err: Error::InvalidArgument }),
                Ok(resp) => if resp.len == 0 {
                    (RpcState::Over, RpcAction::Finish { resp, data: Vec::new() })
                } else {
                    (RpcState::AwaitData { resp }, RpcAction::Recv { len: resp.len as usize })
                },
            } },
        },
        (RpcState::AwaitData { resp }, RpcEvent::Received(res)) => match res {
            Err(e) => (RpcState::Over, RpcAction::Drop { err: e }),
            Ok(d) => if d.len() as u64 == resp.len as u64 {
                (RpcState::Over, RpcAction::Finish { resp, data: d })
            } else {
                (RpcState::Over, RpcAction::Drop { err: Error::NotConnected })
            },
        },
        (s, _) => (s, RpcAction::Ignore),
    }
}

} // verus!
