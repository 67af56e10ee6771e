//! The network stack's packet logic: the Internet checksum, the framing
//! of Ethernet, ARP, IPv4, UDP and TCP, the address table, routing, and
//! the reading of received frames.
//!
//! Addresses are four address bytes; all multi-byte fields on the wire
//! are big-endian.

use vstd::prelude::*;

verus! {

pub const ETHERTYPE_ARP: u16 = 0x0806;
pub const ETHERTYPE_IPV4: u16 = 0x0800;
pub const IP_PROTO_UDP: u8 = 17;
pub const IP_PROTO_TCP: u8 = 6;
pub const DEFAULT_TTL: u8 = 64;
pub const ARP_TABLE_SIZE: usize = 16;
pub const MSS: usize = 512;

/// Big-endian bytes of `x`.
pub open spec fn be16(x: u16) -> Seq<u8> {
    seq![(x / 256) as u8, (x % 256) as u8]
}

pub open spec fn be32(x: u32) -> Seq<u8> {
    seq![(x / 0x100_0000) as u8, ((x / 0x1_0000) % 256) as u8, ((x / 256) % 256) as u8, (x % 256) as u8]
}

pub fn push_be16(out: &mut Vec<u8>, x: u16)
    ensures
        final(out)@ == old(out)@ + be16(x),
{
    out.push((x / 256) as u8);
    out.push((x % 256) as u8);
    assert(final(out)@ =~= old(out)@ + be16(x));
}

pub fn push_be32(out: &mut Vec<u8>, x: u32)
    ensures
        final(out)@ == old(out)@ + be32(x),
{
    out.push((x / 0x100_0000) as u8);
    out.push(((x / 0x1_0000) % 256) as u8);
    out.push(((x / 256) % 256) as u8);
    out.push((x % 256) as u8);
    assert(final(out)@ =~= old(out)@ + be32(x));
}

pub fn push_bytes(out: &mut Vec<u8>, b: &[u8])
    ensures
        final(out)@ == old(out)@ + b@,
{
    let mut i: usize = 0;
    while i < b.len()
        invariant
            i <= b@.len(),
            out@ == old(out)@ + b@.take(i as int),
        decreases b@.len() - i,
    {
        out.push(b[i]);
        assert(out@ =~= old(out)@ + b@.take(i + 1));
        i = i + 1;
    }
    assert(b@.take(b@.len() as int) =~= b@);
}

/// The 16-bit big-endian word at byte `2k` of `d`.
pub open spec fn word_at(d: Seq<u8>, k: int) -> int {
    d[2 * k] * 256 + d[2 * k + 1]
}

/// The sum of the first `n` 16-bit words of `d`.
pub open spec fn words_sum(d: Seq<u8>, n: int) -> int
    decreases n,
{
    if n <= 0 {
        0
    } else {
        words_sum(d, n - 1) + word_at(d, n - 1)
    }
}

/// The sum of `d` taken as big-endian 16-bit words, a last odd byte
/// padded with a zero byte.
pub open spec fn be_sum(d: Seq<u8>) -> int {
    words_sum(d, (d.len() / 2) as int) + if d.len() % 2 == 1 { d[d.len() - 1] * 256 } else { 0 }
}

proof fn lemma_words_sum_bound(d: Seq<u8>, n: int)
    requires
        0 <= n,
        2 * n <= d.len(),
    ensures
        0 <= words_sum(d, n) <= 65535 * n,
    decreases n,
{
    if n > 0 {
        lemma_words_sum_bound(d, n - 1);
    }
}

/// Adds the words of `data` to `sum`.
pub fn checksum_add(sum: u32, data: &[u8]) -> (r: u32)
    requires
        sum + 65535 * (data@.len() / 2 + 1) <= u32::MAX,
    ensures
        r == sum + be_sum(data@),
{
    let mut s = sum;
    let mut i: usize = 0;
    let ghost n2: int = (data@.len() / 2) as int;
    proof {
        lemma_words_sum_bound(data@, n2);
    }
    while i + 1 < data.len()
        invariant
            i % 2 == 0,
            i <= data@.len(),
            n2 == data@.len() / 2,
            i / 2 <= n2,
            sum + 65535 * (data@.len() / 2 + 1) <= u32::MAX,
            s == sum + words_sum(data@, (i / 2) as int),
        decreases data@.len() - i,
    {
        proof {
            lemma_words_sum_bound(data@, (i / 2) as int + 1);
        }
        let w = (data[i] as u32) * 256 + (data[i + 1] as u32);
        assert(w == word_at(data@, (i / 2) as int));
        s = s + w;
        i = i + 2;
    }
    assert(i / 2 == n2);
    if i < data.len() {
        s = s + (data[i] as u32) * 256;
    }
    s
}

/// The end-around-carry fold of a one's-complement sum.
pub open spec fn fold16(s: int) -> int
    decreases s,
{
    if s < 0x1_0000 {
        s
    } else {
        fold16(s % 0x1_0000 + s / 0x1_0000)
    }
}

/// The Internet checksum of a word sum: its folded sum, complemented.
pub open spec fn spec_finalize(s: int) -> u16 {
    (0xffff - fold16(s)) as u16
}

pub fn finalize_checksum(sum: u32) -> (r: u16)
    ensures
        r == spec_finalize(sum as int),
{
    let mut s = sum;
    while (s >> 16) != 0
        invariant
            fold16(s as int) == fold16(sum as int),
        decreases s,
    {
        let lo = s & 0xffff;
        let hi = s >> 16;
        assert(lo == s % 0x1_0000 && hi == s / 0x1_0000) by (bit_vector)
            requires
                lo == s & 0xffff,
                hi == s >> 16,
        ;
        assert(hi > 0) by (bit_vector)
            requires
                hi == s >> 16,
                (s >> 16) != 0,
        ;
        s = lo + hi;
    }
    assert(s < 0x1_0000) by (bit_vector)
        requires
            (s >> 16) == 0,
    ;
    let r = !(s as u16);
    assert(r == 0xffff - s) by (bit_vector)
        requires
            s < 0x1_0000,
            r == !(s as u16),
    ;
    r
}

/// The Internet checksum of `data`.
pub fn checksum(data: &[u8]) -> (r: u16)
    requires
        65535 * (data@.len() / 2 + 1) <= u32::MAX,
    ensures
        r == spec_finalize(be_sum(data@)),
{
    finalize_checksum(checksum_add(0, data))
}

/// The big-endian 16-bit value at byte `i` of `d`.
pub open spec fn be16_at(d: Seq<u8>, i: int) -> int {
    d[i] * 256 + d[i + 1]
}

pub open spec fn be32_at(d: Seq<u8>, i: int) -> int {
    d[i] * 0x100_0000 + d[i + 1] * 0x1_0000 + d[i + 2] * 256 + d[i + 3]
}

fn read_be16(d: &[u8], i: usize) -> (r: u16)
    requires
        i + 2 <= d@.len(),
    ensures
        r == be16_at(d@, i as int),
{
    (d[i] as u16) * 256 + (d[i + 1] as u16)
}

fn read_be32(d: &[u8], i: usize) -> (r: u32)
    requires
        i + 4 <= d@.len(),
    ensures
        r == be32_at(d@, i as int),
{
    (d[i] as u32) * 0x100_0000 + (d[i + 1] as u32) * 0x1_0000 + (d[i + 2] as u32) * 256 + (d[i + 3] as u32)
}

/// The bytes of `d` from `lo` up to `hi`.
pub fn slice_bytes(d: &[u8], lo: usize, hi: usize) -> (r: Vec<u8>)
    requires
        lo <= hi <= d@.len(),
    ensures
        r@ == d@.subrange(lo as int, hi as int),
{
    let mut out: Vec<u8> = Vec::new();
    let mut i: usize = lo;
    while i < hi
        invariant
            lo <= i <= hi <= d@.len(),
            out@ == d@.subrange(lo as int, i as int),
        decreases hi - i,
    {
        out.push(d[i]);
        assert(out@ =~= d@.subrange(lo as int, i + 1));
        i = i + 1;
    }
    out
}

/// An Ethernet frame: destination, source, type, payload.
pub open spec fn spec_eth_frame(dst: Seq<u8>, src: Seq<u8>, ethertype: u16, payload: Seq<u8>) -> Seq<u8> {
    dst + src + be16(ethertype) + payload
}

pub fn build_eth_frame(dst_mac: [u8; 6], src_mac: [u8; 6], ethertype: u16, payload: &[u8]) -> (r: Vec<u8>)
    ensures
        r@ == spec_eth_frame(dst_mac@, src_mac@, ethertype, payload@),
{
    let mut buf: Vec<u8> = Vec::new();
    push_bytes(&mut buf, dst_mac.as_slice());
    push_bytes(&mut buf, src_mac.as_slice());
    push_be16(&mut buf, ethertype);
    push_bytes(&mut buf, payload);
    buf
}

/// An IPv4 header without options, with total length `total` and header
/// checksum `csum`.
pub open spec fn spec_ipv4_header(proto: u8, src: Seq<u8>, dst: Seq<u8>, total: u16, csum: u16) -> Seq<u8> {
    seq![0x45u8, 0u8] + be16(total) + be16(0) + be16(0) + seq![DEFAULT_TTL, proto] + be16(csum) + src + dst
}

/// An IPv4 packet: its header, checksummed, then the payload.
pub open spec fn spec_ipv4_packet(proto: u8, src: Seq<u8>, dst: Seq<u8>, payload: Seq<u8>) -> Seq<u8> {
    let total = (20 + payload.len()) as u16;
    let csum = spec_finalize(be_sum(spec_ipv4_header(proto, src, dst, total, 0)));
    spec_ipv4_header(proto, src, dst, total, csum) + payload
}

fn ipv4_header(proto: u8, src: [u8; 4], dst: [u8; 4], total: u16, csum: u16) -> (r: Vec<u8>)
    ensures
        r@ == spec_ipv4_header(proto, src@, dst@, total, csum),
        r@.len() == 20,
{
    let mut buf: Vec<u8> = Vec::new();
    buf.push(0x45);
    buf.push(0);
    push_be16(&mut buf, total);
    push_be16(&mut buf, 0);
    push_be16(&mut buf, 0);
    buf.push(DEFAULT_TTL);
    buf.push(proto);
    push_be16(&mut buf, csum);
    push_bytes(&mut buf, src.as_slice());
    push_bytes(&mut buf, dst.as_slice());
    assert(buf@ =~= spec_ipv4_header(proto, src@, dst@, total, csum));
    buf
}

pub fn build_ipv4_packet(proto: u8, src: [u8; 4], dst: [u8; 4], payload: &[u8]) -> (r: Vec<u8>)
    requires
        payload@.len() + 20 <= u16::MAX,
    ensures
        r@ == spec_ipv4_packet(proto, src@, dst@, payload@),
{
    let total = (20 + payload.len()) as u16;
    let h0 = ipv4_header(proto, src, dst, total, 0);
    let csum = checksum(h0.as_slice());
    let mut buf = ipv4_header(proto, src, dst, total, csum);
    push_bytes(&mut buf, payload);
    buf
}

/// An ARP packet for IPv4 over Ethernet with operation `op`.
pub open spec fn spec_arp(op: u16, smac: Seq<u8>, sip: Seq<u8>, tmac: Seq<u8>, tip: Seq<u8>) -> Seq<u8> {
    be16(1) + be16(ETHERTYPE_IPV4) + seq![6u8, 4u8] + be16(op) + smac + sip + tmac + tip
}

pub fn arp_packet(op: u16, smac: [u8; 6], sip: [u8; 4], tmac: [u8; 6], tip: [u8; 4]) -> (r: Vec<u8>)
    ensures
        r@ == spec_arp(op, smac@, sip@, tmac@, tip@),
{
    let mut buf: Vec<u8> = Vec::new();
    push_be16(&mut buf, 1);
    push_be16(&mut buf, ETHERTYPE_IPV4);
    buf.push(6);
    buf.push(4);
    push_be16(&mut buf, op);
    push_bytes(&mut buf, smac.as_slice());
    push_bytes(&mut buf, sip.as_slice());
    push_bytes(&mut buf, tmac.as_slice());
    push_bytes(&mut buf, tip.as_slice());
    assert(buf@ =~= spec_arp(op, smac@, sip@, tmac@, tip@));
    buf
}

/// A UDP datagram: ports, length, a zero checksum, payload.
pub open spec fn spec_udp(sport: u16, dport: u16, payload: Seq<u8>) -> Seq<u8> {
    be16(sport) + be16(dport) + be16((8 + payload.len()) as u16) + be16(0) + payload
}

pub fn udp_segment(sport: u16, dport: u16, payload: &[u8]) -> (r: Vec<u8>)
    requires
        payload@.len() + 8 <= u16::MAX,
    ensures
        r@ == spec_udp(sport, dport, payload@),
{
    let mut buf: Vec<u8> = Vec::new();
    push_be16(&mut buf, sport);
    push_be16(&mut buf, dport);
    push_be16(&mut buf, (8 + payload.len()) as u16);
    push_be16(&mut buf, 0);
    push_bytes(&mut buf, payload);
    buf
}

/// A TCP header without options: five words of header, the flags' low
/// nine bits, a window of 1024.
pub open spec fn spec_tcp_header(sport: u16, dport: u16, seq: u32, ack: u32, flags: u16, csum: u16) -> Seq<u8> {
    be16(sport) + be16(dport) + be32(seq) + be32(ack) + be16((0x5000 + flags % 512) as u16) + be16(1024)
        + be16(csum) + be16(0)
}

/// The pseudo-header the TCP checksum covers.
pub open spec fn spec_pseudo(src: Seq<u8>, dst: Seq<u8>, tcp_len: u16) -> Seq<u8> {
    src + dst + seq![0u8, IP_PROTO_TCP] + be16(tcp_len)
}

/// A TCP segment: its header, checksummed over the pseudo-header, the
/// header and the payload, then the payload.
pub open spec fn spec_tcp(src: Seq<u8>, dst: Seq<u8>, sport: u16, dport: u16, seq: u32, ack: u32, flags: u16, payload: Seq<u8>) -> Seq<u8> {
    let tcp_len = (20 + payload.len()) as u16;
    let h0 = spec_tcp_header(sport, dport, seq, ack, flags, 0);
    let csum = spec_finalize(be_sum(spec_pseudo(src, dst, tcp_len)) + be_sum(h0) + be_sum(payload));
    spec_tcp_header(sport, dport, seq, ack, flags, csum) + payload
}

fn tcp_header(sport: u16, dport: u16, seq: u32, ack: u32, flags: u16, csum: u16) -> (r: Vec<u8>)
    ensures
        r@ == spec_tcp_header(sport, dport, seq, ack, flags, csum),
        r@.len() == 20,
{
    let mut buf: Vec<u8> = Vec::new();
    push_be16(&mut buf, sport);
    push_be16(&mut buf, dport);
    push_be32(&mut buf, seq);
    push_be32(&mut buf, ack);
    let off_flags: u16 = (5u16 << 12) | (flags & 0x01ff);
    assert(off_flags == 0x5000 + flags % 512) by (bit_vector)
        requires
            off_flags == (5u16 << 12) | (flags & 0x01ff),
    ;
    push_be16(&mut buf, off_flags);
    push_be16(&mut buf, 1024);
    push_be16(&mut buf, csum);
    push_be16(&mut buf, 0);
    assert(buf@ =~= spec_tcp_header(sport, dport, seq, ack, flags, csum));
    buf
}

pub fn tcp_segment(src: [u8; 4], dst: [u8; 4], sport: u16, dport: u16, seq: u32, ack: u32, flags: u16, payload: &[u8]) -> (r: Vec<u8>)
    requires
        payload@.len() + 20 <= u16::MAX,
    ensures
        r@ == spec_tcp(src@, dst@, sport, dport, seq, ack, flags, payload@),
{
    let tcp_len = (20 + payload.len()) as u16;
    let h0 = tcp_header(sport, dport, seq, ack, flags, 0);
    let mut pseudo: Vec<u8> = Vec::new();
    push_bytes(&mut pseudo, src.as_slice());
    push_bytes(&mut pseudo, dst.as_slice());
    pseudo.push(0);
    pseudo.push(IP_PROTO_TCP);
    push_be16(&mut pseudo, tcp_len);
    assert(pseudo@ =~= spec_pseudo(src@, dst@, tcp_len));
    let s1 = checksum_add(0, pseudo.as_slice());
    proof {
        lemma_be_sum_bound(pseudo@);
        lemma_be_sum_bound(h0@);
    }
    let s2 = checksum_add(s1, h0.as_slice());
    proof {
        lemma_be_sum_bound(h0@);
    }
    let s3 = checksum_add(s2, payload);
    let csum = finalize_checksum(s3);
    let mut buf = tcp_header(sport, dport, seq, ack, flags, csum);
    push_bytes(&mut buf, payload);
    buf
}

proof fn lemma_be_sum_bound(d: Seq<u8>)
    ensures
        0 <= be_sum(d) <= 65535 * (d.len() / 2 + 1),
{
    lemma_words_sum_bound(d, (d.len() / 2) as int);
}

/// One address-table entry.
#[derive(Clone, Copy, Debug)]
pub struct ArpEntry {
    pub ip: [u8; 4],
    pub mac: [u8; 6],
    pub valid: bool,
}

/// The host's addresses and its table of neighbours' hardware addresses.
pub struct NetStack {
    pub mac: [u8; 6],
    pub ip: [u8; 4],
    pub netmask: [u8; 4],
    pub gateway: [u8; 4],
    pub arp: Vec<ArpEntry>,
}

/// The first valid entry at or after `k` for address `ip`.
pub open spec fn arp_find_from(t: Seq<ArpEntry>, ip: Seq<u8>, k: int) -> Option<int>
    decreases t.len() - k,
{
    if k < 0 || k >= t.len() {
        None
    } else if t[k].valid && t[k].ip@ == ip {
        Some(k)
    } else {
        arp_find_from(t, ip, k + 1)
    }
}

/// The first invalid entry at or after `k`.
pub open spec fn arp_free_from(t: Seq<ArpEntry>, k: int) -> Option<int>
    decreases t.len() - k,
{
    if k < 0 || k >= t.len() {
        None
    } else if !t[k].valid {
        Some(k)
    } else {
        arp_free_from(t, k + 1)
    }
}

proof fn lemma_arp_find_from(t: Seq<ArpEntry>, ip: Seq<u8>, k: int)
    requires
        0 <= k,
    ensures
        arp_find_from(t, ip, k) matches Some(i) ==> k <= i < t.len() && t[i].valid && t[i].ip@ == ip,
    decreases t.len() - k,
{
    if k < t.len() && !(t[k].valid && t[k].ip@ == ip) {
        lemma_arp_find_from(t, ip, k + 1);
    }
}

proof fn lemma_arp_free_from(t: Seq<ArpEntry>, k: int)
    requires
        0 <= k,
    ensures
        arp_free_from(t, k) matches Some(i) ==> k <= i < t.len() && !t[i].valid,
    decreases t.len() - k,
{
    if k < t.len() && t[k].valid {
        lemma_arp_free_from(t, k + 1);
    }
}

/// The table after learning that `ip` is at `mac`: its entry is updated,
/// else the first free entry taken, else the first entry replaced.
pub open spec fn spec_arp_insert(t: Seq<ArpEntry>, ip: Seq<u8>, e: ArpEntry) -> Seq<ArpEntry> {
    match arp_find_from(t, ip, 0) {
        Some(i) => t.update(i, ArpEntry { mac: e.mac, ..t[i] }),
        None => match arp_free_from(t, 0) {
            Some(i) => t.update(i, e),
            None => t.update(0, e),
        },
    }
}

/// Whether `a` and `b` lie in the same subnet under `mask`.
pub open spec fn same_subnet(a: Seq<u8>, b: Seq<u8>, mask: Seq<u8>) -> bool {
    forall|i: int| 0 <= i < 4 ==> (#[trigger] a[i] & mask[i]) == (b[i] & mask[i])
}

impl NetStack {
    pub open spec fn wf(&self) -> bool {
        self.arp@.len() == ARP_TABLE_SIZE
    }

    /// The stack of the emulated machine's network: address 10.0.2.15 in
    /// 10.0.2.0/24, gateway 10.0.2.2, hardware address `mac`, no
    /// neighbours known.
    pub fn init(mac: [u8; 6]) -> (s: Self)
        ensures
            s.wf(),
            s.mac == mac,
            s.ip@ == seq![10u8, 0, 2, 15],
            s.netmask@ == seq![255u8, 255, 255, 0],
            s.gateway@ == seq![10u8, 0, 2, 2],
            forall|i: int| 0 <= i < ARP_TABLE_SIZE ==> !(#[trigger] s.arp@[i]).valid,
    {
        let mut arp: Vec<ArpEntry> = Vec::new();
        let mut i: usize = 0;
        while i < ARP_TABLE_SIZE
            invariant
                i <= ARP_TABLE_SIZE,
                arp@.len() == i,
                forall|j: int| 0 <= j < i ==> !(#[trigger] arp@[j]).valid,
            decreases ARP_TABLE_SIZE - i,
        {
            arp.push(ArpEntry { ip: [0; 4], mac: [0; 6], valid: false });
            i = i + 1;
        }
        let s = NetStack { mac, ip: [10, 0, 2, 15], netmask: [255, 255, 255, 0], gateway: [10, 0, 2, 2], arp };
        assert(s.ip@ =~= seq![10u8, 0, 2, 15]);
        assert(s.netmask@ =~= seq![255u8, 255, 255, 0]);
        assert(s.gateway@ =~= seq![10u8, 0, 2, 2]);
        s
    }

    /// The host's address.
    pub fn local_ip(&self) -> (ip: [u8; 4])
        ensures
            ip == self.ip,
    {
        self.ip
    }

    /// Learns that `ip` is at `mac`.
    pub fn insert_arp(&mut self, ip: [u8; 4], mac: [u8; 6])
        requires
            old(self).wf(),
        ensures
            final(self).wf(),
            final(self).arp@ == spec_arp_insert(old(self).arp@, ip@, ArpEntry { ip, mac, valid: true }),
            final(self).mac == old(self).mac,
            final(self).ip == old(self).ip,
            final(self).netmask == old(self).netmask,
            final(self).gateway == old(self).gateway,
    {
        proof {
            lemma_arp_find_from(self.arp@, ip@, 0);
            lemma_arp_free_from(self.arp@, 0);
        }
        let e = ArpEntry { ip, mac, valid: true };
        let mut i: usize = 0;
        while i < self.arp.len()
            invariant
                i <= self.arp@.len(),
                *self == *old(self),
                old(self).wf(),
                arp_find_from(self.arp@, ip@, 0) == arp_find_from(self.arp@, ip@, i as int),
            decreases self.arp@.len() - i,
        {
            let cur = self.arp[i];
            if cur.valid && ip_eq(ip, cur.ip.as_slice()) {
                self.arp.set(i, ArpEntry { ip: cur.ip, mac, valid: cur.valid });
                return;
            }
            i = i + 1;
        }
        let mut j: usize = 0;
        while j < self.arp.len()
            invariant
                j <= self.arp@.len(),
                *self == *old(self),
                old(self).wf(),
                arp_find_from(self.arp@, ip@, 0) is None,
                e == (ArpEntry { ip, mac, valid: true }),
                arp_free_from(self.arp@, 0) == arp_free_from(self.arp@, j as int),
            decreases self.arp@.len() - j,
        {
            if !self.arp[j].valid {
                self.arp.set(j, e);
                return;
            }
            j = j + 1;
        }
        self.arp.set(0, e);
    }

    /// The hardware address of `ip`, if known.
    pub fn lookup_arp(&self, ip: [u8; 4]) -> (r: Option<[u8; 6]>)
        ensures
            match arp_find_from(self.arp@, ip@, 0) {
                Some(i) => r == Some(self.arp@[i].mac),
                None => r is None,
            },
    {
        proof {
            lemma_arp_find_from(self.arp@, ip@, 0);
        }
        let mut i: usize = 0;
        while i < self.arp.len()
            invariant
                i <= self.arp@.len(),
                arp_find_from(self.arp@, ip@, 0) == arp_find_from(self.arp@, ip@, i as int),
            decreases self.arp@.len() - i,
        {
            let cur = self.arp[i];
            if cur.valid && ip_eq(ip, cur.ip.as_slice()) {
                return Some(cur.mac);
            }
            i = i + 1;
        }
        None
    }

    /// The next hop towards `dst`: `dst` itself on the local subnet, else
    /// the gateway.
    pub fn route_ip(&self, dst: [u8; 4]) -> (hop: [u8; 4])
        ensures
            hop == (if same_subnet(dst@, self.ip@, self.netmask@) { dst } else { self.gateway }),
    {
        let mut i: usize = 0;
        while i < 4
            invariant
                i <= 4,
                forall|j: int| 0 <= j < i ==> (#[trigger] dst@[j] & self.netmask@[j]) == (self.ip@[j] & self.netmask@[j]),
            decreases 4 - i,
        {
            if (dst[i] & self.netmask[i]) != (self.ip[i] & self.netmask[i]) {
                return self.gateway;
            }
            i = i + 1;
        }
        dst
    }
}

/// A frame read from the wire, as far as the stack reacts to it.
pub enum Inbound {
    /// Not for this host, or not understood.
    Ignore,
    /// An ARP packet: its sender was learned; `reply` is the frame to send
    /// back when it asked for this host.
    Arp { reply: Option<Vec<u8>> },
    /// A UDP datagram for this host.
    Udp { src_ip: [u8; 4], src_port: u16, dst_port: u16, payload: Vec<u8> },
    /// A TCP segment for this host.
    Tcp { src_ip: [u8; 4], dst_ip: [u8; 4], src_port: u16, dst_port: u16, seq: u32, ack: u32, flags: u16, payload: Vec<u8> },
}

/// Where an IPv4 packet's payload lies, if the packet is for `local`: the
/// protocol, the source, and the payload's bounds.
pub open spec fn spec_ipv4_input(p: Seq<u8>, local: Seq<u8>) -> Option<(u8, Seq<u8>, int, int)> {
    if p.len() < 20 || p[0] / 16 != 4 {
        None
    } else {
        let ihl = (p[0] % 16) * 4;
        let total = be16_at(p, 2);
        if p.len() < ihl || total < ihl || p.len() < total || p.subrange(16, 20) != local {
            None
        } else {
            Some((p[9], p.subrange(12, 16), ihl as int, total))
        }
    }
}

fn to_ip(d: &[u8], at: usize) -> (r: [u8; 4])
    requires
        at + 4 <= d@.len(),
    ensures
        r@ == d@.subrange(at as int, at + 4),
{
    let r = [d[at], d[at + 1], d[at + 2], d[at + 3]];
    assert(r@ =~= d@.subrange(at as int, at + 4));
    r
}

fn to_mac(d: &[u8], at: usize) -> (r: [u8; 6])
    requires
        at + 6 <= d@.len(),
    ensures
        r@ == d@.subrange(at as int, at + 6),
{
    let r = [d[at], d[at + 1], d[at + 2], d[at + 3], d[at + 4], d[at + 5]];
    assert(r@ =~= d@.subrange(at as int, at + 6));
    r
}

fn ip_eq(a: [u8; 4], b: &[u8]) -> (r: bool)
    requires
        b@.len() == 4,
    ensures
        r == (a@ == b@),
{
    let r = a[0] == b[0] && a[1] == b[1] && a[2] == b[2] && a[3] == b[3];
    proof {
        if r {
            assert(a@ =~= b@);
        }
    }
    r
}

/// Reads a received frame: learns ARP senders (answering requests for
/// this host), and picks out the UDP datagrams and TCP segments addressed
/// to it.
pub fn handle_frame(stack: &mut NetStack, frame: &[u8]) -> (r: Inbound)
    requires
        old(stack).wf(),
    ensures
        final(stack).wf(),
        final(stack).ip == old(stack).ip && final(stack).mac == old(stack).mac,
        frame@.len() < 14 || !(be16_at(frame@, 12) == ETHERTYPE_ARP || be16_at(frame@, 12) == ETHERTYPE_IPV4)
            ==> r is Ignore && final(stack).arp@ == old(stack).arp@,
        frame@.len() >= 14 && be16_at(frame@, 12) == ETHERTYPE_ARP ==> {
            let p = frame@.skip(14);
            if p.len() < 28 {
                r is Ignore && final(stack).arp@ == old(stack).arp@
            } else {
                let smac = p.subrange(8, 14);
                let sip = p.subrange(14, 18);
                &&& final(stack).arp@.len() == ARP_TABLE_SIZE
                &&& (final(stack).arp@ == spec_arp_insert(old(stack).arp@, sip, ArpEntry {
                    ip: ip_of_bytes(sip),
                    mac: mac_of_bytes(smac),
                    valid: true,
                }))
                &&& (r matches Inbound::Arp { reply } && (if be16_at(p, 6) == 1 && p.subrange(24, 28) == old(stack).ip@ {
                    reply matches Some(f) && f@ == spec_eth_frame(smac, old(stack).mac@, ETHERTYPE_ARP,
                        spec_arp(2, old(stack).mac@, old(stack).ip@, smac, sip))
                } else {
                    reply is None
                }))
            }
        },
        frame@.len() >= 14 && be16_at(frame@, 12) == ETHERTYPE_IPV4 ==> final(stack).arp@ == old(stack).arp@ && {
            let p = frame@.skip(14);
            match spec_ipv4_input(p, old(stack).ip@) {
                None => r is Ignore,
                Some((proto, src, lo, hi)) => {
                    let data = p.subrange(lo, hi);
                    if proto == IP_PROTO_UDP {
                        if data.len() < 8 || be16_at(data, 4) < 8 || data.len() < be16_at(data, 4) {
                            r is Ignore
                        } else {
                            r matches Inbound::Udp { src_ip, src_port, dst_port, payload } && src_ip@ == src
                                && src_port == be16_at(data, 0) && dst_port == be16_at(data, 2)
                                && payload@ == data.subrange(8, be16_at(data, 4))
                        }
                    } else if proto == IP_PROTO_TCP {
                        let hl = (data[12] / 16) * 4;
                        if data.len() < 20 || hl < 20 || data.len() < hl {
                            r is Ignore
                        } else {
                            r matches Inbound::Tcp { src_ip, dst_ip, src_port, dst_port, seq, ack, flags, payload }
                                && src_ip@ == src && dst_ip@ == old(stack).ip@ && src_port == be16_at(data, 0)
                                && dst_port == be16_at(data, 2) && seq == be32_at(data, 4) && ack == be32_at(data, 8)
                                && flags == data[13] && payload@ == data.skip(hl as int)
                        }
                    } else {
                        r is Ignore
                    }
                },
            }
        },
{
    if frame.len() < 14 {
        return Inbound::Ignore;
    }
    let ethertype = read_be16(frame, 12);
    if ethertype == ETHERTYPE_ARP {
        let p = slice_bytes(frame, 14, frame.len());
        assert(p@ =~= frame@.skip(14));
        if p.len() < 28 {
            return Inbound::Ignore;
        }
        let opcode = read_be16(p.as_slice(), 6);
        let smac = to_mac(p.as_slice(), 8);
        let sip = to_ip(p.as_slice(), 14);
        let tip = to_ip(p.as_slice(), 24);
        stack.insert_arp(sip, smac);
        proof {
            lemma_ip_of_bytes(sip);
            lemma_mac_of_bytes(smac);
        }
        if opcode == 1 && ip_eq(stack.ip, tip.as_slice()) {
            let arp = arp_packet(2, stack.mac, stack.ip, smac, sip);
            let f = build_eth_frame(smac, stack.mac, ETHERTYPE_ARP, arp.as_slice());
            return Inbound::Arp { reply: Some(f) };
        }
        return Inbound::Arp { reply: None };
    }
    if ethertype != ETHERTYPE_IPV4 {
        return Inbound::Ignore;
    }
    let p = slice_bytes(frame, 14, frame.len());
    assert(p@ =~= frame@.skip(14));
    if p.len() < 20 || p[0] / 16 != 4 {
        return Inbound::Ignore;
    }
    let ihl = ((p[0] % 16) as usize) * 4;
    let total = read_be16(p.as_slice(), 2) as usize;
    if p.len() < ihl || total < ihl || p.len() < total {
        return Inbound::Ignore;
    }
    let dst = to_ip(p.as_slice(), 16);
    if !ip_eq(stack.ip, dst.as_slice()) {
        return Inbound::Ignore;
    }
    let src = to_ip(p.as_slice(), 12);
    let proto = p[9];
    let data = slice_bytes(p.as_slice(), ihl, total);
    if proto == IP_PROTO_UDP {
        if data.len() < 8 {
            return Inbound::Ignore;
        }
        let sport = read_be16(data.as_slice(), 0);
        let dport = read_be16(data.as_slice(), 2);
        let len = read_be16(data.as_slice(), 4) as usize;
        if len < 8 || data.len() < len {
            return Inbound::Ignore;
        }
        let payload = slice_bytes(data.as_slice(), 8, len);
        return Inbound::Udp { src_ip: src, src_port: sport, dst_port: dport, payload };
    }
    if proto == IP_PROTO_TCP {
        if data.len() < 20 {
            return Inbound::Ignore;
        }
        let sport = read_be16(data.as_slice(), 0);
        let dport = read_be16(data.as_slice(), 2);
        let seq = read_be32(data.as_slice(), 4);
        let ack = read_be32(data.as_slice(), 8);
        let hl = ((data[12] / 16) as usize) * 4;
        if hl < 20 || data.len() < hl {
            return Inbound::Ignore;
        }
        let flags = data[13] as u16;
        let payload = slice_bytes(data.as_slice(), hl, data.len());
        assert(payload@ =~= data@.skip(hl as int));
        return Inbound::Tcp { src_ip: src, dst_ip: stack.ip, src_port: sport, dst_port: dport, seq, ack, flags, payload };
    }
    Inbound::Ignore
}

/// The address whose bytes are `b`.
pub open spec fn ip_of_bytes(b: Seq<u8>) -> [u8; 4] {
    choose|a: [u8; 4]| a@ == b
}

pub open spec fn mac_of_bytes(b: Seq<u8>) -> [u8; 6] {
    choose|a: [u8; 6]| a@ == b
}

proof fn lemma_ip_of_bytes(a: [u8; 4])
    ensures
        ip_of_bytes(a@) == a,
{
    let c = ip_of_bytes(a@);
    assert(c@ == a@);
    assert(c@[0] == a@[0] && c@[1] == a@[1] && c@[2] == a@[2] && c@[3] == a@[3]);
    assert(c == a);
}

proof fn lemma_mac_of_bytes(a: [u8; 6])
    ensures
        mac_of_bytes(a@) == a,
{
    let c = mac_of_bytes(a@);
    assert(c@ == a@);
    assert(c == a);
}

/// What sending an IPv4 packet takes.
pub enum Outbound {
    /// The destination is this host: the packet is read back in at once.
    Local,
    /// The next hop's hardware address is unknown: this request for it is
    /// broadcast and the sender waits for the answer.
    ArpMiss { request: Vec<u8> },
    /// This frame goes out on the wire.
    Frame { frame: Vec<u8> },
}

/// What sending `payload` as protocol `proto` from `src` to `dst` takes.
pub fn send_ipv4_packet(stack: &NetStack, proto: u8, src: [u8; 4], dst: [u8; 4], payload: &[u8]) -> (r: Outbound)
    requires
        stack.wf(),
        payload@.len() + 20 <= u16::MAX,
    ensures
        dst@ == stack.ip@ ==> r is Local,
        dst@ != stack.ip@ ==> {
            let hop = if same_subnet(dst@, stack.ip@, stack.netmask@) { dst } else { stack.gateway };
            match arp_find_from(stack.arp@, hop@, 0) {
                None => r matches Outbound::ArpMiss { request } && request@ == spec_eth_frame(
                    seq![0xffu8, 0xff, 0xff, 0xff, 0xff, 0xff],
                    stack.mac@,
                    ETHERTYPE_ARP,
                    spec_arp(1, stack.mac@, stack.ip@, seq![0u8, 0, 0, 0, 0, 0], hop@),
                ),
                Some(i) => r matches Outbound::Frame { frame } && frame@ == spec_eth_frame(
                    stack.arp@[i].mac@,
                    stack.mac@,
                    ETHERTYPE_IPV4,
                    spec_ipv4_packet(proto, src@, dst@, payload@),
                ),
            }
        },
{
    if ip_eq(dst, stack.ip.as_slice()) {
        return Outbound::Local;
    }
    let hop = stack.route_ip(dst);
    match stack.lookup_arp(hop) {
        None => {
            let zero: [u8; 6] = [0, 0, 0, 0, 0, 0];
            let bcast: [u8; 6] = [0xff, 0xff, 0xff, 0xff, 0xff, 0xff];
            assert(zero@ =~= seq![0u8, 0, 0, 0, 0, 0]);
            assert(bcast@ =~= seq![0xffu8, 0xff, 0xff, 0xff, 0xff, 0xff]);
            let arp = arp_packet(1, stack.mac, stack.ip, zero, hop);
            let request = build_eth_frame(bcast, stack.mac, ETHERTYPE_ARP, arp.as_slice());
            Outbound::ArpMiss { request }
        },
        Some(mac) => {
            let pkt = build_ipv4_packet(proto, src, dst, payload);
            let frame = build_eth_frame(mac, stack.mac, ETHERTYPE_IPV4, pkt.as_slice());
            Outbound::Frame { frame }
        },
    }
}

/// The next ephemeral port from counter `next`: its low 16 bits, raised
/// to 49152 when below. The counter moves on by one.
pub fn alloc_ephemeral_port(next: &mut usize) -> (port: u16)
    ensures
        port == (if (*old(next) % 0x1_0000) < 49152 { 49152 } else { *old(next) % 0x1_0000 }),
        *final(next) == (if *old(next) == usize::MAX { 0 } else { *old(next) + 1 }),
{
    let p = (*next % 0x1_0000) as u16;
    *next = next.wrapping_add(1);
    if p < 49152 {
        49152
    } else {
        p
    }
}

/// The states of a TCP connection.
#[derive(Clone, Copy, Debug, PartialEq, Eq, Structural)]
pub enum TcpState {
    Closed,
    SynSent,
    SynReceived,
    Established,
}

/// An address and port.
#[derive(Clone, Copy, Debug)]
pub struct SockAddr {
    pub ip: [u8; 4],
    pub port: u16,
}

/// A TCP connection's state: its ends, state, and next sequence numbers.
#[derive(Clone, Copy, Debug)]
pub struct TcpConn {
    pub local: Option<SockAddr>,
    pub peer: Option<SockAddr>,
    pub state: TcpState,
    pub snd_nxt: u32,
    pub rcv_nxt: u32,
    /// The listening port that made this connection, until it is handed
    /// over.
    pub listener: Option<u16>,
}

/// A segment to send: ends, sequence and acknowledgment numbers, flags.
#[derive(Clone, Copy, Debug)]
pub struct SegOut {
    pub src: SockAddr,
    pub dst: SockAddr,
    pub seq: u32,
    pub ack: u32,
    pub flags: u16,
}

/// What a received segment makes the connection do: a segment to send
/// back, how many payload bytes to queue for the reader, a listener to
/// hand the connection to, and whether waiting connectors are woken.
#[derive(Clone, Copy, Debug)]
pub struct SegResult {
    pub send: Option<SegOut>,
    pub deliver: usize,
    pub to_listener: Option<u16>,
    pub notify: bool,
}

pub open spec fn wadd32(a: u32, b: int) -> u32 {
    ((a + b) % 0x1_0000_0000) as u32
}

impl TcpConn {
    /// Every connection past `Closed` has both ends.
    pub open spec fn wf(&self) -> bool {
        self.state != TcpState::Closed ==> self.local is Some && self.peer is Some
    }

    /// A closed connection with no ends.
    pub fn new() -> (c: Self)
        ensures
            c.wf(),
            c.local is None && c.peer is None && c.state == TcpState::Closed,
            c.snd_nxt == 0 && c.rcv_nxt == 0 && c.listener is None,
    {
        TcpConn { local: None, peer: None, state: TcpState::Closed, snd_nxt: 0, rcv_nxt: 0, listener: None }
    }

    /// The connection a listener on `local` makes for a SYN from `remote`
    /// with sequence number `seq`, and the SYN-ACK it answers with (its
    /// own sequence number 1, which the SYN consumes).
    pub fn passive_open(local: SockAddr, remote: SockAddr, listener: u16, seq: u32) -> (r: (Self, SegOut))
        ensures
            r.0.wf(),
            r.0.state == TcpState::SynReceived,
            r.0.local matches Some(l) && l.ip == local.ip && l.port == local.port,
            r.0.peer matches Some(p) && p.ip == remote.ip && p.port == remote.port,
            r.0.rcv_nxt == wadd32(seq, 1),
            r.0.snd_nxt == 2,
            r.0.listener == Some(listener),
            r.1.seq == 1 && r.1.ack == wadd32(seq, 1) && r.1.flags == 0x12,
            r.1.src.ip == local.ip && r.1.src.port == local.port,
            r.1.dst.ip == remote.ip && r.1.dst.port == remote.port,
    {
        let rcv = seq.wrapping_add(1);
        let c = TcpConn {
            local: Some(local),
            peer: Some(remote),
            state: TcpState::SynReceived,
            snd_nxt: 2,
            rcv_nxt: rcv,
            listener: Some(listener),
        };
        (c, SegOut { src: local, dst: remote, seq: 1, ack: rcv, flags: 0x12 })
    }

    /// Starts connecting to `peer` from `local_ip`, on port `ephemeral`
    /// unless the connection already has a local end: the SYN to send, or
    /// nothing when already established.
    pub fn begin_connect(&mut self, local_ip: [u8; 4], ephemeral: u16, peer: SockAddr) -> (r: Option<SegOut>)
        requires
            old(self).wf(),
        ensures
            final(self).wf(),
            old(self).state == TcpState::Established ==> r is None && *final(self) == *old(self),
            old(self).state != TcpState::Established ==> {
                let lport = match old(self).local {
                    Some(l) => l.port,
                    None => ephemeral,
                };
                &&& final(self).state == TcpState::SynSent
                &&& final(self).snd_nxt == 1 && final(self).rcv_nxt == 0
                &&& final(self).peer matches Some(p) && p.ip == peer.ip && p.port == peer.port
                &&& final(self).local matches Some(l) && l.port == lport
                &&& final(self).listener == old(self).listener
                &&& r matches Some(s) && s.seq == 0 && s.ack == 0 && s.flags == 0x02 && s.src.ip == local_ip
                    && s.src.port == lport && s.dst.ip == peer.ip && s.dst.port == peer.port
            },
    {
        if self.state == TcpState::Established {
            return None;
        }
        let l = match self.local {
            Some(l) => l,
            None => SockAddr { ip: local_ip, port: ephemeral },
        };
        self.local = Some(l);
        self.peer = Some(peer);
        self.state = TcpState::SynSent;
        self.snd_nxt = 1;
        self.rcv_nxt = 0;
        Some(SegOut { src: SockAddr { ip: local_ip, port: l.port }, dst: peer, seq: 0, ack: 0, flags: 0x02 })
    }

    /// Reacts to a segment from `remote` with sequence number `seq`,
    /// acknowledgment `ack`, `flags` and `len` payload bytes, when the
    /// reader's queue has room for `room` more bytes: a SYN-ACK matching
    /// our SYN establishes an active connection and is acknowledged; an
    /// ACK of our SYN-ACK establishes a passive one, which goes to its
    /// listener; in-order data is queued and acknowledged.
    pub fn on_segment(&mut self, remote: SockAddr, seq: u32, ack: u32, flags: u16, len: usize, room: usize) -> (r: SegResult)
        requires
            old(self).wf(),
        ensures
            final(self).wf(),
            match old(self).state {
                TcpState::SynSent => if flags & 0x12 == 0x12 && ack == old(self).snd_nxt {
                    &&& final(self).state == TcpState::Established
                    &&& final(self).peer matches Some(p) && p.ip == remote.ip && p.port == remote.port
                    &&& final(self).rcv_nxt == wadd32(seq, 1)
                    &&& final(self).snd_nxt == old(self).snd_nxt
                    &&& r.deliver == 0 && r.to_listener is None
                    &&& match old(self).local {
                        None => r.send is None && !r.notify,
                        Some(l) => r.notify && (r.send matches Some(s) && s.src.ip == l.ip && s.src.port == l.port
                            && s.dst.ip == remote.ip && s.dst.port == remote.port && s.seq == old(self).snd_nxt
                            && s.ack == wadd32(seq, 1) && s.flags == 0x10),
                    }
                } else {
                    *final(self) == *old(self) && r.send is None && r.deliver == 0 && r.to_listener is None && !r.notify
                },
                TcpState::SynReceived => if flags & 0x10 != 0 && ack == old(self).snd_nxt {
                    &&& final(self).state == TcpState::Established
                    &&& final(self).listener is None
                    &&& final(self).snd_nxt == old(self).snd_nxt && final(self).rcv_nxt == old(self).rcv_nxt
                    &&& r.to_listener == old(self).listener && r.notify && r.send is None && r.deliver == 0
                } else {
                    *final(self) == *old(self) && r.send is None && r.deliver == 0 && r.to_listener is None && !r.notify
                },
                TcpState::Established => if len > 0 && seq == old(self).rcv_nxt {
                    let l = old(self).local.unwrap();
                    let p = old(self).peer.unwrap();
                    &&& final(self).rcv_nxt == wadd32(old(self).rcv_nxt, len as int)
                    &&& final(self).state == TcpState::Established
                    &&& final(self).snd_nxt == old(self).snd_nxt
                    &&& r.deliver == (if len < room { len } else { room })
                    &&& r.send matches Some(s) && s.src.ip == l.ip && s.src.port == l.port && s.dst.ip == p.ip
                        && s.dst.port == p.port && s.seq == old(self).snd_nxt && s.ack == final(self).rcv_nxt
                        && s.flags == 0x10
                    &&& r.to_listener is None && !r.notify
                } else {
                    *final(self) == *old(self) && r.send is None && r.deliver == 0 && r.to_listener is None && !r.notify
                },
                TcpState::Closed => *final(self) == *old(self) && r.send is None && r.deliver == 0 && r.to_listener is None
                    && !r.notify,
            },
    {
        let none = SegResult { send: None, deliver: 0, to_listener: None, notify: false };
        match self.state {
            TcpState::SynSent => {
                if flags & 0x12 == 0x12 && ack == self.snd_nxt {
                    self.peer = Some(remote);
                    self.rcv_nxt = seq.wrapping_add(1);
                    self.state = TcpState::Established;
                    match self.local {
                        None => none,
                        Some(l) => SegResult {
                            send: Some(SegOut { src: l, dst: remote, seq: self.snd_nxt, ack: self.rcv_nxt, flags: 0x10 }),
                            deliver: 0,
                            to_listener: None,
                            notify: true,
                        },
                    }
                } else {
                    none
                }
            },
            TcpState::SynReceived => {
                if flags & 0x10 != 0 && ack == self.snd_nxt {
                    self.state = TcpState::Established;
                    let l = self.listener;
                    self.listener = None;
                    SegResult { send: None, deliver: 0, to_listener: l, notify: true }
                } else {
                    none
                }
            },
            TcpState::Established => {
                if len > 0 && seq == self.rcv_nxt {
                    let inc = ((len as u64) % 0x1_0000_0000) as u32;
                    self.rcv_nxt = self.rcv_nxt.wrapping_add(inc);
                    proof {
                        vstd::arithmetic::div_mod::lemma_add_mod_noop(old(self).rcv_nxt as int, len as int, 0x1_0000_0000);
                        vstd::arithmetic::div_mod::lemma_mod_twice(len as int, 0x1_0000_0000);
                        vstd::arithmetic::div_mod::lemma_small_mod(old(self).rcv_nxt as nat, 0x1_0000_0000);
                        assert(wadd32(old(self).rcv_nxt, inc as int) == wadd32(old(self).rcv_nxt, len as int));
                    }
                    let l = self.local.unwrap();
                    let p = self.peer.unwrap();
                    SegResult {
                        send: Some(SegOut { src: l, dst: p, seq: self.snd_nxt, ack: self.rcv_nxt, flags: 0x10 }),
                        deliver: if len < room { len } else { room },
                        to_listener: None,
                        notify: false,
                    }
                } else {
                    none
                }
            },
            TcpState::Closed => none,
        }
    }

    /// Whether the connection is established.
    pub fn is_established(&self) -> (b: bool)
        ensures
            b == (self.state == TcpState::Established),
    {
        self.state == TcpState::Established
    }

    /// Whether the connection is closed.
    pub fn is_closed(&self) -> (b: bool)
        ensures
            b == (self.state == TcpState::Closed),
    {
        self.state == TcpState::Closed
    }
}

/// The chunks a write of `n` bytes is sent in: at most `MSS` bytes each,
/// numbered on from `seq`.
pub open spec fn spec_chunks(seq: u32, n: int) -> Seq<(u32, usize)>
    decreases n,
{
    if n <= 0 {
        Seq::empty()
    } else {
        let c = if n < MSS { n } else { MSS as int };
        seq![(seq, c as usize)] + spec_chunks(wadd32(seq, c), n - c)
    }
}

proof fn lemma_wadd32_step(a: u32, x: int, c: int)
    requires
        0 <= x,
        0 <= c,
    ensures
        wadd32(wadd32(a, x), c) == wadd32(a, x + c),
{
    vstd::arithmetic::div_mod::lemma_add_mod_noop(a + x, c, 0x1_0000_0000);
    vstd::arithmetic::div_mod::lemma_mod_twice(a + x, 0x1_0000_0000);
    vstd::arithmetic::div_mod::lemma_add_mod_noop((a + x) % 0x1_0000_0000, c, 0x1_0000_0000);
    assert(((a + x) % 0x1_0000_0000) as u32 as int == (a + x) % 0x1_0000_0000);
}

/// The segments, as (sequence number, length), that carry a write of `n`
/// bytes on an established connection, and the sequence number after
/// them; `NotConnected` when the connection is not established.
pub fn write_plan(conn: &TcpConn, n: usize) -> (r: Result<(Vec<(u32, usize)>, u32), crate::error::Error>)
    ensures
        conn.state != TcpState::Established || conn.local is None || conn.peer is None
            ==> r == Err::<(Vec<(u32, usize)>, u32), crate::error::Error>(crate::error::Error::NotConnected),
        conn.state == TcpState::Established && conn.local is Some && conn.peer is Some ==> (r matches Ok(p)
            && p.0@ == spec_chunks(conn.snd_nxt, n as int) && p.1 == wadd32(conn.snd_nxt, n as int)),
    decreases n,
{
    if conn.state != TcpState::Established || conn.local.is_none() || conn.peer.is_none() {
        return Err(crate::error::Error::NotConnected);
    }
    let mut chunks: Vec<(u32, usize)> = Vec::new();
    let mut seq = conn.snd_nxt;
    let mut left = n;
    while left > 0
        invariant
            left <= n,
            seq == wadd32(conn.snd_nxt, n - left),
            chunks@ + spec_chunks(seq, left as int) == spec_chunks(conn.snd_nxt, n as int),
        decreases left,
    {
        let c = if left < MSS { left } else { MSS };
        let ghost before = chunks@;
        chunks.push((seq, c));
        proof {
            assert(spec_chunks(seq, left as int) == seq![(seq, c)] + spec_chunks(wadd32(seq, c as int), left - c));
            assert(chunks@ + spec_chunks(wadd32(seq, c as int), left - c) =~= before + spec_chunks(seq, left as int));
            lemma_wadd32_step(conn.snd_nxt, n - left, c as int);
        }
        seq = seq.wrapping_add(c as u32);
        left = left - c;
    }
    assert(chunks@ =~= spec_chunks(conn.snd_nxt, n as int));
    Ok((chunks, seq))
}

/// A UDP socket's addressing: its bound port, the peer it connected
/// to, and the sender of the last datagram it read.
#[derive(Clone, Copy, Debug)]
pub struct UdpSock {
    pub local_port: Option<u16>,
    pub peer: Option<SockAddr>,
    pub last_peer: Option<SockAddr>,
}

impl UdpSock {
    pub fn new() -> (u: Self)
        ensures
            u.local_port is None && u.peer is None && u.last_peer is None,
    {
        UdpSock { local_port: None, peer: None, last_peer: None }
    }

    /// Sets the default destination.
    pub fn connect(&mut self, peer: SockAddr)
        ensures
            final(self).peer == Some(peer),
            final(self).local_port == old(self).local_port,
            final(self).last_peer == old(self).last_peer,
    {
        self.peer = Some(peer);
    }

    /// Notes the sender of a datagram just read.
    pub fn on_read(&mut self, src: SockAddr)
        ensures
            final(self).last_peer == Some(src),
            final(self).local_port == old(self).local_port,
            final(self).peer == old(self).peer,
    {
        self.last_peer = Some(src);
    }

    /// Where a write goes: the connected peer, else the last sender;
    /// `NotConnected` with neither.
    pub fn write_target(&self) -> (r: Result<SockAddr, crate::error::Error>)
        ensures
            match self.peer {
                Some(p) => r == Ok::<SockAddr, crate::error::Error>(p),
                None => match self.last_peer {
                    Some(p) => r == Ok::<SockAddr, crate::error::Error>(p),
                    None => r == Err::<SockAddr, crate::error::Error>(crate::error::Error::NotConnected),
                },
            },
    {
        match self.peer {
            Some(p) => Ok(p),
            None => match self.last_peer {
                Some(p) => Ok(p),
                None => Err(crate::error::Error::NotConnected),
            },
        }
    }

    /// Whether a write has somewhere to go.
    pub fn poll_writable(&self) -> (b: bool)
        ensures
            b == (self.peer is Some || self.last_peer is Some),
    {
        self.peer.is_some() || self.last_peer.is_some()
    }

    /// The bound port.
    pub fn local_port(&self) -> (p: Option<u16>)
        ensures
            p == self.local_port,
    {
        self.local_port
    }
}

/// Binds UDP socket `sock` to `port` in the table of bound ports `ports`
/// (port, socket): port 0 is refused, a port in use is busy.
pub fn udp_bind(ports: &mut Vec<(u16, usize)>, sock: &mut UdpSock, id: usize, port: u16) -> (r: Result<(), crate::error::Error>)
    ensures
        port == 0 ==> r == Err::<(), crate::error::Error>(crate::error::Error::InvalidArgument) && final(ports)@ == old(ports)@
            && *final(sock) == *old(sock),
        port != 0 && (exists|i: int| 0 <= i < old(ports)@.len() && (#[trigger] old(ports)@[i]).0 == port) ==> r == Err::<
            (),
            crate::error::Error,
        >(crate::error::Error::ResourceBusy) && final(ports)@ == old(ports)@ && *final(sock) == *old(sock),
        port != 0 && !(exists|i: int| 0 <= i < old(ports)@.len() && (#[trigger] old(ports)@[i]).0 == port) ==> r is Ok
            && final(ports)@ == old(ports)@.push((port, id)) && final(sock).local_port == Some(port)
            && final(sock).peer == old(sock).peer && final(sock).last_peer == old(sock).last_peer,
{
    if port == 0 {
        return Err(crate::error::Error::InvalidArgument);
    }
    let mut i: usize = 0;
    while i < ports.len()
        invariant
            i <= ports@.len(),
            port != 0,
            ports@ == old(ports)@,
            *sock == *old(sock),
            forall|j: int| 0 <= j < i ==> (#[trigger] ports@[j]).0 != port,
        decreases ports@.len() - i,
    {
        if ports[i].0 == port {
            return Err(crate::error::Error::ResourceBusy);
        }
        i = i + 1;
    }
    ports.push((port, id));
    sock.local_port = Some(port);
    Ok(())
}

/// How a TCP segment for this host is handled: by an existing
/// connection, by a listener opening a new one, or not at all.
#[derive(Clone, Copy, Debug, PartialEq, Eq, Structural)]
pub enum TcpDispatch {
    ToConn(usize),
    PassiveOpen,
    Drop,
}

/// A connection-table entry: local port, remote end, connection.
#[derive(Clone, Copy, Debug)]
pub struct ConnEntry {
    pub local_port: u16,
    pub remote: SockAddr,
    pub conn: usize,
}

pub open spec fn conn_matches(e: ConnEntry, port: u16, remote: SockAddr) -> bool {
    e.local_port == port && e.remote.port == remote.port && e.remote.ip@ == remote.ip@
}

/// The first connection entry at or after `k` for the segment's ends.
pub open spec fn conn_find_from(t: Seq<ConnEntry>, port: u16, remote: SockAddr, k: int) -> Option<int>
    decreases t.len() - k,
{
    if k < 0 || k >= t.len() {
        None
    } else if conn_matches(t[k], port, remote) {
        Some(k)
    } else {
        conn_find_from(t, port, remote, k + 1)
    }
}

/// Picks the handler of a segment to `dst_port` from `remote` with
/// `flags`: its connection, else (for a SYN) the listener on the port.
pub fn tcp_dispatch(conns: &Vec<ConnEntry>, listeners: &Vec<u16>, dst_port: u16, remote: SockAddr, flags: u16) -> (r: TcpDispatch)
    ensures
        match conn_find_from(conns@, dst_port, remote, 0) {
            Some(i) => r == TcpDispatch::ToConn(conns@[i].conn),
            None => if flags & 0x02 != 0 && listeners@.contains(dst_port) {
                r == TcpDispatch::PassiveOpen
            } else {
                r == TcpDispatch::Drop
            },
        },
{
    let mut i: usize = 0;
    while i < conns.len()
        invariant
            i <= conns@.len(),
            conn_find_from(conns@, dst_port, remote, 0) == conn_find_from(conns@, dst_port, remote, i as int),
        decreases conns@.len() - i,
    {
        let e = conns[i];
        if e.local_port == dst_port && e.remote.port == remote.port && ip_eq(remote.ip, e.remote.ip.as_slice()) {
            return TcpDispatch::ToConn(e.conn);
        }
        i = i + 1;
    }
    if flags & 0x02 == 0 {
        return TcpDispatch::Drop;
    }
    let mut j: usize = 0;
    while j < listeners.len()
        invariant
            j <= listeners@.len(),
            conn_find_from(conns@, dst_port, remote, 0) is None,
            flags & 0x02 != 0,
            forall|k: int| 0 <= k < j ==> listeners@[k] != dst_port,
        decreases listeners@.len() - j,
    {
        if listeners[j] == dst_port {
            assert(listeners@[j as int] == dst_port);
            return TcpDispatch::PassiveOpen;
        }
        j = j + 1;
    }
    TcpDispatch::Drop
}

/// A listener's queue size: the backlog asked for, between 1 and 16.
pub fn listener_capacity(backlog: usize) -> (cap: usize)
    ensures
        cap == (if backlog < 1 { 1 } else if backlog > 16 { 16 } else { backlog }),
{
    if backlog < 1 {
        1
    } else if backlog > 16 {
        16
    } else {
        backlog
    }
}

proof fn lemma_fold16(s: int)
    requires
        s >= 0,
    ensures
        0 <= fold16(s) <= 0xffff,
        fold16(s) % 0xffff == s % 0xffff,
        s > 0 ==> fold16(s) > 0,
    decreases s,
{
    if s >= 0x1_0000 {
        let q = s / 0x1_0000;
        let r = s % 0x1_0000;
        assert(s == 0x1_0000 * q + r && 0 <= r < 0x1_0000 && q >= 1) by (nonlinear_arith)
            requires
                s >= 0x1_0000,
                q == s / 0x1_0000,
                r == s % 0x1_0000,
        ;
        assert(r + q < s) by (nonlinear_arith)
            requires
                s == 0x1_0000 * q + r,
                q >= 1,
                r >= 0,
        ;
        lemma_fold16(r + q);
        assert((r + q) % 0xffff == s % 0xffff) by (nonlinear_arith)
            requires
                s == 0x1_0000 * q + r,
                q >= 1,
                r >= 0,
        {
            assert(s == 0xffff * q + (r + q));
            vstd::arithmetic::div_mod::lemma_mod_multiples_vanish(q, r + q, 0xffff);
        }
    }
}

/// Adding its own checksum to a one's-complement sum gives a sum that
/// checks: its checksum is zero.
pub proof fn lemma_checksum_checks(s: int)
    requires
        s >= 0,
    ensures
        spec_finalize(s + spec_finalize(s)) == 0,
{
    lemma_fold16(s);
    let c = 0xffff - fold16(s);
    assert(spec_finalize(s) == c);
    let t = s + c;
    lemma_fold16(t);
    assert(t % 0xffff == 0) by (nonlinear_arith)
        requires
            t == s + 0xffff - fold16(s),
            fold16(s) % 0xffff == s % 0xffff,
            0 <= fold16(s) <= 0xffff,
            s >= 0,
    {
        vstd::arithmetic::div_mod::lemma_fundamental_div_mod(s, 0xffff);
        vstd::arithmetic::div_mod::lemma_fundamental_div_mod(fold16(s), 0xffff);
        vstd::arithmetic::div_mod::lemma_mod_multiples_vanish(s / 0xffff - fold16(s) / 0xffff + 1, 0, 0xffff);
    }
    assert(t > 0);
    assert(fold16(t) == 0xffff);
}

proof fn lemma_ipv4_header_sum(proto: u8, src: Seq<u8>, dst: Seq<u8>, total: u16, csum: u16)
    requires
        src.len() == 4,
        dst.len() == 4,
    ensures
        be_sum(spec_ipv4_header(proto, src, dst, total, csum)) == be_sum(spec_ipv4_header(proto, src, dst, total, 0)) + csum,
{
    let h = spec_ipv4_header(proto, src, dst, total, csum);
    let h0 = spec_ipv4_header(proto, src, dst, total, 0);
    assert(h.len() == 20 && h0.len() == 20);
    reveal_with_fuel(words_sum, 11);
    assert(word_at(h, 5) == word_at(h0, 5) + csum);
    assert forall|k: int| 0 <= k < 10 && k != 5 implies word_at(h, k) == word_at(h0, k) by {
        assert(h[2 * k] == h0[2 * k] && h[2 * k + 1] == h0[2 * k + 1]);
    }
    assert(words_sum(h, 10) == words_sum(h0, 10) + csum);
}

/// The header of every packet `build_ipv4_packet` makes checks: the
/// checksum over the header, its own checksum field included, is zero.
pub proof fn law_ipv4_header_checks(proto: u8, src: Seq<u8>, dst: Seq<u8>, payload: Seq<u8>)
    requires
        src.len() == 4,
        dst.len() == 4,
        payload.len() + 20 <= u16::MAX,
    ensures
        spec_finalize(be_sum(spec_ipv4_packet(proto, src, dst, payload).take(20))) == 0,
{
    let total = (20 + payload.len()) as u16;
    let h0 = spec_ipv4_header(proto, src, dst, total, 0);
    let csum = spec_finalize(be_sum(h0));
    let h = spec_ipv4_header(proto, src, dst, total, csum);
    assert(spec_ipv4_packet(proto, src, dst, payload).take(20) =~= h);
    lemma_ipv4_header_sum(proto, src, dst, total, csum);
    lemma_words_sum_bound(h0, 10);
    lemma_checksum_checks(be_sum(h0));
}

} // verus!
