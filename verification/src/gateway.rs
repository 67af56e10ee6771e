//! The browser gateway's own logic: session ids that name the machine
//! holding a session, the lists read from its configuration, and the
//! request and response records it exchanges with the browser.

use vstd::prelude::*;
use vstd::string::StrSliceExecFns;
use vstd::string::StringExecFns;

verus! {

/// Counters shown to visitors.
#[derive(Clone, Copy, Debug, PartialEq, Eq, Structural)]
pub struct MetricsSnapshot {
    pub visitors: u64,
    pub run_cmds: u64,
}

/// A browser's session offer.
pub struct OfferRequest {
    pub sdp: String,
    pub kind: String,
}

/// The answer to an offer, with the id of the new session.
pub struct OfferResponse {
    pub session_id: String,
    pub sdp: String,
    pub kind: String,
}

/// A connectivity candidate, as exchanged with the browser.
pub struct TrickleCandidate {
    pub candidate: String,
    pub sdp_mid: Option<String>,
    pub sdp_mline_index: Option<u16>,
    pub username_fragment: Option<String>,
}

/// A candidate from the browser for a session, or a poll for the
/// gateway's candidates.
pub struct CandidateRequest {
    pub session_id: String,
    pub candidate: Option<TrickleCandidate>,
}

/// The gateway's candidates gathered so far.
pub struct CandidateResponse {
    pub candidates: Vec<TrickleCandidate>,
}

/// A request for a session's candidate stream.
pub struct StreamRequest {
    pub session_id: String,
}

/// One server for connectivity checks.
pub struct WebrtcIceServer {
    pub urls: Vec<String>,
    pub username: Option<String>,
    pub credential: Option<String>,
}

/// The servers the browser should use.
pub struct WebrtcConfigResponse {
    pub ice_servers: Vec<WebrtcIceServer>,
}

/// The characters `str::trim` removes: the Unicode white space.
pub open spec fn spec_is_ws(c: char) -> bool {
    let u = c as u32;
    (0x09 <= u <= 0x0d) || u == 0x20 || u == 0x85 || u == 0xa0 || u == 0x1680 || (0x2000 <= u <= 0x200a)
        || u == 0x2028 || u == 0x2029 || u == 0x202f || u == 0x205f || u == 0x3000
}

pub fn is_ws(c: char) -> (b: bool)
    ensures
        b == spec_is_ws(c),
{
    let u = c as u32;
    (0x09 <= u && u <= 0x0d) || u == 0x20 || u == 0x85 || u == 0xa0 || u == 0x1680 || (0x2000 <= u && u
        <= 0x200a) || u == 0x2028 || u == 0x2029 || u == 0x202f || u == 0x205f || u == 0x3000
}

/// The first position at or after `k` that is not white space.
pub open spec fn lead_end(s: Seq<char>, k: int) -> int
    decreases s.len() - k,
{
    if k < s.len() && k >= 0 && spec_is_ws(s[k]) {
        lead_end(s, k + 1)
    } else {
        k
    }
}

/// The end of `s[..e]` without its trailing white space.
pub open spec fn trail_start(s: Seq<char>, e: int) -> int
    decreases e,
{
    if e > 0 && e <= s.len() && spec_is_ws(s[e - 1]) {
        trail_start(s, e - 1)
    } else {
        e
    }
}

/// `s` without leading and trailing white space.
pub open spec fn spec_trim(s: Seq<char>) -> Seq<char> {
    let a = lead_end(s, 0);
    if a >= s.len() {
        Seq::empty()
    } else {
        s.subrange(a, trail_start(s, s.len() as int))
    }
}

proof fn lemma_lead_end(s: Seq<char>, k: int)
    requires
        0 <= k <= s.len(),
    ensures
        k <= lead_end(s, k) <= s.len(),
        lead_end(s, k) < s.len() ==> !spec_is_ws(s[lead_end(s, k)]),
    decreases s.len() - k,
{
    if k < s.len() && spec_is_ws(s[k]) {
        lemma_lead_end(s, k + 1);
    }
}

proof fn lemma_trail_start(s: Seq<char>, e: int, a: int)
    requires
        0 <= a < e <= s.len(),
        !spec_is_ws(s[a]),
    ensures
        a < trail_start(s, e) <= e,
    decreases e,
{
    if spec_is_ws(s[e - 1]) {
        lemma_trail_start(s, e - 1, a);
    }
}

/// `s` without leading and trailing white space.
pub fn trim(s: &str) -> (r: String)
    ensures
        r@ == spec_trim(s@),
{
    let n = s.unicode_len();
    let mut a: usize = 0;
    while a < n && is_ws(s.get_char(a))
        invariant
            n == s@.len(),
            a <= n,
            lead_end(s@, 0) == lead_end(s@, a as int),
        decreases n - a,
    {
        a = a + 1;
    }
    proof {
        lemma_lead_end(s@, a as int);
    }
    if a >= n {
        return String::new();
    }
    let mut e: usize = n;
    while e > a && is_ws(s.get_char(e - 1))
        invariant
            n == s@.len(),
            a < n,
            a < e,
            e <= n,
            !spec_is_ws(s@[a as int]),
            trail_start(s@, n as int) == trail_start(s@, e as int),
        decreases e,
    {
        e = e - 1;
    }
    proof {
        lemma_trail_start(s@, e as int, a as int);
    }
    let sub = s.substring_char(a, e);
    sub.to_owned()
}

/// The position of the first `c` in `s` at or after `k`.
pub open spec fn find_char_from(s: Seq<char>, c: char, k: int) -> Option<int>
    decreases s.len() - k,
{
    if k < 0 || k >= s.len() {
        None
    } else if s[k] == c {
        Some(k)
    } else {
        find_char_from(s, c, k + 1)
    }
}

pub proof fn lemma_find_char_from(s: Seq<char>, c: char, k: int)
    requires
        0 <= k,
    ensures
        find_char_from(s, c, k) matches Some(i) ==> k <= i < s.len() && s[i] == c,
        find_char_from(s, c, k) is None ==> forall|j: int| k <= j < s.len() ==> s[j] != c,
    decreases s.len() - k,
{
    if k < s.len() && s[k] != c {
        lemma_find_char_from(s, c, k + 1);
    }
}

/// The position of the first `c` in `s`.
pub fn find_char(s: &str, c: char) -> (r: Option<usize>)
    ensures
        r matches Some(i) ==> find_char_from(s@, c, 0) == Some(i as int),
        r is None ==> find_char_from(s@, c, 0) is None,
{
    let n = s.unicode_len();
    let mut i: usize = 0;
    while i < n
        invariant
            n == s@.len(),
            i <= n,
            find_char_from(s@, c, 0) == find_char_from(s@, c, i as int),
        decreases n - i,
    {
        if s.get_char(i) == c {
            return Some(i);
        }
        i = i + 1;
    }
    None
}

/// `s` cut at each `c`, as `str::split` does.
pub open spec fn spec_split(s: Seq<char>, c: char) -> Seq<Seq<char>>
    decreases s.len(),
{
    match find_char_from(s, c, 0) {
        None => seq![s],
        Some(i) => {
            if 0 <= i < s.len() {
                seq![s.take(i)] + spec_split(s.skip(i + 1), c)
            } else {
                seq![s]
            }
        },
    }
}

/// `s` cut at each `c`.
pub fn split_char(s: &str, c: char) -> (r: Vec<String>)
    ensures
        r@.map_values(|x: String| x@) == spec_split(s@, c),
    decreases s@.len(),
{
    proof {
        lemma_find_char_from(s@, c, 0);
    }
    match find_char(s, c) {
        None => {
            let v = vec![s.to_owned()];
            assert(v@.map_values(|x: String| x@) =~= seq![s@]);
            v
        },
        Some(i) => {
            let n = s.unicode_len();
            let head = s.substring_char(0, i).to_owned();
            let rest = s.substring_char(i + 1, n);
            let tail = split_char(rest, c);
            let mut v: Vec<String> = Vec::new();
            v.push(head);
            let mut t = tail;
            v.append(&mut t);
            assert(v@.map_values(|x: String| x@) =~= seq![s@.take(i as int)] + spec_split(s@.skip(i + 1), c));
            v
        },
    }
}

/// The non-empty pieces of `s` cut at commas, each trimmed.
pub open spec fn spec_csv_list(s: Seq<char>) -> Seq<Seq<char>> {
    spec_split(s, ',').map_values(|p: Seq<char>| spec_trim(p)).filter(|p: Seq<char>| p.len() > 0)
}

/// The non-empty, trimmed entries of a comma-separated list.
pub fn csv_list(s: &str) -> (r: Vec<String>)
    ensures
        r@.map_values(|x: String| x@) == spec_csv_list(s@),
{
    let parts = split_char(s, ',');
    let ghost ps = parts@.map_values(|x: String| x@);
    let mut out: Vec<String> = Vec::new();
    let mut i: usize = 0;
    while i < parts.len()
        invariant
            i <= parts@.len(),
            ps == parts@.map_values(|x: String| x@),
            out@.map_values(|x: String| x@) == ps.take(i as int).map_values(|p: Seq<char>| spec_trim(p)).filter(
                |p: Seq<char>| p.len() > 0,
            ),
        decreases parts@.len() - i,
    {
        let t = trim(parts[i].as_str());
        let ghost before = out@.map_values(|x: String| x@);
        proof {
            let tk = ps.take(i + 1).map_values(|p: Seq<char>| spec_trim(p));
            assert(tk.drop_last() =~= ps.take(i as int).map_values(|p: Seq<char>| spec_trim(p)));
            assert(tk.last() == spec_trim(ps[i as int]));
            reveal(Seq::filter);
        }
        if t.unicode_len() > 0 {
            out.push(t);
            assert(out@.map_values(|x: String| x@) =~= before.push(spec_trim(ps[i as int])));
        }
        i = i + 1;
    }
    assert(ps.take(parts@.len() as int) =~= ps);
    out
}

/// The value of a string of decimal digits.
pub open spec fn digits_value(d: Seq<char>) -> int
    decreases d.len(),
{
    if d.len() == 0 {
        0
    } else {
        10 * digits_value(d.drop_last()) + (d.last() as int - '0' as int)
    }
}

pub open spec fn spec_is_digit(c: char) -> bool {
    '0' <= c <= '9'
}

/// `s` without a leading `+`.
pub open spec fn unsigned_digits(s: Seq<char>) -> Seq<char> {
    if s.len() > 0 && s[0] == '+' {
        s.drop_first()
    } else {
        s
    }
}

pub open spec fn all_digits(d: Seq<char>) -> bool {
    forall|i: int| 0 <= i < d.len() ==> spec_is_digit(#[trigger] d[i])
}

/// `u16::from_str`: an optional `+`, then one or more decimal digits
/// whose value fits in 16 bits.
pub open spec fn spec_parse_u16(s: Seq<char>) -> Option<u16> {
    let d = unsigned_digits(s);
    if d.len() == 0 || !all_digits(d) || digits_value(d) > u16::MAX {
        None
    } else {
        Some(digits_value(d) as u16)
    }
}

proof fn lemma_digits_value_mono(d: Seq<char>, k: int)
    requires
        0 <= k <= d.len(),
        forall|i: int| 0 <= i < d.len() ==> spec_is_digit(#[trigger] d[i]),
    ensures
        0 <= digits_value(d.take(k)) <= digits_value(d),
    decreases d.len() - k,
{
    if k < d.len() {
        lemma_digits_value_mono(d, k + 1);
        assert(d.take(k + 1).drop_last() =~= d.take(k));
        lemma_digits_value_nonneg(d.take(k));
    } else {
        assert(d.take(k) =~= d);
        lemma_digits_value_nonneg(d);
    }
}

proof fn lemma_digits_value_nonneg(d: Seq<char>)
    requires
        forall|i: int| 0 <= i < d.len() ==> spec_is_digit(#[trigger] d[i]),
    ensures
        digits_value(d) >= 0,
    decreases d.len(),
{
    if d.len() > 0 {
        lemma_digits_value_nonneg(d.drop_last());
    }
}

proof fn lemma_parse_u16_none(s: Seq<char>, d: Seq<char>, j: int)
    requires
        d == unsigned_digits(s),
        0 <= j <= d.len(),
        (j < d.len() && !spec_is_digit(d[j])) || ((forall|i: int| 0 <= i < d.len() ==> spec_is_digit(#[trigger] d[i])) ==> digits_value(d) > u16::MAX),
    ensures
        spec_parse_u16(s) is None,
{
}

/// Parses a 16-bit unsigned number as `u16::from_str` does.
pub fn parse_u16(s: &str) -> (r: Option<u16>)
    ensures
        r == spec_parse_u16(s@),
{
    let n = s.unicode_len();
    let start: usize = if n > 0 && s.get_char(0) == '+' {
        1
    } else {
        0
    };
    let ghost d = unsigned_digits(s@);
    assert(d =~= s@.skip(start as int));
    if start >= n {
        return None;
    }
    let mut v: u32 = 0;
    let mut i: usize = start;
    while i < n
        invariant
            n == s@.len(),
            start <= i <= n,
            start < n,
            d == s@.skip(start as int),
            d == unsigned_digits(s@),
            forall|j: int| 0 <= j < i - start ==> spec_is_digit(#[trigger] d[j]),
            v == digits_value(d.take(i - start)),
            v <= u16::MAX,
        decreases n - i,
    {
        let c = s.get_char(i);
        if !('0' <= c && c <= '9') {
            assert(d[i - start] == c);
            assert(!spec_is_digit(d[i - start]));
            proof {
                lemma_parse_u16_none(s@, d, i - start);
            }
            return None;
        }
        let dig = (c as u32) - ('0' as u32);
        let nv = v * 10 + dig;
        proof {
            assert(d.take(i - start + 1).drop_last() =~= d.take(i - start));
            assert(d.take(i - start + 1).last() == c);
        }
        if nv > 65535 {
            proof {
                assert(digits_value(d.take(i - start + 1)) == nv);
                if forall|j: int| 0 <= j < d.len() ==> spec_is_digit(#[trigger] d[j]) {
                    lemma_digits_value_mono(d, i - start + 1);
                    assert(digits_value(d) > u16::MAX);
                }
                lemma_parse_u16_none(s@, d, d.len() as int);
            }
            return None;
        }
        v = nv;
        i = i + 1;
    }
    assert(d.take(n - start) =~= d);
    Some(v as u16)
}

/// `u64::from_str`: an optional `+`, then one or more decimal digits
/// whose value fits in 64 bits.
pub open spec fn spec_parse_u64(s: Seq<char>) -> Option<u64> {
    let d = unsigned_digits(s);
    if d.len() == 0 || !all_digits(d) || digits_value(d) > u64::MAX {
        None
    } else {
        Some(digits_value(d) as u64)
    }
}

proof fn lemma_parse_u64_none(s: Seq<char>, d: Seq<char>, j: int)
    requires
        d == unsigned_digits(s),
        0 <= j <= d.len(),
        (j < d.len() && !spec_is_digit(d[j])) || ((forall|i: int| 0 <= i < d.len() ==> spec_is_digit(#[trigger] d[i])) ==> digits_value(d) > u64::MAX),
    ensures
        spec_parse_u64(s) is None,
{
}

/// Parses a 64-bit unsigned number as `u64::from_str` does.
pub fn parse_u64(s: &str) -> (r: Option<u64>)
    ensures
        r == spec_parse_u64(s@),
{
    let n = s.unicode_len();
    let start: usize = if n > 0 && s.get_char(0) == '+' {
        1
    } else {
        0
    };
    let ghost d = unsigned_digits(s@);
    assert(d =~= s@.skip(start as int));
    if start >= n {
        return None;
    }
    let mut v: u128 = 0;
    let mut i: usize = start;
    while i < n
        invariant
            n == s@.len(),
            start <= i <= n,
            start < n,
            d == s@.skip(start as int),
            d == unsigned_digits(s@),
            forall|j: int| 0 <= j < i - start ==> spec_is_digit(#[trigger] d[j]),
            v == digits_value(d.take(i - start)),
            v <= u64::MAX,
        decreases n - i,
    {
        let c = s.get_char(i);
        if !('0' <= c && c <= '9') {
            assert(d[i - start] == c);
            assert(!spec_is_digit(d[i - start]));
            proof {
                lemma_parse_u64_none(s@, d, i - start);
            }
            return None;
        }
        let dig = ((c as u32) - ('0' as u32)) as u128;
        let nv = v * 10 + dig;
        proof {
            assert(d.take(i - start + 1).drop_last() =~= d.take(i - start));
            assert(d.take(i - start + 1).last() == c);
        }
        if nv > 0xFFFF_FFFF_FFFF_FFFF {
            proof {
                assert(digits_value(d.take(i - start + 1)) == nv);
                if forall|j: int| 0 <= j < d.len() ==> spec_is_digit(#[trigger] d[j]) {
                    lemma_digits_value_mono(d, i - start + 1);
                    assert(digits_value(d) > u64::MAX);
                }
                lemma_parse_u64_none(s@, d, d.len() as int);
            }
            return None;
        }
        v = nv;
        i = i + 1;
    }
    assert(d.take(n - start) =~= d);
    Some(v as u64)
}

/// The bounds of an `a-b` port range, both non-zero and in order.
pub open spec fn spec_parse_port_range(s: Seq<char>) -> Option<(u16, u16)> {
    match find_char_from(s, '-', 0) {
        None => None,
        Some(i) => match (spec_parse_u16(spec_trim(s.take(i))), spec_parse_u16(spec_trim(s.skip(i + 1)))) {
            (Some(lo), Some(hi)) => if lo == 0 || hi == 0 || lo > hi {
                None
            } else {
                Some((lo, hi))
            },
            _ => None,
        },
    }
}

/// Parses a port range `min-max`.
pub fn parse_port_range(s: &str) -> (r: Option<(u16, u16)>)
    ensures
        r == spec_parse_port_range(s@),
{
    proof {
        lemma_find_char_from(s@, '-', 0);
    }
    let i = match find_char(s, '-') {
        None => {
            return None;
        },
        Some(i) => i,
    };
    let n = s.unicode_len();
    let a = trim(s.substring_char(0, i));
    let b = trim(s.substring_char(i + 1, n));
    assert(s@.subrange(0, i as int) =~= s@.take(i as int));
    assert(s@.subrange(i + 1, n as int) =~= s@.skip(i + 1));
    let lo = match parse_u16(a.as_str()) {
        None => {
            return None;
        },
        Some(x) => x,
    };
    let hi = match parse_u16(b.as_str()) {
        None => {
            return None;
        },
        Some(x) => x,
    };
    if lo == 0 || hi == 0 || lo > hi {
        return None;
    }
    Some((lo, hi))
}

/// An empty string stands for no value.
pub fn empty_to_none(value: String) -> (r: Option<String>)
    ensures
        value@.len() == 0 ==> r is None,
        value@.len() > 0 ==> (r matches Some(v) && v@ == value@),
{
    if value.unicode_len() == 0 {
        None
    } else {
        Some(value)
    }
}

/// What `Uuid::parse_str` makes of a text, as the UUID's 16 bytes.
pub uninterp spec fn uuid_parse(s: Seq<char>) -> Option<Seq<u8>>;

/// A lowercase hexadecimal digit.
pub open spec fn hex_digit(n: int) -> char {
    if n < 10 {
        (0x30 + n) as char
    } else {
        (0x61 + n - 10) as char
    }
}

/// Byte `i` of `b` as two lowercase hexadecimal digits.
pub open spec fn hex_byte(b: Seq<u8>, i: int) -> Seq<char> {
    seq![hex_digit(b[i] as int / 16), hex_digit(b[i] as int % 16)]
}

/// Bytes `from` up to `to` of `b` in hexadecimal.
pub open spec fn hex_run(b: Seq<u8>, from: int, to: int) -> Seq<char>
    decreases to - from,
{
    if to <= from {
        Seq::empty()
    } else {
        hex_run(b, from, to - 1) + hex_byte(b, to - 1)
    }
}

/// The hyphenated lowercase text of a UUID: its bytes in hexadecimal in
/// groups of 4, 2, 2, 2 and 6 bytes joined by `-`.
pub open spec fn spec_uuid_hyphenated(b: Seq<u8>) -> Seq<char> {
    hex_run(b, 0, 4) + seq!['-'] + hex_run(b, 4, 6) + seq!['-'] + hex_run(b, 6, 8) + seq!['-'] + hex_run(b, 8, 10)
        + seq!['-'] + hex_run(b, 10, 16)
}

/// Parses a UUID in any of the forms `Uuid::parse_str` accepts; gives its
/// 16 bytes.
#[verifier::external_body]
fn parse_uuid(s: &str) -> (r: Option<[u8; 16]>)
    ensures
        match r {
            Some(b) => uuid_parse(s@) == Some(b@),
            None => uuid_parse(s@) is None,
        },
{
    match uuid::Uuid::parse_str(s) {
        Ok(u) => Some(*u.as_bytes()),
        Err(_) => None,
    }
}

/// The text `Uuid`'s `Display` gives for the UUID with bytes `b`: the
/// hyphenated lowercase form, which `Uuid::parse_str` reads back as `b`.
#[verifier::external_body]
fn uuid_string(b: [u8; 16]) -> (r: String)
    ensures
        r@ == spec_uuid_hyphenated(b@),
        uuid_parse(r@) == Some(b@),
{
    uuid::Uuid::from_bytes(b).to_string()
}

/// The owner named when a session id names none.
pub open spec fn default_owner() -> Seq<char> {
    seq!['l', 'o', 'c', 'a', 'l']
}

/// A session id: the owning machine (the default owner when empty), a
/// colon, and the session's UUID in hyphenated form.
pub open spec fn spec_encode_session_id(owner: Seq<char>, id: Seq<u8>) -> Seq<char> {
    (if owner.len() == 0 { default_owner() } else { owner }) + seq![':'] + spec_uuid_hyphenated(id)
}

/// The owner and UUID text of a session id: split at its first colon when
/// both sides are non-empty, else `default` owns the whole text.
pub open spec fn spec_split_session_id(raw: Seq<char>, default: Seq<char>) -> (Seq<char>, Seq<char>) {
    match find_char_from(raw, ':', 0) {
        Some(i) => if 0 < i && i + 1 < raw.len() {
            (raw.take(i), raw.skip(i + 1))
        } else {
            (default, raw)
        },
        None => (default, raw),
    }
}

/// The owner and UUID a session id names, if its UUID part parses.
pub open spec fn spec_decode_session_id(raw: Seq<char>, default: Seq<char>) -> Option<(Seq<char>, Seq<u8>)> {
    let (owner, idp) = spec_split_session_id(raw, default);
    match uuid_parse(idp) {
        Some(b) => Some((owner, b)),
        None => None,
    }
}

/// The session id of session `id` owned by machine `owner`.
pub fn encode_session_id(owner: &str, id: [u8; 16]) -> (r: String)
    ensures
        r@ == spec_encode_session_id(owner@, id@),
        uuid_parse(spec_uuid_hyphenated(id@)) == Some(id@),
{
    let mut out = if owner.unicode_len() == 0 {
        let d = String::from_str("local");
        proof {
            reveal_strlit("local");
            assert(d@ =~= default_owner());
        }
        d
    } else {
        owner.to_owned()
    };
    out.append(":");
    let u = uuid_string(id);
    out.append(u.as_str());
    proof {
        reveal_strlit(":");
        assert(out@ =~= spec_encode_session_id(owner@, id@));
    }
    out
}

/// The owner and UUID named by session id `raw`; an id without an owner
/// belongs to `default_owner`.
pub fn decode_session_id(raw: &str, default_owner: &str) -> (r: Option<(String, [u8; 16])>)
    ensures
        match spec_decode_session_id(raw@, default_owner@) {
            None => r is None,
            Some((o, b)) => r matches Some(p) && p.0@ == o && p.1@ == b,
        },
{
    proof {
        lemma_find_char_from(raw@, ':', 0);
    }
    let n = raw.unicode_len();
    let (owner, idp): (&str, &str) = match find_char(raw, ':') {
        Some(i) => if 0 < i && i + 1 < n {
            (raw.substring_char(0, i), raw.substring_char(i + 1, n))
        } else {
            (default_owner, raw)
        },
        None => (default_owner, raw),
    };
    proof {
        let (so, si) = spec_split_session_id(raw@, default_owner@);
        if let Some(i) = find_char_from(raw@, ':', 0) {
            assert(raw@.subrange(0, i) =~= raw@.take(i));
            assert(raw@.subrange(i + 1, n as int) =~= raw@.skip(i + 1));
        }
        assert(owner@ == so && idp@ == si);
    }
    match parse_uuid(idp) {
        Some(b) => Some((owner.to_owned(), b)),
        None => None,
    }
}

proof fn lemma_hex_digit_not_colon(n: int)
    requires
        0 <= n < 16,
    ensures
        hex_digit(n) != ':',
        hex_digit(n) != '-',
{
}

proof fn lemma_hex_run_no_colon(b: Seq<u8>, from: int, to: int)
    requires
        0 <= from <= to <= b.len(),
    ensures
        hex_run(b, from, to).len() == 2 * (to - from),
        forall|i: int| 0 <= i < hex_run(b, from, to).len() ==> hex_run(b, from, to)[i] != ':',
    decreases to - from,
{
    if to > from {
        lemma_hex_run_no_colon(b, from, to - 1);
        lemma_hex_digit_not_colon(b[to - 1] as int / 16);
        lemma_hex_digit_not_colon(b[to - 1] as int % 16);
    }
}

/// Reading a session id back gives the owner and UUID it was made from,
/// for owners without a colon (an empty owner reads back as the default
/// owner).
pub proof fn law_session_id_roundtrip(owner: Seq<char>, id: Seq<u8>, default: Seq<char>)
    requires
        id.len() == 16,
        forall|i: int| 0 <= i < owner.len() ==> owner[i] != ':',
        uuid_parse(spec_uuid_hyphenated(id)) == Some(id),
    ensures
        spec_decode_session_id(spec_encode_session_id(owner, id), default) == Some(
            (if owner.len() == 0 { default_owner() } else { owner }, id),
        ),
{
    let o = if owner.len() == 0 { default_owner() } else { owner };
    let h = spec_uuid_hyphenated(id);
    let e = spec_encode_session_id(owner, id);
    lemma_hex_run_no_colon(id, 0, 4);
    lemma_hex_run_no_colon(id, 4, 6);
    lemma_hex_run_no_colon(id, 6, 8);
    lemma_hex_run_no_colon(id, 8, 10);
    lemma_hex_run_no_colon(id, 10, 16);
    assert(h.len() == 36);
    assert(forall|i: int| 0 <= i < o.len() ==> o[i] != ':');
    assert(e[o.len() as int] == ':');
    assert forall|k: int| 0 <= k <= o.len() implies find_char_from(e, ':', k) == Some(o.len() as int) by {
        lemma_find_from_down(e, ':', k, o.len() as int);
    }
    assert(e.take(o.len() as int) =~= o);
    assert(e.skip(o.len() as int + 1) =~= h);
}

proof fn lemma_find_from_down(s: Seq<char>, c: char, k: int, i: int)
    requires
        0 <= k <= i < s.len(),
        s[i] == c,
        forall|j: int| k <= j < i ==> s[j] != c,
    ensures
        find_char_from(s, c, k) == Some(i),
    decreases i - k,
{
    if k < i {
        lemma_find_from_down(s, c, k + 1, i);
    }
}

/// The default server for connectivity checks.
pub open spec fn default_stun() -> Seq<char> {
    "stun:stun.l.google.com:19302"@
}

/// The servers for connectivity checks, from the comma-separated setting
/// `configured` (the default server when it is absent or lists none).
pub open spec fn spec_ice_server_urls(configured: Option<Seq<char>>) -> Seq<Seq<char>> {
    let s = match configured {
        Some(c) => c,
        None => default_stun(),
    };
    let l = spec_csv_list(s);
    if l.len() == 0 {
        seq![default_stun()]
    } else {
        l
    }
}

/// The servers for connectivity checks.
pub fn ice_server_urls(configured: Option<&str>) -> (r: Vec<String>)
    ensures
        r@.map_values(|x: String| x@) == spec_ice_server_urls(match configured {
            Some(c) => Some(c@),
            None => None,
        }),
{
    let s: &str = match configured {
        Some(c) => c,
        None => "stun:stun.l.google.com:19302",
    };
    let l = csv_list(s);
    if l.len() == 0 {
        let v = vec![String::from_str("stun:stun.l.google.com:19302")];
        assert(v@.map_values(|x: String| x@) =~= seq![default_stun()]);
        v
    } else {
        l
    }
}

/// The configuration the browser is given: one entry holding every
/// server, with no credentials.
pub fn config_response(configured: Option<&str>) -> (r: WebrtcConfigResponse)
    ensures
        r.ice_servers@.len() == 1,
        r.ice_servers@[0].urls@.map_values(|x: String| x@) == spec_ice_server_urls(match configured {
            Some(c) => Some(c@),
            None => None,
        }),
        r.ice_servers@[0].username is None,
        r.ice_servers@[0].credential is None,
{
    let urls = ice_server_urls(configured);
    WebrtcConfigResponse { ice_servers: vec![WebrtcIceServer { urls, username: None, credential: None }] }
}

/// The public addresses to announce, from the comma-separated setting.
pub fn parse_public_ips(configured: Option<&str>) -> (r: Vec<String>)
    ensures
        configured is None ==> r@.len() == 0,
        configured matches Some(c) ==> r@.map_values(|x: String| x@) == spec_csv_list(c@),
{
    match configured {
        None => Vec::new(),
        Some(c) => csv_list(c),
    }
}

/// The port range to use, from the setting, when it is a valid range.
pub fn parse_port_range_env(configured: Option<&str>) -> (r: Option<(u16, u16)>)
    ensures
        configured is None ==> r is None,
        configured matches Some(c) ==> r == spec_parse_port_range(c@),
{
    match configured {
        None => None,
        Some(c) => parse_port_range(c),
    }
}

/// The machine that owns sessions made here: the configured allocation
/// id, else the default owner.
pub fn current_session_owner(alloc_id: Option<String>) -> (r: String)
    ensures
        alloc_id matches Some(a) ==> r@ == a@,
        alloc_id is None ==> r@ == default_owner(),
{
    match alloc_id {
        Some(a) => a,
        None => {
            let d = String::from_str("local");
            proof {
                reveal_strlit("local");
                assert(d@ =~= default_owner());
            }
            d
        },
    }
}

} // verus!
