//! The web server's own decisions: visitor counters kept in memory, the
//! cache headers of its responses, the port it listens on, and the form
//! of the counter service's address.

use vstd::prelude::*;
use vstd::string::StrSliceExecFns;
use crate::gateway::{parse_u16, parse_u64, spec_parse_u16, spec_parse_u64, MetricsSnapshot};

verus! {

/// The port served when none is configured.
pub const DEFAULT_PORT: u16 = 8080;

/// Counters kept in memory when no counter service is configured; they
/// wrap around like the atomic counters they stand for.
#[derive(Clone, Copy, Debug, PartialEq, Eq, Structural)]
pub struct MemoryMetrics {
    pub visitors: u64,
    pub run_cmds: u64,
}

pub open spec fn wrap_inc(x: u64) -> u64 {
    if x == u64::MAX {
        0
    } else {
        (x + 1) as u64
    }
}

impl MemoryMetrics {
    pub fn new() -> (m: Self)
        ensures
            m.visitors == 0 && m.run_cmds == 0,
    {
        MemoryMetrics { visitors: 0, run_cmds: 0 }
    }

    pub fn snapshot(&self) -> (s: MetricsSnapshot)
        ensures
            s.visitors == self.visitors && s.run_cmds == self.run_cmds,
    {
        MetricsSnapshot { visitors: self.visitors, run_cmds: self.run_cmds }
    }

    /// Counts a visit; returns the counters after it.
    pub fn incr_visitors(&mut self) -> (s: MetricsSnapshot)
        ensures
            final(self).visitors == wrap_inc(old(self).visitors),
            final(self).run_cmds == old(self).run_cmds,
            s.visitors == final(self).visitors && s.run_cmds == final(self).run_cmds,
    {
        self.visitors = self.visitors.wrapping_add(1);
        MetricsSnapshot { visitors: self.visitors, run_cmds: self.run_cmds }
    }

    /// Counts a command run; returns the counters after it.
    pub fn incr_run_cmds(&mut self) -> (s: MetricsSnapshot)
        ensures
            final(self).run_cmds == wrap_inc(old(self).run_cmds),
            final(self).visitors == old(self).visitors,
            s.visitors == final(self).visitors && s.run_cmds == final(self).run_cmds,
    {
        self.run_cmds = self.run_cmds.wrapping_add(1);
        MetricsSnapshot { visitors: self.visitors, run_cmds: self.run_cmds }
    }
}

/// The port to serve on: the configured one when it parses, else the
/// default.
pub fn listen_port(configured: Option<&str>) -> (p: u16)
    ensures
        p == (match configured {
            Some(c) => match spec_parse_u16(c@) {
                Some(v) => v,
                None => DEFAULT_PORT,
            },
            None => DEFAULT_PORT,
        }),
{
    match configured {
        Some(c) => match parse_u16(c) {
            Some(v) => v,
            None => DEFAULT_PORT,
        },
        None => DEFAULT_PORT,
    }
}

/// The cache policy of a static file: pages are revalidated each time,
/// other assets kept for a year.
pub fn static_cache_value(is_html: bool) -> (v: &'static str)
    ensures
        is_html ==> v@ == "no-cache, max-age=0, must-revalidate"@,
        !is_html ==> v@ == "public, max-age=31536000, immutable"@,
{
    if is_html {
        "no-cache, max-age=0, must-revalidate"
    } else {
        "public, max-age=31536000, immutable"
    }
}

/// The code of `c` with ASCII capitals lowered.
pub open spec fn lower_code(c: char) -> u32 {
    if 'A' <= c <= 'Z' {
        (c as u32 + 32) as u32
    } else {
        c as u32
    }
}

/// Whether the forwarded protocol names HTTPS, in any letter case.
pub open spec fn spec_is_https(proto: Seq<char>) -> bool {
    proto.len() == 5 && lower_code(proto[0]) == 0x68 && lower_code(proto[1]) == 0x74 && lower_code(proto[2]) == 0x74
        && lower_code(proto[3]) == 0x70 && lower_code(proto[4]) == 0x73
}

fn lower(c: char) -> (r: u32)
    ensures
        r == lower_code(c),
{
    if 'A' <= c && c <= 'Z' {
        (c as u32) + 32
    } else {
        c as u32
    }
}

/// Whether a request came over HTTPS, from the protocol its proxy says
/// it forwarded; strict transport security is promised only then.
pub fn is_https(proto: Option<&str>) -> (b: bool)
    ensures
        b == (match proto {
            Some(p) => spec_is_https(p@),
            None => false,
        }),
{
    match proto {
        None => false,
        Some(p) => {
            if p.unicode_len() != 5 {
                return false;
            }
            lower(p.get_char(0)) == 0x68 && lower(p.get_char(1)) == 0x74 && lower(p.get_char(2)) == 0x74 && lower(
                p.get_char(3),
            ) == 0x70 && lower(p.get_char(4)) == 0x73
        },
    }
}

/// Whether a content type names an HTML document: it starts with
/// "text/html" (parameters such as the charset may follow).
pub open spec fn spec_is_html(ct: Seq<char>) -> bool {
    ct.len() >= 9 && ct[0] == 't' && ct[1] == 'e' && ct[2] == 'x' && ct[3] == 't' && ct[4] == '/' && ct[5] == 'h'
        && ct[6] == 't' && ct[7] == 'm' && ct[8] == 'l'
}

/// Whether a response is HTML, from its content type if it has one;
/// HTML pages are revalidated, other static files cached for good.
pub fn is_html_response(content_type: Option<&str>) -> (b: bool)
    ensures
        b == (match content_type {
            Some(ct) => spec_is_html(ct@),
            None => false,
        }),
{
    match content_type {
        None => false,
        Some(ct) => {
            if ct.unicode_len() < 9 {
                return false;
            }
            ct.get_char(0) == 't' && ct.get_char(1) == 'e' && ct.get_char(2) == 'x' && ct.get_char(3) == 't'
                && ct.get_char(4) == '/' && ct.get_char(5) == 'h' && ct.get_char(6) == 't' && ct.get_char(7) == 'm'
                && ct.get_char(8) == 'l'
        },
    }
}

/// The end of `s` without its trailing slashes.
pub open spec fn trailing_slash_start(s: Seq<char>, e: int) -> int
    decreases e,
{
    if e > 0 && e <= s.len() && s[e - 1] == '/' {
        trailing_slash_start(s, e - 1)
    } else {
        e
    }
}

proof fn lemma_trailing_slash_start(s: Seq<char>, e: int)
    requires
        0 <= e <= s.len(),
    ensures
        0 <= trailing_slash_start(s, e) <= e,
    decreases e,
{
    if e > 0 && s[e - 1] == '/' {
        lemma_trailing_slash_start(s, e - 1);
    }
}

/// The counter service's address without trailing slashes.
pub fn normalize_url(raw: &str) -> (r: String)
    ensures
        r@ == raw@.take(trailing_slash_start(raw@, raw@.len() as int)),
{
    let n = raw.unicode_len();
    let mut e: usize = n;
    while e > 0 && raw.get_char(e - 1) == '/'
        invariant
            n == raw@.len(),
            e <= n,
            trailing_slash_start(raw@, n as int) == trailing_slash_start(raw@, e as int),
        decreases e,
    {
        e = e - 1;
    }
    let sub = raw.substring_char(0, e);
    assert(raw@.subrange(0, e as int) =~= raw@.take(e as int));
    sub.to_owned()
}


/// A value the counter service answered with, as its JSON reads: null, a
/// number (its value when it is a 64-bit unsigned integer), a string, or
/// anything else.
#[derive(Debug)]
pub enum CounterValue {
    Null,
    Number(Option<u64>),
    Text(String),
    Other,
}

/// Why a counter value was refused.
#[derive(Clone, Copy, Debug, PartialEq, Eq, Structural)]
pub enum CounterError {
    /// A number or string that is not a 64-bit unsigned integer.
    InvalidNumber,
    /// A value of another kind.
    Unexpected,
}

/// The count a counter value stands for: zero for null (a key never
/// counted), the number itself, or the decimal number a string holds.
pub fn counter_value(v: &CounterValue) -> (r: Result<u64, CounterError>)
    ensures
        match *v {
            CounterValue::Null => r == Ok::<u64, CounterError>(0),
            CounterValue::Number(n) => match n {
                Some(x) => r == Ok::<u64, CounterError>(x),
                None => r == Err::<u64, CounterError>(CounterError::InvalidNumber),
            },
            CounterValue::Text(t) => match spec_parse_u64(t@) {
                Some(x) => r == Ok::<u64, CounterError>(x),
                None => r == Err::<u64, CounterError>(CounterError::InvalidNumber),
            },
            CounterValue::Other => r == Err::<u64, CounterError>(CounterError::Unexpected),
        },
{
    match v {
        CounterValue::Null => Ok(0),
        CounterValue::Number(n) => match n {
            Some(x) => Ok(*x),
            None => Err(CounterError::InvalidNumber),
        },
        CounterValue::Text(t) => match parse_u64(t.as_str()) {
            Some(x) => Ok(x),
            None => Err(CounterError::InvalidNumber),
        },
        CounterValue::Other => Err(CounterError::Unexpected),
    }
}

} // verus!
