//! Trace context for distributed tracing, after the W3C `traceparent` and
//! `tracestate` headers.
use crate::json::hex_digit;
use crate::number::unsigned_part;
use crate::text::{join_seq, join_strings, push_char, split_char, split_seq, views};
use vstd::prelude::*;

verus! {

/// The `sampled` flag.
pub const FLAG_SAMPLED: u8 = 1;

/// The `random-trace-id` flag.
pub const FLAG_RANDOM_TRACE_ID: u8 = 2;

/// Relies on `rand::random`; nothing is known of the value drawn.
#[verifier::external_body]
fn random_u64() -> u64 {
    rand::random::<u64>()
}

/// Relies on `rand::random`; nothing is known of the value drawn.
#[verifier::external_body]
fn random_u128() -> u128 {
    rand::random::<u128>()
}

/// `n` in `w` lower-case hexadecimal digits, padded with zeros.
pub open spec fn hex_fixed(n: nat, w: nat) -> Seq<char>
    decreases w,
{
    if w == 0 {
        Seq::empty()
    } else {
        hex_fixed(n / 16, (w - 1) as nat).push(hex_digit(n % 16))
    }
}

/// Renders `n` in `w` lower-case hexadecimal digits.
fn hex_text(n: u128, w: usize) -> (r: String)
    ensures
        r@ == hex_fixed(n as nat, w as nat),
    decreases w,
{
    if w == 0 {
        return String::new();
    }
    let mut out = hex_text(n / 16, w - 1);
    let v = (n % 16) as u8;
    push_char(&mut out, if v < 10 { (48 + v) as char } else { (87 + v) as char });
    out
}

pub open spec fn is_hex(c: char) -> bool {
    ('0' <= c && c <= '9') || ('a' <= c && c <= 'f') || ('A' <= c && c <= 'F')
}

pub open spec fn hex_value_of(c: char) -> nat {
    if '0' <= c && c <= '9' {
        ((c as nat) - 48) as nat
    } else if 'a' <= c && c <= 'f' {
        ((c as nat) - 87) as nat
    } else {
        ((c as nat) - 55) as nat
    }
}

/// The number that a string of hexadecimal digits denotes.
pub open spec fn hex_value(s: Seq<char>) -> nat
    decreases s.len(),
{
    if s.len() == 0 {
        0
    } else {
        hex_value(s.drop_last()) * 16 + hex_value_of(s.last())
    }
}

/// What an unsigned `from_str_radix(s, 16)` gives for a type whose largest
/// value is `max`: an optional `+`, then hexadecimal digits whose value fits.
pub open spec fn parse_hex_spec(s: Seq<char>, max: nat) -> Option<nat> {
    let t = unsigned_part(s, false);
    if t.len() > 0 && (forall|i: int| 0 <= i < t.len() ==> is_hex(#[trigger] t[i])) && hex_value(t)
        <= max {
        Some(hex_value(t))
    } else {
        None
    }
}

proof fn lemma_hex_value_grows(s: Seq<char>, i: int)
    requires
        0 <= i <= s.len(),
    ensures
        hex_value(s.subrange(0, i)) <= hex_value(s),
    decreases s.len() - i,
{
    if i < s.len() {
        lemma_hex_value_grows(s, i + 1);
        assert(s.subrange(0, i + 1).drop_last() =~= s.subrange(0, i));
    } else {
        assert(s.subrange(0, i) =~= s);
    }
}

/// Parses hexadecimal text as an unsigned number of at most `max`.
pub fn parse_hex(s: &str, max: u128) -> (r: Option<u128>)
    ensures
        match r {
            Some(v) => parse_hex_spec(s@, max as nat) == Some(v as nat),
            None => parse_hex_spec(s@, max as nat) is None,
        },
{
    let n = s.unicode_len();
    let from: usize = if n > 0 && s.get_char(0) == '+' {
        1
    } else {
        0
    };
    let ghost t = unsigned_part(s@, false);
    assert(t =~= s@.subrange(from as int, n as int));
    if from == n {
        return None;
    }
    let mut acc: u128 = 0;
    let mut i: usize = from;
    while i < n
        invariant
            n == s@.len(),
            from <= i <= n,
            t == s@.subrange(from as int, n as int),
            t == unsigned_part(s@, false),
            forall|j: int| 0 <= j < i - from ==> is_hex(#[trigger] t[j]),
            acc as nat == hex_value(t.subrange(0, i - from)),
            acc <= max,
        decreases n - i,
    {
        let c = s.get_char(i);
        let ghost pre = t.subrange(0, i - from);
        let ghost next = t.subrange(0, i - from + 1);
        assert(next.drop_last() =~= pre);
        assert(t[i - from] == c);
        if !(('0' <= c && c <= '9') || ('a' <= c && c <= 'f') || ('A' <= c && c <= 'F')) {
            assert(!is_hex(t[i - from]));
            assert(!(forall|j: int| 0 <= j < t.len() ==> is_hex(#[trigger] t[j])));
            assert(parse_hex_spec(s@, max as nat) is None);
            return None;
        }
        let v: u128 = if '0' <= c && c <= '9' {
            (c as u32 - 48) as u128
        } else if 'a' <= c && c <= 'f' {
            (c as u32 - 87) as u128
        } else {
            (c as u32 - 55) as u128
        };
        assert(v as nat == hex_value_of(c));
        assert(hex_value(next) == acc * 16 + v);
        if v > max || acc > (max - v) / 16 {
            proof {
                lemma_hex_value_grows(t, i - from + 1);
                if v <= max {
                    assert(acc * 16 + v > max) by (nonlinear_arith)
                        requires
                            acc > (max - v) / 16,
                            v <= max,
                    ;
                }
                assert(t.subrange(0, t.len() as int) =~= t);
                assert(hex_value(t) > max);
                assert(parse_hex_spec(s@, max as nat) is None);
            }
            return None;
        }
        proof {
            assert(acc * 16 + v <= max) by (nonlinear_arith)
                requires
                    acc <= (max - v) / 16,
                    v <= max,
            ;
        }
        acc = acc * 16 + v;
        i = i + 1;
        assert forall|j: int| 0 <= j < i - from implies is_hex(#[trigger] t[j]) by {
            if j == i - from - 1 {
                assert(t[j] == c);
            }
        }
    }
    assert(t.subrange(0, n - from) =~= t);
    Some(acc)
}

/// Vendor-specific trace entries, in order.
pub struct TraceState {
    pub entries: Vec<(String, String)>,
}

/// The `tracestate` text of entries: `key=value` pairs joined by commas.
pub open spec fn tracestate_spec(entries: Seq<(String, String)>) -> Seq<char> {
    join_seq(entries.map_values(|e: (String, String)| e.0@ + "="@ + e.1@), ","@)
}

impl TraceState {
    /// An empty trace state.
    pub fn new() -> (r: TraceState)
        ensures
            r.entries@.len() == 0,
    {
        TraceState { entries: Vec::new() }
    }

    /// Adds an entry at the end.
    pub fn push(&mut self, key: &str, value: &str)
        ensures
            final(self).entries@.len() == old(self).entries@.len() + 1,
            final(self).entries@.drop_last() == old(self).entries@,
            final(self).entries@.last().0@ == key@,
            final(self).entries@.last().1@ == value@,
    {
        self.entries.push((key.to_owned(), value.to_owned()));
        assert(self.entries@.drop_last() =~= old(self).entries@);
    }

    /// A copy with the same entries.
    pub fn copy(&self) -> (r: TraceState)
        ensures
            r.entries@.len() == self.entries@.len(),
            forall|i: int|
                0 <= i < self.entries@.len() ==> (#[trigger] r.entries@[i]).0@ == self.entries@[i].0@
                    && r.entries@[i].1@ == self.entries@[i].1@,
    {
        let mut out: Vec<(String, String)> = Vec::new();
        let mut i: usize = 0;
        while i < self.entries.len()
            invariant
                i <= self.entries@.len(),
                out@.len() == i,
                forall|j: int|
                    0 <= j < i ==> (#[trigger] out@[j]).0@ == self.entries@[j].0@ && out@[j].1@
                        == self.entries@[j].1@,
            decreases self.entries.len() - i,
        {
            out.push((self.entries[i].0.clone(), self.entries[i].1.clone()));
            i = i + 1;
        }
        TraceState { entries: out }
    }

    /// The `tracestate` header value.
    pub fn to_text(&self) -> (r: String)
        ensures
            r@ == tracestate_spec(self.entries@),
    {
        let mut parts: Vec<String> = Vec::new();
        let mut i: usize = 0;
        while i < self.entries.len()
            invariant
                i <= self.entries@.len(),
                parts@.len() == i,
                forall|j: int|
                    0 <= j < i ==> (#[trigger] parts@[j])@ == self.entries@[j].0@ + "="@
                        + self.entries@[j].1@,
            decreases self.entries.len() - i,
        {
            let mut p = String::new();
            p.append(self.entries[i].0.as_str());
            p.append("=");
            p.append(self.entries[i].1.as_str());
            parts.push(p);
            i = i + 1;
        }
        assert(views(parts@) =~= self.entries@.map_values(
            |e: (String, String)| e.0@ + "="@ + e.1@,
        ));
        join_strings(&parts, ",")
    }
}

/// The identifiers and flags of one span in a trace.
pub struct TraceContext {
    span_id: u64,
    version: u8,
    trace_id: u128,
    parent_id: Option<u64>,
    trace_flags: u8,
    trace_state: TraceState,
}

/// The `traceparent` text: version, trace id, span id and flags in
/// hexadecimal, joined by `-`.
pub open spec fn traceparent_spec(version: u8, trace_id: u128, span_id: u64, flags: u8) -> Seq<char> {
    hex_fixed(version as nat, 2) + "-"@ + hex_fixed(trace_id as nat, 32) + "-"@ + hex_fixed(
        span_id as nat,
        16,
    ) + "-"@ + hex_fixed(flags as nat, 2)
}

impl TraceContext {
    pub closed spec fn span_id_view(&self) -> u64 {
        self.span_id
    }

    pub closed spec fn version_view(&self) -> u8 {
        self.version
    }

    pub closed spec fn trace_id_view(&self) -> u128 {
        self.trace_id
    }

    pub closed spec fn parent_id_view(&self) -> Option<u64> {
        self.parent_id
    }

    pub closed spec fn trace_flags_view(&self) -> u8 {
        self.trace_flags
    }

    pub closed spec fn trace_state_view(&self) -> Seq<(String, String)> {
        self.trace_state.entries@
    }

    /// A new trace without parent, with a random span id and trace id, both
    /// flags set and an empty trace state.
    pub fn new() -> (r: TraceContext)
        ensures
            r.version_view() == 0,
            r.parent_id_view() is None,
            r.trace_flags_view() == 3,
            r.trace_state_view().len() == 0,
    {
        assert(FLAG_SAMPLED | FLAG_RANDOM_TRACE_ID == 3u8) by (bit_vector);
        TraceContext {
            span_id: random_u64(),
            version: 0,
            trace_id: random_u128(),
            parent_id: None,
            trace_flags: FLAG_SAMPLED | FLAG_RANDOM_TRACE_ID,
            trace_state: TraceState::new(),
        }
    }

    /// A new trace with the given trace id.
    pub fn with_trace_id(trace_id: u128) -> (r: TraceContext)
        ensures
            r.trace_id_view() == trace_id,
            r.version_view() == 0,
            r.parent_id_view() is None,
            r.trace_flags_view() == 3,
            r.trace_state_view().len() == 0,
    {
        assert(FLAG_SAMPLED | FLAG_RANDOM_TRACE_ID == 3u8) by (bit_vector);
        TraceContext {
            span_id: random_u64(),
            version: 0,
            trace_id,
            parent_id: None,
            trace_flags: FLAG_SAMPLED | FLAG_RANDOM_TRACE_ID,
            trace_state: TraceState::new(),
        }
    }

    /// A child span in the same trace: its parent is this span.
    pub fn child(&self) -> (r: TraceContext)
        ensures
            r.version_view() == self.version_view(),
            r.trace_id_view() == self.trace_id_view(),
            r.parent_id_view() == Some(self.span_id_view()),
            r.trace_flags_view() == self.trace_flags_view(),
            r.trace_state_view().len() == self.trace_state_view().len(),
            forall|i: int|
                0 <= i < self.trace_state_view().len() ==> (#[trigger] r.trace_state_view()[i]).0@
                    == self.trace_state_view()[i].0@ && r.trace_state_view()[i].1@
                    == self.trace_state_view()[i].1@,
    {
        TraceContext {
            span_id: random_u64(),
            version: self.version,
            trace_id: self.trace_id,
            parent_id: Some(self.span_id),
            trace_flags: self.trace_flags,
            trace_state: self.trace_state.copy(),
        }
    }

    /// Reads a `traceparent` header value: four hexadecimal fields joined by
    /// `-`, each within the range of its type. The new span gets `span_id`.
    pub fn from_traceparent_with(traceparent: &str, span_id: u64) -> (r: Option<TraceContext>)
        ensures
            ({
                let parts = split_seq(traceparent@, '-');
                let ok = parts.len() == 4 && parse_hex_spec(parts[0], 0xff) is Some && parse_hex_spec(
                    parts[1],
                    u128::MAX as nat,
                ) is Some && parse_hex_spec(parts[2], u64::MAX as nat) is Some && parse_hex_spec(
                    parts[3],
                    0xff,
                ) is Some;
                &&& r is Some <==> ok
                &&& r matches Some(c) ==> {
                    &&& c.span_id_view() == span_id
                    &&& c.version_view() as nat == parse_hex_spec(parts[0], 0xff)->0
                    &&& c.trace_id_view() as nat == parse_hex_spec(parts[1], u128::MAX as nat)->0
                    &&& c.parent_id_view() matches Some(p) && p as nat == parse_hex_spec(
                        parts[2],
                        u64::MAX as nat,
                    )->0
                    &&& c.trace_flags_view() as nat == parse_hex_spec(parts[3], 0xff)->0
                    &&& c.trace_state_view().len() == 0
                }
            }),
    {
        let parts = split_char(traceparent, '-');
        if parts.len() != 4 {
            return None;
        }
        assert(views(parts@)[0] == parts@[0]@ && views(parts@)[1] == parts@[1]@);
        assert(views(parts@)[2] == parts@[2]@ && views(parts@)[3] == parts@[3]@);
        let version = match parse_hex(parts[0].as_str(), 0xff) {
            Some(v) => v as u8,
            None => return None,
        };
        let trace_id = match parse_hex(parts[1].as_str(), u128::MAX) {
            Some(v) => v,
            None => return None,
        };
        let parent_id = match parse_hex(parts[2].as_str(), u64::MAX as u128) {
            Some(v) => v as u64,
            None => return None,
        };
        let trace_flags = match parse_hex(parts[3].as_str(), 0xff) {
            Some(v) => v as u8,
            None => return None,
        };
        Some(
            TraceContext {
                span_id,
                version,
                trace_id,
                parent_id: Some(parent_id),
                trace_flags,
                trace_state: TraceState::new(),
            },
        )
    }

    /// Reads a `traceparent` header value for a new span with a random id.
    pub fn from_traceparent(traceparent: &str) -> (r: Option<TraceContext>)
        ensures
            ({
                let parts = split_seq(traceparent@, '-');
                let ok = parts.len() == 4 && parse_hex_spec(parts[0], 0xff) is Some && parse_hex_spec(
                    parts[1],
                    u128::MAX as nat,
                ) is Some && parse_hex_spec(parts[2], u64::MAX as nat) is Some && parse_hex_spec(
                    parts[3],
                    0xff,
                ) is Some;
                &&& r is Some <==> ok
                &&& r matches Some(c) ==> {
                    &&& c.version_view() as nat == parse_hex_spec(parts[0], 0xff)->0
                    &&& c.trace_id_view() as nat == parse_hex_spec(parts[1], u128::MAX as nat)->0
                    &&& c.parent_id_view() matches Some(p) && p as nat == parse_hex_spec(
                        parts[2],
                        u64::MAX as nat,
                    )->0
                    &&& c.trace_flags_view() as nat == parse_hex_spec(parts[3], 0xff)->0
                    &&& c.trace_state_view().len() == 0
                }
            }),
    {
        Self::from_traceparent_with(traceparent, random_u64())
    }

    /// The span id.
    pub fn span_id(&self) -> (r: u64)
        ensures
            r == self.span_id_view(),
    {
        self.span_id
    }

    /// The version of the `traceparent` format.
    pub fn version(&self) -> (r: u8)
        ensures
            r == self.version_view(),
    {
        self.version
    }

    /// The trace id.
    pub fn trace_id(&self) -> (r: u128)
        ensures
            r == self.trace_id_view(),
    {
        self.trace_id
    }

    /// The id of the parent span known to the caller.
    pub fn parent_id(&self) -> (r: Option<u64>)
        ensures
            r == self.parent_id_view(),
    {
        self.parent_id
    }

    /// The trace flags.
    pub fn trace_flags(&self) -> (r: u8)
        ensures
            r == self.trace_flags_view(),
    {
        self.trace_flags
    }

    /// Whether the `sampled` flag is set.
    pub fn sampled(&self) -> (r: bool)
        ensures
            r == (self.trace_flags_view() & FLAG_SAMPLED == FLAG_SAMPLED),
    {
        (self.trace_flags & FLAG_SAMPLED) == FLAG_SAMPLED
    }

    /// Whether the `random-trace-id` flag is set.
    pub fn random_trace_id(&self) -> (r: bool)
        ensures
            r == (self.trace_flags_view() & FLAG_RANDOM_TRACE_ID == FLAG_RANDOM_TRACE_ID),
    {
        (self.trace_flags & FLAG_RANDOM_TRACE_ID) == FLAG_RANDOM_TRACE_ID
    }

    /// Sets or clears the `sampled` flag, keeping the other flags.
    pub fn set_sampled(&mut self, sampled: bool)
        ensures
            final(self).trace_flags_view() == (old(self).trace_flags_view() & !FLAG_SAMPLED) | (if sampled {
                FLAG_SAMPLED
            } else {
                0u8
            }),
            final(self).span_id_view() == old(self).span_id_view(),
            final(self).trace_id_view() == old(self).trace_id_view(),
            final(self).parent_id_view() == old(self).parent_id_view(),
            final(self).version_view() == old(self).version_view(),
            final(self).trace_state_view() == old(self).trace_state_view(),
    {
        let f = self.trace_flags;
        let b: u8 = if sampled { 1 } else { 0 };
        let n = f ^ ((b ^ f) & FLAG_SAMPLED);
        assert(n == (f & !1u8) | b) by (bit_vector)
            requires
                n == f ^ ((b ^ f) & 1u8),
                b == 0 || b == 1,
        ;
        self.trace_flags = n;
    }

    /// Sets or clears the `random-trace-id` flag, keeping the other flags.
    pub fn set_random_trace_id(&mut self, random: bool)
        ensures
            final(self).trace_flags_view() == (old(self).trace_flags_view() & !FLAG_RANDOM_TRACE_ID) | (
            if random {
                FLAG_RANDOM_TRACE_ID
            } else {
                0u8
            }),
            final(self).span_id_view() == old(self).span_id_view(),
            final(self).trace_id_view() == old(self).trace_id_view(),
            final(self).parent_id_view() == old(self).parent_id_view(),
            final(self).version_view() == old(self).version_view(),
            final(self).trace_state_view() == old(self).trace_state_view(),
    {
        let f = self.trace_flags;
        let b: u8 = if random { 2 } else { 0 };
        let n = f ^ ((b ^ f) & FLAG_RANDOM_TRACE_ID);
        assert(n == (f & !2u8) | b) by (bit_vector)
            requires
                n == f ^ ((b ^ f) & 2u8),
                b == 0 || b == 2,
        ;
        self.trace_flags = n;
    }

    /// The trace state, to be changed in place.
    pub fn trace_state_mut(&mut self) -> (r: &mut TraceState)
        ensures
            r.entries@ == old(self).trace_state_view(),
    {
        &mut self.trace_state
    }

    /// The `traceparent` header value.
    pub fn traceparent(&self) -> (r: String)
        ensures
            r@ == traceparent_spec(self.version_view(), self.trace_id_view(), self.span_id_view(), self.trace_flags_view()),
    {
        let mut out = hex_text(self.version as u128, 2);
        out.append("-");
        out.append(hex_text(self.trace_id, 32).as_str());
        out.append("-");
        out.append(hex_text(self.span_id as u128, 16).as_str());
        out.append("-");
        out.append(hex_text(self.trace_flags as u128, 2).as_str());
        out
    }

    /// The `tracestate` header value.
    pub fn tracestate(&self) -> (r: String)
        ensures
            r@ == tracestate_spec(self.trace_state_view()),
    {
        self.trace_state.to_text()
    }
}

} // verus!
