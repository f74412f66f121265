//! The slash-delimited numeric sub-fields of a log line: timers, connection
//! counters and queue stats.  Each decoder checks the segment count, parses
//! every segment as a non-negative 64-bit integer, and keeps the matched
//! substring verbatim in `raw`.

use vstd::prelude::*;
use crate::DecodeError;
use crate::digits::{all_digits, digits_value, parse_u64, seg_ok};
use crate::split::{split_slash, split_slash_exec};

verus! {

/// `s` splits on `/` into exactly `arity` segments, each a non-empty digit
/// string whose value fits in a `u64`.
pub open spec fn segs_ok(s: Seq<char>, arity: int) -> bool {
    &&& split_slash(s).len() == arity
    &&& forall|k: int| 0 <= k < arity ==> seg_ok(#[trigger] split_slash(s)[k])
}

/// Value of the `k`-th slash-separated segment of `s`.
pub open spec fn seg_val(s: Seq<char>, k: int) -> u64 {
    digits_value(split_slash(s)[k]) as u64
}

/// Parses `s` as `arity` slash-joined `u64` values.
fn parse_segments(s: &str, arity: usize) -> (r: Result<Vec<u64>, DecodeError>)
    ensures
        r is Ok <==> segs_ok(s@, arity as int),
        r is Ok ==> r->Ok_0@.len() == arity && forall|k: int|
            0 <= k < arity ==> r->Ok_0@[k] == seg_val(s@, k),
        r is Err ==> (r->Err_0 == DecodeError::SubfieldArity <==> split_slash(s@).len()
            != arity as int),
        r is Err ==> (r->Err_0 == DecodeError::SubfieldArity
            || r->Err_0 == DecodeError::SubfieldInteger),
{
    let parts = split_slash_exec(s);
    if parts.len() != arity {
        return Err(DecodeError::SubfieldArity);
    }
    let mut vals: Vec<u64> = Vec::new();
    let mut k: usize = 0;
    while k < arity
        invariant
            0 <= k <= arity,
            parts@.len() == arity,
            parts@.map_values(|p: String| p@) == split_slash(s@),
            vals@.len() == k,
            forall|j: int| 0 <= j < k ==> seg_ok(#[trigger] split_slash(s@)[j]),
            forall|j: int| 0 <= j < k ==> vals@[j] == seg_val(s@, j),
        decreases arity - k,
    {
        proof {
            assert(split_slash(s@)[k as int] == parts@.map_values(|p: String| p@)[k as int]);
        }
        match parse_u64(parts[k].as_str()) {
            Some(v) => {
                vals.push(v);
            },
            None => {
                assert(!seg_ok(split_slash(s@)[k as int]));
                return Err(DecodeError::SubfieldInteger);
            },
        }
        k = k + 1;
    }
    Ok(vals)
}

/// The five timer fields of a log line, in milliseconds, with the matched
/// substring kept verbatim.
#[derive(Debug)]
pub struct HaproxyTimers {
    pub raw: String,
    pub client_request: u64,
    pub queue_wait: u64,
    pub establish: u64,
    pub server_response: u64,
    pub total: u64,
}

impl HaproxyTimers {
    /// `raw` is exactly the five field values joined by `/` (each segment a
    /// non-empty digit string), in field order.
    pub open spec fn wf(self) -> bool {
        &&& segs_ok(self.raw@, 5)
        &&& self.client_request == seg_val(self.raw@, 0)
        &&& self.queue_wait == seg_val(self.raw@, 1)
        &&& self.establish == seg_val(self.raw@, 2)
        &&& self.server_response == seg_val(self.raw@, 3)
        &&& self.total == seg_val(self.raw@, 4)
    }

    /// Decodes a `client_request/queue_wait/establish/server_response/total`
    /// string.  Fails on any segment count other than five, and on any
    /// segment that is not a non-negative 64-bit integer.
    pub fn parse(s: &str) -> (r: Result<HaproxyTimers, DecodeError>)
        ensures
            r is Ok <==> segs_ok(s@, 5),
            r is Ok ==> r->Ok_0.wf() && r->Ok_0.raw@ == s@,
            r is Err ==> (r->Err_0 == DecodeError::SubfieldArity <==> split_slash(s@).len()
                != 5),
            r is Err ==> (r->Err_0 == DecodeError::SubfieldArity
                || r->Err_0 == DecodeError::SubfieldInteger),
    {
        let vals = match parse_segments(s, 5) {
            Ok(v) => v,
            Err(e) => {
                return Err(e);
            },
        };
        Ok(HaproxyTimers {
            raw: s.to_owned(),
            client_request: vals[0],
            queue_wait: vals[1],
            establish: vals[2],
            server_response: vals[3],
            total: vals[4],
        })
    }

    /// The `/`-joined rendering of the five timers: exactly the decoded
    /// substring.
    pub fn render(&self) -> (r: String)
        ensures
            r@ == self.raw@,
    {
        self.raw.clone()
    }
}

/// The five connection counters of a log line, with the matched substring
/// kept verbatim.
#[derive(Debug)]
pub struct HaproxyConnectionCounts {
    pub raw: String,
    pub current: u64,
    pub limit: u64,
    pub max: u64,
    pub total: u64,
    pub rejected: u64,
}

impl HaproxyConnectionCounts {
    /// `raw` is exactly the five field values joined by `/`, in field order.
    pub open spec fn wf(self) -> bool {
        &&& segs_ok(self.raw@, 5)
        &&& self.current == seg_val(self.raw@, 0)
        &&& self.limit == seg_val(self.raw@, 1)
        &&& self.max == seg_val(self.raw@, 2)
        &&& self.total == seg_val(self.raw@, 3)
        &&& self.rejected == seg_val(self.raw@, 4)
    }

    /// Decodes a `current/limit/max/total/rejected` string, under the same
    /// rules as [`HaproxyTimers::parse`].
    pub fn parse(s: &str) -> (r: Result<HaproxyConnectionCounts, DecodeError>)
        ensures
            r is Ok <==> segs_ok(s@, 5),
            r is Ok ==> r->Ok_0.wf() && r->Ok_0.raw@ == s@,
            r is Err ==> (r->Err_0 == DecodeError::SubfieldArity <==> split_slash(s@).len()
                != 5),
            r is Err ==> (r->Err_0 == DecodeError::SubfieldArity
                || r->Err_0 == DecodeError::SubfieldInteger),
    {
        let vals = match parse_segments(s, 5) {
            Ok(v) => v,
            Err(e) => {
                return Err(e);
            },
        };
        Ok(HaproxyConnectionCounts {
            raw: s.to_owned(),
            current: vals[0],
            limit: vals[1],
            max: vals[2],
            total: vals[3],
            rejected: vals[4],
        })
    }

    /// The `/`-joined rendering of the five counters: exactly the decoded
    /// substring.
    pub fn render(&self) -> (r: String)
        ensures
            r@ == self.raw@,
    {
        self.raw.clone()
    }
}

/// The two queue positions of a log line, with the matched substring kept
/// verbatim.
#[derive(Debug)]
pub struct HaproxyQueueStats {
    pub raw: String,
    pub server: u64,
    pub backend: u64,
}

impl HaproxyQueueStats {
    /// `raw` is exactly the two field values joined by `/`, in field order.
    pub open spec fn wf(self) -> bool {
        &&& segs_ok(self.raw@, 2)
        &&& self.server == seg_val(self.raw@, 0)
        &&& self.backend == seg_val(self.raw@, 1)
    }

    /// Decodes a `server/backend` string.  Fails on any segment count other
    /// than two, and on any segment that is not a non-negative 64-bit
    /// integer.
    pub fn parse(s: &str) -> (r: Result<HaproxyQueueStats, DecodeError>)
        ensures
            r is Ok <==> segs_ok(s@, 2),
            r is Ok ==> r->Ok_0.wf() && r->Ok_0.raw@ == s@,
            r is Err ==> (r->Err_0 == DecodeError::SubfieldArity <==> split_slash(s@).len()
                != 2),
            r is Err ==> (r->Err_0 == DecodeError::SubfieldArity
                || r->Err_0 == DecodeError::SubfieldInteger),
    {
        let vals = match parse_segments(s, 2) {
            Ok(v) => v,
            Err(e) => {
                return Err(e);
            },
        };
        Ok(HaproxyQueueStats { raw: s.to_owned(), server: vals[0], backend: vals[1] })
    }

    /// The `/`-joined rendering of the two positions: exactly the decoded
    /// substring.
    pub fn render(&self) -> (r: String)
        ensures
            r@ == self.raw@,
    {
        self.raw.clone()
    }
}

} // verus!
