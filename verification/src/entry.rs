//! The assembled log entry: one grammar match feeding the sub-field and
//! termination decoders, fail-fast, yielding one immutable record.

use vstd::prelude::*;
use crate::DecodeError;
use crate::digits::{all_digits, digits_value, parse_u16};
use crate::grammar::{spec_tokenize, tokenize, tokens_wf, Tokens};
use crate::paint::{paint_blue, paint_green, paint_purple, paint_red, paint_white, paint_yellow};
use crate::subfields::{segs_ok, HaproxyConnectionCounts, HaproxyQueueStats, HaproxyTimers};
use crate::termination::HaproxyTerminationState;

verus! {

/// The response code as an unsigned 16-bit integer, when it is one.
pub open spec fn spec_response_u16(s: Seq<char>) -> Option<u16> {
    if s.len() > 0 && all_digits(s) && digits_value(s) <= u16::MAX {
        Some(digits_value(s) as u16)
    } else {
        None
    }
}

/// One fully decoded log line.  Pass-through fields hold the matched
/// substrings verbatim; the nested records hold the decoded sub-fields.
#[derive(Debug)]
pub struct HaproxyLogEntry {
    pub month: String,
    pub day: String,
    pub time: String,
    pub host: String,
    pub process_id: String,
    pub source_ip_port: String,
    pub time_stamp_accepted: String,
    pub frontend_name: String,
    pub backend_name: String,
    pub server_name: String,
    pub timers: HaproxyTimers,
    pub response_code: String,
    pub bytes_read: String,
    pub termination_state: HaproxyTerminationState,
    pub conn_counts: HaproxyConnectionCounts,
    pub queue: HaproxyQueueStats,
    pub request: String,
}

/// The token substrings that an entry's fields came from.
pub open spec fn tokens_of(e: HaproxyLogEntry) -> Tokens {
    Tokens {
        month: e.month@,
        day: e.day@,
        time: e.time@,
        host: e.host@,
        process_id: e.process_id@,
        source_ip_port: e.source_ip_port@,
        time_stamp_accepted: e.time_stamp_accepted@,
        frontend_name: e.frontend_name@,
        backend_name: e.backend_name@,
        server_name: e.server_name@,
        queues_stats: e.timers.raw@,
        response_code: e.response_code@,
        bytes_read: e.bytes_read@,
        termination_state: e.termination_state.raw@,
        conn_counts: e.conn_counts.raw@,
        queue: e.queue.raw@,
        request: e.request@,
    }
}

/// A line decodes completely: it matches the grammar, and each segment of its
/// three slash-joined numeric tokens fits in a `u64`.
pub open spec fn spec_decode_ok(s: Seq<char>) -> bool {
    &&& spec_tokenize(s) is Some
    &&& segs_ok(spec_tokenize(s)->0.queues_stats, 5)
    &&& segs_ok(spec_tokenize(s)->0.conn_counts, 5)
    &&& segs_ok(spec_tokenize(s)->0.queue, 2)
}

/// The plain-text rendering: every field in declaration order, joined by
/// single spaces, each sub-structure rendered by its own raw substring.
pub open spec fn spec_colorless(e: HaproxyLogEntry) -> Seq<char> {
    e.month@ + " "@ + e.day@ + " "@ + e.time@ + " "@ + e.host@ + " "@ + e.process_id@ + " "@
        + e.source_ip_port@ + " "@ + e.time_stamp_accepted@ + " "@ + e.frontend_name@ + " "@
        + e.backend_name@ + " "@ + e.server_name@ + " "@ + e.timers.raw@ + " "@
        + e.response_code@ + " "@ + e.bytes_read@ + " "@ + e.termination_state.raw@ + " "@
        + e.conn_counts.raw@ + " "@ + e.queue.raw@ + " "@ + e.request@
}

/// An entry is an error when the response code is not a `u16`, is at least
/// 400, or the termination state is not the normal-completion code.
pub open spec fn spec_is_error(e: HaproxyLogEntry) -> bool {
    match spec_response_u16(e.response_code@) {
        Some(code) => code >= 400 || e.termination_state.spec_is_error(),
        None => true,
    }
}

impl HaproxyLogEntry {
    /// Every field has the token shape the grammar yields, and every nested
    /// record keeps its own raw/value invariant.
    pub open spec fn wf(self) -> bool {
        &&& tokens_wf(tokens_of(self))
        &&& self.timers.wf()
        &&& self.conn_counts.wf()
        &&& self.queue.wf()
        &&& self.termination_state.wf()
    }

    /// Decodes one line.  Succeeds if and only if the line matches the
    /// grammar and every numeric segment fits in 64 bits; on success every
    /// field holds exactly the matched substring, decoded.  No partial
    /// record is ever returned.
    pub fn parse(s: &str) -> (r: Result<HaproxyLogEntry, DecodeError>)
        ensures
            r is Ok <==> spec_decode_ok(s@),
            r is Ok ==> tokens_of(r->Ok_0) == spec_tokenize(s@)->0 && r->Ok_0.wf(),
            r is Err ==> (r->Err_0 == DecodeError::GrammarMismatch <==> spec_tokenize(s@)
                is None),
            r is Err ==> r->Err_0 == DecodeError::GrammarMismatch || r->Err_0
                == DecodeError::SubfieldInteger,
    {
        let toks = match tokenize(s) {
            Some(t) => t,
            None => {
                return Err(DecodeError::GrammarMismatch);
            },
        };
        proof {
            crate::grammar::lemma_tokenize_groups(s@);
            crate::grammar::lemma_tokenize_shapes(s@);
        }
        let timers = match HaproxyTimers::parse(toks.queues_stats.as_str()) {
            Ok(t) => t,
            Err(e) => {
                return Err(e);
            },
        };
        let conn_counts = match HaproxyConnectionCounts::parse(toks.conn_counts.as_str()) {
            Ok(c) => c,
            Err(e) => {
                return Err(e);
            },
        };
        let queue = match HaproxyQueueStats::parse(toks.queue.as_str()) {
            Ok(q) => q,
            Err(e) => {
                return Err(e);
            },
        };
        let termination_state = match HaproxyTerminationState::parse(
            toks.termination_state.as_str(),
        ) {
            Ok(t) => t,
            Err(e) => {
                return Err(e);
            },
        };
        Ok(HaproxyLogEntry {
            month: toks.month,
            day: toks.day,
            time: toks.time,
            host: toks.host,
            process_id: toks.process_id,
            source_ip_port: toks.source_ip_port,
            time_stamp_accepted: toks.time_stamp_accepted,
            frontend_name: toks.frontend_name,
            backend_name: toks.backend_name,
            server_name: toks.server_name,
            timers,
            response_code: toks.response_code,
            bytes_read: toks.bytes_read,
            termination_state,
            conn_counts,
            queue,
            request: toks.request,
        })
    }

    /// The deterministic plain rendering: all seventeen fields in order,
    /// space-joined, each raw substring reproduced byte for byte.
    pub fn colorless(&self) -> (r: String)
        ensures
            r@ == spec_colorless(*self),
    {
        let mut out = String::new();
        out.append(self.month.as_str());
        out.append(" ");
        out.append(self.day.as_str());
        out.append(" ");
        out.append(self.time.as_str());
        out.append(" ");
        out.append(self.host.as_str());
        out.append(" ");
        out.append(self.process_id.as_str());
        out.append(" ");
        out.append(self.source_ip_port.as_str());
        out.append(" ");
        out.append(self.time_stamp_accepted.as_str());
        out.append(" ");
        out.append(self.frontend_name.as_str());
        out.append(" ");
        out.append(self.backend_name.as_str());
        out.append(" ");
        out.append(self.server_name.as_str());
        out.append(" ");
        out.append(self.timers.raw.as_str());
        out.append(" ");
        out.append(self.response_code.as_str());
        out.append(" ");
        out.append(self.bytes_read.as_str());
        out.append(" ");
        out.append(self.termination_state.raw.as_str());
        out.append(" ");
        out.append(self.conn_counts.raw.as_str());
        out.append(" ");
        out.append(self.queue.raw.as_str());
        out.append(" ");
        out.append(self.request.as_str());
        proof {
            assert(out@ =~= spec_colorless(*self));
        }
        out
    }

    /// The same seventeen fields, each painted for a terminal: names by
    /// their role, the response code by its class (success green, redirect
    /// yellow, error red, anything else white), the termination state green
    /// on normal completion and red otherwise.  Coloring is presentation
    /// only; whether escape codes appear depends on the terminal.
    pub fn colorize(&self) -> String {
        let mut out = String::new();
        out.append(paint_white(self.month.as_str()).as_str());
        out.append(" ");
        out.append(paint_white(self.day.as_str()).as_str());
        out.append(" ");
        out.append(paint_white(self.time.as_str()).as_str());
        out.append(" ");
        out.append(paint_white(self.host.as_str()).as_str());
        out.append(" ");
        out.append(paint_white(self.process_id.as_str()).as_str());
        out.append(" ");
        out.append(paint_white(self.source_ip_port.as_str()).as_str());
        out.append(" ");
        out.append(paint_white(self.time_stamp_accepted.as_str()).as_str());
        out.append(" ");
        out.append(paint_purple(self.frontend_name.as_str()).as_str());
        out.append(" ");
        out.append(paint_yellow(self.backend_name.as_str()).as_str());
        out.append(" ");
        out.append(paint_blue(self.server_name.as_str()).as_str());
        out.append(" ");
        out.append(paint_white(self.timers.raw.as_str()).as_str());
        out.append(" ");
        let code_painted = match parse_u16(self.response_code.as_str()) {
            Some(code) => {
                if 200 <= code && code < 300 {
                    paint_green(self.response_code.as_str())
                } else if 300 <= code && code < 400 {
                    paint_yellow(self.response_code.as_str())
                } else if code >= 400 {
                    paint_red(self.response_code.as_str())
                } else {
                    paint_white(self.response_code.as_str())
                }
            },
            None => paint_white(self.response_code.as_str()),
        };
        out.append(code_painted.as_str());
        out.append(" ");
        out.append(paint_white(self.bytes_read.as_str()).as_str());
        out.append(" ");
        let term_painted = if self.termination_state.is_error() {
            paint_red(self.termination_state.raw.as_str())
        } else {
            paint_green(self.termination_state.raw.as_str())
        };
        out.append(term_painted.as_str());
        out.append(" ");
        out.append(paint_white(self.conn_counts.raw.as_str()).as_str());
        out.append(" ");
        out.append(paint_white(self.queue.raw.as_str()).as_str());
        out.append(" ");
        out.append(paint_white(self.request.as_str()).as_str());
        out
    }

    /// True when the response code is not a `u16`, is 400 or more, or the
    /// termination state is not `----`.
    pub fn is_error(&self) -> (r: bool)
        ensures
            r == spec_is_error(*self),
            spec_response_u16(self.response_code@) matches Some(code) && code >= 400 ==> r,
            self.termination_state.wf() && self.termination_state.raw@ != "----"@ ==> r,
            (spec_response_u16(self.response_code@) matches Some(code) && code < 400
                && self.termination_state.wf() && self.termination_state.raw@ == "----"@) ==> !r,
    {
        match parse_u16(self.response_code.as_str()) {
            Some(code) => code >= 400 || self.termination_state.is_error(),
            None => true,
        }
    }
}

} // verus!
