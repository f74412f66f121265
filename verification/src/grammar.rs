//! The token grammar of one log line: a fixed left-to-right sequence of
//! seventeen named tokens, each a maximal run of one character class,
//! separated by runs of whitespace and a few literal delimiters.  A line
//! either yields all seventeen tokens or fails as a whole; no partial match
//! is observable.

use vstd::prelude::*;
use crate::chars::{scan_end, scan_from, kind_char, CharKind, lemma_scan_end};
use crate::digits::all_digits;
use crate::split::split_slash;

verus! {

/// Every character of `t` lies in class `k`.
pub open spec fn all_kind(t: Seq<char>, k: CharKind) -> bool {
    forall|j: int| 0 <= j < t.len() ==> kind_char(k, #[trigger] t[j])
}

/// `t` splits on `/` into exactly `arity` segments, each a non-empty digit
/// string.  (Range of the values is not the grammar's concern.)
pub open spec fn digit_groups(t: Seq<char>, arity: int) -> bool {
    &&& split_slash(t).len() == arity
    &&& forall|k: int| 0 <= k < arity ==> (#[trigger] split_slash(t)[k]).len() > 0 && all_digits(
        split_slash(t)[k],
    )
}

/// Shape of a process-id token: letters/digits, then `[`, digits, `]`.
pub open spec fn process_id_ok(t: Seq<char>) -> bool {
    let i = scan_end(t, 0, CharKind::Alnum);
    &&& i >= 1
    &&& i + 1 < t.len()
    &&& t[i] == '['
    &&& scan_end(t, i + 1, CharKind::Digit) == t.len() - 1
    &&& t.len() - 1 > i + 1
    &&& t[t.len() - 1] == ']'
}

/// Shape of a source-address token: digits/dots, then `:`, then digits.
pub open spec fn source_ip_port_ok(t: Seq<char>) -> bool {
    let i = scan_end(t, 0, CharKind::AddrChar);
    &&& i >= 1
    &&& i < t.len()
    &&& t[i] == ':'
    &&& scan_end(t, i + 1, CharKind::Digit) == t.len()
    &&& t.len() > i + 1
}

/// The seventeen token substrings of one matched line, in line order.
#[verifier::ext_equal]
pub struct Tokens {
    pub month: Seq<char>,
    pub day: Seq<char>,
    pub time: Seq<char>,
    pub host: Seq<char>,
    pub process_id: Seq<char>,
    pub source_ip_port: Seq<char>,
    pub time_stamp_accepted: Seq<char>,
    pub frontend_name: Seq<char>,
    pub backend_name: Seq<char>,
    pub server_name: Seq<char>,
    pub queues_stats: Seq<char>,
    pub response_code: Seq<char>,
    pub bytes_read: Seq<char>,
    pub termination_state: Seq<char>,
    pub conn_counts: Seq<char>,
    pub queue: Seq<char>,
    pub request: Seq<char>,
}

/// The shapes that the grammar guarantees of each token it yields.
pub open spec fn tokens_wf(t: Tokens) -> bool {
    &&& t.month.len() == 3 && all_kind(t.month, CharKind::Alpha)
    &&& 1 <= t.day.len() <= 2 && all_kind(t.day, CharKind::Digit)
    &&& t.time.len() == 8 && all_kind(t.time, CharKind::TimeChar)
    &&& t.host.len() >= 1 && all_kind(t.host, CharKind::Word)
    &&& process_id_ok(t.process_id)
    &&& source_ip_port_ok(t.source_ip_port)
    &&& t.time_stamp_accepted.len() >= 1 && all_kind(t.time_stamp_accepted, CharKind::NotRBracket)
    &&& t.frontend_name.len() >= 1 && all_kind(t.frontend_name, CharKind::Word)
    &&& t.backend_name.len() >= 1 && all_kind(t.backend_name, CharKind::WordDash)
    &&& t.server_name.len() >= 1 && all_kind(t.server_name, CharKind::WordDash)
    &&& digit_groups(t.queues_stats, 5)
    &&& t.response_code.len() >= 1 && all_kind(t.response_code, CharKind::Digit)
    &&& t.bytes_read.len() >= 1 && all_kind(t.bytes_read, CharKind::Digit)
    &&& t.termination_state.len() == 4 && all_kind(t.termination_state, CharKind::WordDash)
    &&& digit_groups(t.conn_counts, 5)
    &&& digit_groups(t.queue, 2)
}

/// The grammar itself: where each token of a line starts and ends, and when
/// the line matches.  Tokens are maximal class runs; fields are separated by
/// one-or-more spaces/tabs; the literal delimiters are the `[`/`]` around the
/// accept timestamp, the `:` after the process id, the `/` between backend
/// and server, the two lone `-` placeholders, and the quotes around the
/// request, whose closing quote ends the line.
pub open spec fn spec_tokenize(s: Seq<char>) -> Option<Tokens> {
    let n = s.len() as int;
    let m_end = scan_end(s, 0, CharKind::Alpha);
    let w1 = scan_end(s, m_end, CharKind::Space);
    let d_end = scan_end(s, w1, CharKind::Digit);
    let w2 = scan_end(s, d_end, CharKind::Space);
    let t_end = scan_end(s, w2, CharKind::TimeChar);
    let w3 = scan_end(s, t_end, CharKind::Space);
    let h_end = scan_end(s, w3, CharKind::Word);
    let w4 = scan_end(s, h_end, CharKind::Space);
    let p1 = scan_end(s, w4, CharKind::Alnum);
    let p2 = scan_end(s, p1 + 1, CharKind::Digit);
    let w5 = scan_end(s, p2 + 2, CharKind::Space);
    let a1 = scan_end(s, w5, CharKind::AddrChar);
    let a2 = scan_end(s, a1 + 1, CharKind::Digit);
    let w6 = scan_end(s, a2, CharKind::Space);
    let b1 = scan_end(s, w6 + 1, CharKind::NotRBracket);
    let w7 = scan_end(s, b1 + 1, CharKind::Space);
    let f_end = scan_end(s, w7, CharKind::Word);
    let w8 = scan_end(s, f_end, CharKind::Space);
    let be_end = scan_end(s, w8, CharKind::WordDash);
    let sv_end = scan_end(s, be_end + 1, CharKind::WordDash);
    let w9 = scan_end(s, sv_end, CharKind::Space);
    let q_end = scan_end(s, w9, CharKind::DigitSlash);
    let w10 = scan_end(s, q_end, CharKind::Space);
    let rc_end = scan_end(s, w10, CharKind::Digit);
    let w11 = scan_end(s, rc_end, CharKind::Space);
    let br_end = scan_end(s, w11, CharKind::Digit);
    let w12 = scan_end(s, br_end, CharKind::Space);
    let w13 = scan_end(s, w12 + 1, CharKind::Space);
    let w14 = scan_end(s, w13 + 1, CharKind::Space);
    let ts_end = scan_end(s, w14, CharKind::WordDash);
    let w15 = scan_end(s, ts_end, CharKind::Space);
    let c_end = scan_end(s, w15, CharKind::DigitSlash);
    let w16 = scan_end(s, c_end, CharKind::Space);
    let qu_end = scan_end(s, w16, CharKind::DigitSlash);
    let w17 = scan_end(s, qu_end, CharKind::Space);
    if ({
        &&& m_end == 3
        &&& w1 > m_end
        &&& w1 + 1 <= d_end <= w1 + 2
        &&& w2 > d_end
        &&& t_end == w2 + 8
        &&& w3 > t_end
        &&& h_end > w3
        &&& w4 > h_end
        &&& p1 > w4
        &&& p1 < n
        &&& s[p1] == '['
        &&& p2 > p1 + 1
        &&& p2 < n
        &&& s[p2] == ']'
        &&& p2 + 1 < n
        &&& s[p2 + 1] == ':'
        &&& w5 > p2 + 2
        &&& a1 > w5
        &&& a1 < n
        &&& s[a1] == ':'
        &&& a2 > a1 + 1
        &&& w6 > a2
        &&& w6 < n
        &&& s[w6] == '['
        &&& b1 > w6 + 1
        &&& b1 < n
        &&& w7 > b1 + 1
        &&& f_end > w7
        &&& w8 > f_end
        &&& be_end > w8
        &&& be_end < n
        &&& s[be_end] == '/'
        &&& sv_end > be_end + 1
        &&& w9 > sv_end
        &&& digit_groups(s.subrange(w9, q_end), 5)
        &&& w10 > q_end
        &&& rc_end > w10
        &&& w11 > rc_end
        &&& br_end > w11
        &&& w12 > br_end
        &&& w12 < n
        &&& s[w12] == '-'
        &&& w13 > w12 + 1
        &&& w13 < n
        &&& s[w13] == '-'
        &&& w14 > w13 + 1
        &&& ts_end == w14 + 4
        &&& w15 > ts_end
        &&& digit_groups(s.subrange(w15, c_end), 5)
        &&& w16 > c_end
        &&& digit_groups(s.subrange(w16, qu_end), 2)
        &&& w17 > qu_end
        &&& w17 < n - 1
        &&& s[w17] == '"'
        &&& s[n - 1] == '"'
    }) {
        Some(
            Tokens {
                month: s.subrange(0, m_end),
                day: s.subrange(w1, d_end),
                time: s.subrange(w2, t_end),
                host: s.subrange(w3, h_end),
                process_id: s.subrange(w4, p2 + 1),
                source_ip_port: s.subrange(w5, a2),
                time_stamp_accepted: s.subrange(w6 + 1, b1),
                frontend_name: s.subrange(w7, f_end),
                backend_name: s.subrange(w8, be_end),
                server_name: s.subrange(be_end + 1, sv_end),
                queues_stats: s.subrange(w9, q_end),
                response_code: s.subrange(w10, rc_end),
                bytes_read: s.subrange(w11, br_end),
                termination_state: s.subrange(w14, ts_end),
                conn_counts: s.subrange(w15, c_end),
                queue: s.subrange(w16, qu_end),
                request: s.subrange(w17 + 1, n - 1),
            },
        )
    } else {
        None
    }
}

/// The seventeen matched token substrings, owned.
pub struct RawTokens {
    pub month: String,
    pub day: String,
    pub time: String,
    pub host: String,
    pub process_id: String,
    pub source_ip_port: String,
    pub time_stamp_accepted: String,
    pub frontend_name: String,
    pub backend_name: String,
    pub server_name: String,
    pub queues_stats: String,
    pub response_code: String,
    pub bytes_read: String,
    pub termination_state: String,
    pub conn_counts: String,
    pub queue: String,
    pub request: String,
}

impl View for RawTokens {
    type V = Tokens;

    open spec fn view(&self) -> Tokens {
        Tokens {
            month: self.month@,
            day: self.day@,
            time: self.time@,
            host: self.host@,
            process_id: self.process_id@,
            source_ip_port: self.source_ip_port@,
            time_stamp_accepted: self.time_stamp_accepted@,
            frontend_name: self.frontend_name@,
            backend_name: self.backend_name@,
            server_name: self.server_name@,
            queues_stats: self.queues_stats@,
            response_code: self.response_code@,
            bytes_read: self.bytes_read@,
            termination_state: self.termination_state@,
            conn_counts: self.conn_counts@,
            queue: self.queue@,
            request: self.request@,
        }
    }
}

/// `t` is a non-empty string of digits.
fn is_digit_str(t: &str) -> (b: bool)
    ensures
        b == (t@.len() > 0 && all_digits(t@)),
{
    let n = t.unicode_len();
    let e = scan_from(t, 0, CharKind::Digit);
    proof {
        lemma_scan_end(t@, 0, CharKind::Digit);
        if e as int == n as int && n > 0 {
            assert(all_digits(t@));
        }
        if t@.len() > 0 && all_digits(t@) {
            crate::chars::lemma_scan_end_unique(t@, 0, n as int, CharKind::Digit);
        }
    }
    n > 0 && e == n
}

/// `t` splits on `/` into exactly `arity` non-empty digit segments.
fn check_digit_groups(t: &str, arity: usize) -> (b: bool)
    ensures
        b == digit_groups(t@, arity as int),
{
    let parts = crate::split::split_slash_exec(t);
    if parts.len() != arity {
        return false;
    }
    let mut k: usize = 0;
    while k < arity
        invariant
            0 <= k <= arity,
            parts@.len() == arity,
            parts@.map_values(|p: String| p@) == split_slash(t@),
            forall|j: int| 0 <= j < k ==> (#[trigger] split_slash(t@)[j]).len() > 0 && all_digits(
                split_slash(t@)[j],
            ),
        decreases arity - k,
    {
        proof {
            assert(split_slash(t@)[k as int] == parts@.map_values(|p: String| p@)[k as int]);
        }
        if !is_digit_str(parts[k].as_str()) {
            return false;
        }
        k = k + 1;
    }
    true
}

/// Matches one line against the grammar.  Yields all seventeen tokens, or
/// nothing.
pub fn tokenize(s: &str) -> (r: Option<RawTokens>)
    ensures
        r is Some <==> spec_tokenize(s@) is Some,
        r is Some ==> r->0@ == spec_tokenize(s@)->0,
{
    let n = s.unicode_len();
    let m_end = scan_from(s, 0, CharKind::Alpha);
    if !(m_end == 3) {
        return None;
    }
    let w1 = scan_from(s, m_end, CharKind::Space);
    if !(w1 > m_end) {
        return None;
    }
    let d_end = scan_from(s, w1, CharKind::Digit);
    if !(d_end > w1 && d_end - w1 <= 2) {
        return None;
    }
    let w2 = scan_from(s, d_end, CharKind::Space);
    if !(w2 > d_end) {
        return None;
    }
    let t_end = scan_from(s, w2, CharKind::TimeChar);
    if !(t_end > w2 && t_end - w2 == 8) {
        return None;
    }
    let w3 = scan_from(s, t_end, CharKind::Space);
    if !(w3 > t_end) {
        return None;
    }
    let h_end = scan_from(s, w3, CharKind::Word);
    if !(h_end > w3) {
        return None;
    }
    let w4 = scan_from(s, h_end, CharKind::Space);
    if !(w4 > h_end) {
        return None;
    }
    let p1 = scan_from(s, w4, CharKind::Alnum);
    if !(p1 > w4 && p1 < n && s.get_char(p1) as u32 == 91) {
        return None;
    }
    let p2 = scan_from(s, p1 + 1, CharKind::Digit);
    if !(p2 > p1 + 1 && p2 < n && s.get_char(p2) as u32 == 93) {
        return None;
    }
    if !(p2 + 1 < n && s.get_char(p2 + 1) as u32 == 58) {
        return None;
    }
    let w5 = scan_from(s, p2 + 2, CharKind::Space);
    if !(w5 > p2 + 2) {
        return None;
    }
    let a1 = scan_from(s, w5, CharKind::AddrChar);
    if !(a1 > w5 && a1 < n && s.get_char(a1) as u32 == 58) {
        return None;
    }
    let a2 = scan_from(s, a1 + 1, CharKind::Digit);
    if !(a2 > a1 + 1) {
        return None;
    }
    let w6 = scan_from(s, a2, CharKind::Space);
    if !(w6 > a2 && w6 < n && s.get_char(w6) as u32 == 91) {
        return None;
    }
    let b1 = scan_from(s, w6 + 1, CharKind::NotRBracket);
    if !(b1 > w6 + 1 && b1 < n) {
        return None;
    }
    let w7 = scan_from(s, b1 + 1, CharKind::Space);
    if !(w7 > b1 + 1) {
        return None;
    }
    let f_end = scan_from(s, w7, CharKind::Word);
    if !(f_end > w7) {
        return None;
    }
    let w8 = scan_from(s, f_end, CharKind::Space);
    if !(w8 > f_end) {
        return None;
    }
    let be_end = scan_from(s, w8, CharKind::WordDash);
    if !(be_end > w8 && be_end < n && s.get_char(be_end) as u32 == 47) {
        return None;
    }
    let sv_end = scan_from(s, be_end + 1, CharKind::WordDash);
    if !(sv_end > be_end + 1) {
        return None;
    }
    let w9 = scan_from(s, sv_end, CharKind::Space);
    if !(w9 > sv_end) {
        return None;
    }
    let q_end = scan_from(s, w9, CharKind::DigitSlash);
    if !check_digit_groups(s.substring_char(w9, q_end), 5) {
        return None;
    }
    let w10 = scan_from(s, q_end, CharKind::Space);
    if !(w10 > q_end) {
        return None;
    }
    let rc_end = scan_from(s, w10, CharKind::Digit);
    if !(rc_end > w10) {
        return None;
    }
    let w11 = scan_from(s, rc_end, CharKind::Space);
    if !(w11 > rc_end) {
        return None;
    }
    let br_end = scan_from(s, w11, CharKind::Digit);
    if !(br_end > w11) {
        return None;
    }
    let w12 = scan_from(s, br_end, CharKind::Space);
    if !(w12 > br_end && w12 < n && s.get_char(w12) as u32 == 45) {
        return None;
    }
    let w13 = scan_from(s, w12 + 1, CharKind::Space);
    if !(w13 > w12 + 1 && w13 < n && s.get_char(w13) as u32 == 45) {
        return None;
    }
    let w14 = scan_from(s, w13 + 1, CharKind::Space);
    if !(w14 > w13 + 1) {
        return None;
    }
    let ts_end = scan_from(s, w14, CharKind::WordDash);
    if !(ts_end > w14 && ts_end - w14 == 4) {
        return None;
    }
    let w15 = scan_from(s, ts_end, CharKind::Space);
    if !(w15 > ts_end) {
        return None;
    }
    let c_end = scan_from(s, w15, CharKind::DigitSlash);
    if !check_digit_groups(s.substring_char(w15, c_end), 5) {
        return None;
    }
    let w16 = scan_from(s, c_end, CharKind::Space);
    if !(w16 > c_end) {
        return None;
    }
    let qu_end = scan_from(s, w16, CharKind::DigitSlash);
    if !check_digit_groups(s.substring_char(w16, qu_end), 2) {
        return None;
    }
    let w17 = scan_from(s, qu_end, CharKind::Space);
    if !(w17 > qu_end && w17 < n && w17 < n - 1 && s.get_char(w17) as u32 == 34) {
        return None;
    }
    if !(s.get_char(n - 1) as u32 == 34) {
        return None;
    }
    Some(RawTokens {
        month: s.substring_char(0, m_end).to_owned(),
        day: s.substring_char(w1, d_end).to_owned(),
        time: s.substring_char(w2, t_end).to_owned(),
        host: s.substring_char(w3, h_end).to_owned(),
        process_id: s.substring_char(w4, p2 + 1).to_owned(),
        source_ip_port: s.substring_char(w5, a2).to_owned(),
        time_stamp_accepted: s.substring_char(w6 + 1, b1).to_owned(),
        frontend_name: s.substring_char(w7, f_end).to_owned(),
        backend_name: s.substring_char(w8, be_end).to_owned(),
        server_name: s.substring_char(be_end + 1, sv_end).to_owned(),
        queues_stats: s.substring_char(w9, q_end).to_owned(),
        response_code: s.substring_char(w10, rc_end).to_owned(),
        bytes_read: s.substring_char(w11, br_end).to_owned(),
        termination_state: s.substring_char(w14, ts_end).to_owned(),
        conn_counts: s.substring_char(w15, c_end).to_owned(),
        queue: s.substring_char(w16, qu_end).to_owned(),
        request: s.substring_char(w17 + 1, n - 1).to_owned(),
    })
}

/// The three slash-joined tokens of a matched line have their segment shape,
/// and the termination token has exactly four characters.
pub proof fn lemma_tokenize_groups(s: Seq<char>)
    requires
        spec_tokenize(s) is Some,
    ensures
        digit_groups(spec_tokenize(s)->0.queues_stats, 5),
        digit_groups(spec_tokenize(s)->0.conn_counts, 5),
        digit_groups(spec_tokenize(s)->0.queue, 2),
        spec_tokenize(s)->0.termination_state.len() == 4,
{
}

/// Evaluates the grammar from the ends of its scans: when every scan of `s`
/// ends where stated and every side condition holds, `s` matches and its
/// tokens are the stated subranges.
#[verifier::rlimit(100)]
#[verifier::spinoff_prover]
pub proof fn lemma_tokenize_eval(
    s: Seq<char>,
    m_end: int,
    w1: int,
    d_end: int,
    w2: int,
    t_end: int,
    w3: int,
    h_end: int,
    w4: int,
    p1: int,
    p2: int,
    w5: int,
    a1: int,
    a2: int,
    w6: int,
    b1: int,
    w7: int,
    f_end: int,
    w8: int,
    be_end: int,
    sv_end: int,
    w9: int,
    q_end: int,
    w10: int,
    rc_end: int,
    w11: int,
    br_end: int,
    w12: int,
    w13: int,
    w14: int,
    ts_end: int,
    w15: int,
    c_end: int,
    w16: int,
    qu_end: int,
    w17: int,
)
    requires
        scan_end(s, 0, CharKind::Alpha) == m_end,
        scan_end(s, m_end, CharKind::Space) == w1,
        scan_end(s, w1, CharKind::Digit) == d_end,
        scan_end(s, d_end, CharKind::Space) == w2,
        scan_end(s, w2, CharKind::TimeChar) == t_end,
        scan_end(s, t_end, CharKind::Space) == w3,
        scan_end(s, w3, CharKind::Word) == h_end,
        scan_end(s, h_end, CharKind::Space) == w4,
        scan_end(s, w4, CharKind::Alnum) == p1,
        scan_end(s, p1 + 1, CharKind::Digit) == p2,
        scan_end(s, p2 + 2, CharKind::Space) == w5,
        scan_end(s, w5, CharKind::AddrChar) == a1,
        scan_end(s, a1 + 1, CharKind::Digit) == a2,
        scan_end(s, a2, CharKind::Space) == w6,
        scan_end(s, w6 + 1, CharKind::NotRBracket) == b1,
        scan_end(s, b1 + 1, CharKind::Space) == w7,
        scan_end(s, w7, CharKind::Word) == f_end,
        scan_end(s, f_end, CharKind::Space) == w8,
        scan_end(s, w8, CharKind::WordDash) == be_end,
        scan_end(s, be_end + 1, CharKind::WordDash) == sv_end,
        scan_end(s, sv_end, CharKind::Space) == w9,
        scan_end(s, w9, CharKind::DigitSlash) == q_end,
        scan_end(s, q_end, CharKind::Space) == w10,
        scan_end(s, w10, CharKind::Digit) == rc_end,
        scan_end(s, rc_end, CharKind::Space) == w11,
        scan_end(s, w11, CharKind::Digit) == br_end,
        scan_end(s, br_end, CharKind::Space) == w12,
        scan_end(s, w12 + 1, CharKind::Space) == w13,
        scan_end(s, w13 + 1, CharKind::Space) == w14,
        scan_end(s, w14, CharKind::WordDash) == ts_end,
        scan_end(s, ts_end, CharKind::Space) == w15,
        scan_end(s, w15, CharKind::DigitSlash) == c_end,
        scan_end(s, c_end, CharKind::Space) == w16,
        scan_end(s, w16, CharKind::DigitSlash) == qu_end,
        scan_end(s, qu_end, CharKind::Space) == w17,
        m_end == 3,
        w1 > m_end,
        w1 + 1 <= d_end <= w1 + 2,
        w2 > d_end,
        t_end == w2 + 8,
        w3 > t_end,
        h_end > w3,
        w4 > h_end,
        p1 > w4,
        p1 < s.len(),
        s[p1] == '[',
        p2 > p1 + 1,
        p2 < s.len(),
        s[p2] == ']',
        p2 + 1 < s.len(),
        s[p2 + 1] == ':',
        w5 > p2 + 2,
        a1 > w5,
        a1 < s.len(),
        s[a1] == ':',
        a2 > a1 + 1,
        w6 > a2,
        w6 < s.len(),
        s[w6] == '[',
        b1 > w6 + 1,
        b1 < s.len(),
        w7 > b1 + 1,
        f_end > w7,
        w8 > f_end,
        be_end > w8,
        be_end < s.len(),
        s[be_end] == '/',
        sv_end > be_end + 1,
        w9 > sv_end,
        digit_groups(s.subrange(w9, q_end), 5),
        w10 > q_end,
        rc_end > w10,
        w11 > rc_end,
        br_end > w11,
        w12 > br_end,
        w12 < s.len(),
        s[w12] == '-',
        w13 > w12 + 1,
        w13 < s.len(),
        s[w13] == '-',
        w14 > w13 + 1,
        ts_end == w14 + 4,
        w15 > ts_end,
        digit_groups(s.subrange(w15, c_end), 5),
        w16 > c_end,
        digit_groups(s.subrange(w16, qu_end), 2),
        w17 > qu_end,
        w17 < s.len() - 1,
        s[w17] == '"',
        s[s.len() - 1] == '"',
    ensures
        spec_tokenize(s) == Some(
            Tokens {
                month: s.subrange(0, m_end),
                day: s.subrange(w1, d_end),
                time: s.subrange(w2, t_end),
                host: s.subrange(w3, h_end),
                process_id: s.subrange(w4, p2 + 1),
                source_ip_port: s.subrange(w5, a2),
                time_stamp_accepted: s.subrange(w6 + 1, b1),
                frontend_name: s.subrange(w7, f_end),
                backend_name: s.subrange(w8, be_end),
                server_name: s.subrange(be_end + 1, sv_end),
                queues_stats: s.subrange(w9, q_end),
                response_code: s.subrange(w10, rc_end),
                bytes_read: s.subrange(w11, br_end),
                termination_state: s.subrange(w14, ts_end),
                conn_counts: s.subrange(w15, c_end),
                queue: s.subrange(w16, qu_end),
                request: s.subrange(w17 + 1, s.len() - 1),
            },
        ),
{
}

/// Every token of a matched line has the shape that `tokens_wf` states.
#[verifier::rlimit(60)]
pub proof fn lemma_tokenize_shapes(s: Seq<char>)
    requires
        spec_tokenize(s) is Some,
    ensures
        tokens_wf(spec_tokenize(s)->0),
{
    let t = spec_tokenize(s)->0;
    let m_end = scan_end(s, 0, CharKind::Alpha);
    let w1 = scan_end(s, m_end, CharKind::Space);
    let d_end = scan_end(s, w1, CharKind::Digit);
    let w2 = scan_end(s, d_end, CharKind::Space);
    let t_end = scan_end(s, w2, CharKind::TimeChar);
    let w3 = scan_end(s, t_end, CharKind::Space);
    let h_end = scan_end(s, w3, CharKind::Word);
    let w4 = scan_end(s, h_end, CharKind::Space);
    let p1 = scan_end(s, w4, CharKind::Alnum);
    let p2 = scan_end(s, p1 + 1, CharKind::Digit);
    let w5 = scan_end(s, p2 + 2, CharKind::Space);
    let a1 = scan_end(s, w5, CharKind::AddrChar);
    let a2 = scan_end(s, a1 + 1, CharKind::Digit);
    let w6 = scan_end(s, a2, CharKind::Space);
    let b1 = scan_end(s, w6 + 1, CharKind::NotRBracket);
    let w7 = scan_end(s, b1 + 1, CharKind::Space);
    let f_end = scan_end(s, w7, CharKind::Word);
    let w8 = scan_end(s, f_end, CharKind::Space);
    let be_end = scan_end(s, w8, CharKind::WordDash);
    let sv_end = scan_end(s, be_end + 1, CharKind::WordDash);
    let w9 = scan_end(s, sv_end, CharKind::Space);
    let w10 = scan_end(s, scan_end(s, w9, CharKind::DigitSlash), CharKind::Space);
    let rc_end = scan_end(s, w10, CharKind::Digit);
    let w11 = scan_end(s, rc_end, CharKind::Space);
    let br_end = scan_end(s, w11, CharKind::Digit);
    let w12 = scan_end(s, br_end, CharKind::Space);
    let w13 = scan_end(s, w12 + 1, CharKind::Space);
    let w14 = scan_end(s, w13 + 1, CharKind::Space);
    let ts_end = scan_end(s, w14, CharKind::WordDash);
    lemma_scan_end(s, 0, CharKind::Alpha);
    lemma_scan_end(s, w1, CharKind::Digit);
    lemma_scan_end(s, w2, CharKind::TimeChar);
    lemma_scan_end(s, w3, CharKind::Word);
    lemma_scan_end(s, w4, CharKind::Alnum);
    lemma_scan_end(s, p1 + 1, CharKind::Digit);
    lemma_scan_end(s, w5, CharKind::AddrChar);
    lemma_scan_end(s, a1 + 1, CharKind::Digit);
    lemma_scan_end(s, w6 + 1, CharKind::NotRBracket);
    lemma_scan_end(s, w7, CharKind::Word);
    lemma_scan_end(s, w8, CharKind::WordDash);
    lemma_scan_end(s, be_end + 1, CharKind::WordDash);
    lemma_scan_end(s, w10, CharKind::Digit);
    lemma_scan_end(s, w11, CharKind::Digit);
    lemma_scan_end(s, w14, CharKind::WordDash);
    assert(all_kind(t.month, CharKind::Alpha)) by {
        assert forall|j: int| 0 <= j < t.month.len() implies kind_char(
            CharKind::Alpha,
            #[trigger] t.month[j],
        ) by {
            assert(t.month[j] == s[j]);
        }
    }
    assert(all_kind(t.day, CharKind::Digit)) by {
        assert forall|j: int| 0 <= j < t.day.len() implies kind_char(
            CharKind::Digit,
            #[trigger] t.day[j],
        ) by {
            assert(t.day[j] == s[w1 + j]);
        }
    }
    assert(all_kind(t.time, CharKind::TimeChar)) by {
        assert forall|j: int| 0 <= j < t.time.len() implies kind_char(
            CharKind::TimeChar,
            #[trigger] t.time[j],
        ) by {
            assert(t.time[j] == s[w2 + j]);
        }
    }
    assert(all_kind(t.host, CharKind::Word)) by {
        assert forall|j: int| 0 <= j < t.host.len() implies kind_char(
            CharKind::Word,
            #[trigger] t.host[j],
        ) by {
            assert(t.host[j] == s[w3 + j]);
        }
    }
    assert(process_id_ok(t.process_id)) by {
        let tok = t.process_id;
        assert(tok.len() == p2 + 1 - w4);
        assert forall|j: int| 0 <= j < p1 - w4 implies kind_char(
            CharKind::Alnum,
            #[trigger] tok[j],
        ) by {
            assert(tok[j] == s[w4 + j]);
        }
        assert(tok[p1 - w4] == s[p1 as int]);
        crate::chars::lemma_scan_end_unique(tok, 0, p1 - w4, CharKind::Alnum);
        assert forall|j: int| p1 + 1 - w4 <= j < p2 - w4 implies kind_char(
            CharKind::Digit,
            #[trigger] tok[j],
        ) by {
            assert(tok[j] == s[w4 + j]);
        }
        assert(tok[p2 - w4] == s[p2 as int]);
        crate::chars::lemma_scan_end_unique(tok, p1 + 1 - w4, p2 - w4, CharKind::Digit);
    }
    assert(source_ip_port_ok(t.source_ip_port)) by {
        let tok = t.source_ip_port;
        assert(tok.len() == a2 - w5);
        assert forall|j: int| 0 <= j < a1 - w5 implies kind_char(
            CharKind::AddrChar,
            #[trigger] tok[j],
        ) by {
            assert(tok[j] == s[w5 + j]);
        }
        assert(tok[a1 - w5] == s[a1 as int]);
        crate::chars::lemma_scan_end_unique(tok, 0, a1 - w5, CharKind::AddrChar);
        assert forall|j: int| a1 + 1 - w5 <= j < a2 - w5 implies kind_char(
            CharKind::Digit,
            #[trigger] tok[j],
        ) by {
            assert(tok[j] == s[w5 + j]);
        }
        crate::chars::lemma_scan_end_unique(tok, a1 + 1 - w5, a2 - w5, CharKind::Digit);
    }
    assert(all_kind(t.time_stamp_accepted, CharKind::NotRBracket)) by {
        assert forall|j: int| 0 <= j < t.time_stamp_accepted.len() implies kind_char(
            CharKind::NotRBracket,
            #[trigger] t.time_stamp_accepted[j],
        ) by {
            assert(t.time_stamp_accepted[j] == s[w6 + 1 + j]);
        }
    }
    assert(all_kind(t.frontend_name, CharKind::Word)) by {
        assert forall|j: int| 0 <= j < t.frontend_name.len() implies kind_char(
            CharKind::Word,
            #[trigger] t.frontend_name[j],
        ) by {
            assert(t.frontend_name[j] == s[w7 + j]);
        }
    }
    assert(all_kind(t.backend_name, CharKind::WordDash)) by {
        assert forall|j: int| 0 <= j < t.backend_name.len() implies kind_char(
            CharKind::WordDash,
            #[trigger] t.backend_name[j],
        ) by {
            assert(t.backend_name[j] == s[w8 + j]);
        }
    }
    assert(all_kind(t.server_name, CharKind::WordDash)) by {
        assert forall|j: int| 0 <= j < t.server_name.len() implies kind_char(
            CharKind::WordDash,
            #[trigger] t.server_name[j],
        ) by {
            assert(t.server_name[j] == s[be_end + 1 + j]);
        }
    }
    assert(all_kind(t.response_code, CharKind::Digit)) by {
        assert forall|j: int| 0 <= j < t.response_code.len() implies kind_char(
            CharKind::Digit,
            #[trigger] t.response_code[j],
        ) by {
            assert(t.response_code[j] == s[w10 + j]);
        }
    }
    assert(all_kind(t.bytes_read, CharKind::Digit)) by {
        assert forall|j: int| 0 <= j < t.bytes_read.len() implies kind_char(
            CharKind::Digit,
            #[trigger] t.bytes_read[j],
        ) by {
            assert(t.bytes_read[j] == s[w11 + j]);
        }
    }
    assert(all_kind(t.termination_state, CharKind::WordDash)) by {
        assert forall|j: int| 0 <= j < t.termination_state.len() implies kind_char(
            CharKind::WordDash,
            #[trigger] t.termination_state[j],
        ) by {
            assert(t.termination_state[j] == s[w14 + j]);
        }
    }
}

} // verus!
