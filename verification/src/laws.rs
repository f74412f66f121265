//! Laws that relate several functions of the decoder: the sub-field
//! round-trip and the whitespace-normalization round-trip of whole lines.

use vstd::prelude::*;
use crate::chars::{is_digit, kind_char, lemma_scan_end, lemma_scan_end_unique, scan_end, CharKind};
use crate::digits::{all_digits, canonical_dec, lemma_canonical_dec};
use crate::grammar::{all_kind, digit_groups, spec_tokenize, tokens_wf, Tokens};
use crate::split::{
    first_slash, join_slash, lemma_first_slash, lemma_split_join, no_slash, split_slash,
};
use crate::subfields::{seg_val, segs_ok};

verus! {

/// A digit string contains no slash.
proof fn lemma_digits_no_slash(s: Seq<char>)
    requires
        all_digits(s),
    ensures
        no_slash(s),
{
    assert forall|j: int| 0 <= j < s.len() implies #[trigger] s[j] != '/' by {
        assert(is_digit(s[j]));
    }
}

/// Decoding a five-field `a/b/c/d/e` string whose segments are canonical
/// decimals succeeds with exactly the five values, and re-joining the five
/// decoded fields with `/` reproduces the original string exactly.  This is
/// the round trip of the timers and connection-counts decoders; leading
/// zeros are the one deviation it leaves out (they decode to the same value,
/// so re-joining canonicalizes them).
#[verifier::rlimit(100)]
pub proof fn lemma_five_field_round_trip(a: u64, b: u64, c: u64, d: u64, e: u64)
    ensures
        ({
            let s = canonical_dec(a as nat) + seq!['/'] + canonical_dec(b as nat) + seq!['/']
                + canonical_dec(c as nat) + seq!['/'] + canonical_dec(d as nat) + seq!['/']
                + canonical_dec(e as nat);
            &&& segs_ok(s, 5)
            &&& seg_val(s, 0) == a
            &&& seg_val(s, 1) == b
            &&& seg_val(s, 2) == c
            &&& seg_val(s, 3) == d
            &&& seg_val(s, 4) == e
            &&& canonical_dec(seg_val(s, 0) as nat) + seq!['/'] + canonical_dec(
                seg_val(s, 1) as nat,
            ) + seq!['/'] + canonical_dec(seg_val(s, 2) as nat) + seq!['/'] + canonical_dec(
                seg_val(s, 3) as nat,
            ) + seq!['/'] + canonical_dec(seg_val(s, 4) as nat) == s
        }),
{
    let pa = canonical_dec(a as nat);
    let pb = canonical_dec(b as nat);
    let pc = canonical_dec(c as nat);
    let pd = canonical_dec(d as nat);
    let pe = canonical_dec(e as nat);
    let s = pa + seq!['/'] + pb + seq!['/'] + pc + seq!['/'] + pd + seq!['/'] + pe;
    let parts = seq![pa, pb, pc, pd, pe];
    lemma_canonical_dec(a as nat);
    lemma_canonical_dec(b as nat);
    lemma_canonical_dec(c as nat);
    lemma_canonical_dec(d as nat);
    lemma_canonical_dec(e as nat);
    lemma_digits_no_slash(pa);
    lemma_digits_no_slash(pb);
    lemma_digits_no_slash(pc);
    lemma_digits_no_slash(pd);
    lemma_digits_no_slash(pe);
    assert(parts.drop_first() =~= seq![pb, pc, pd, pe]);
    assert(seq![pb, pc, pd, pe].drop_first() =~= seq![pc, pd, pe]);
    assert(seq![pc, pd, pe].drop_first() =~= seq![pd, pe]);
    assert(seq![pd, pe].drop_first() =~= seq![pe]);
    assert(join_slash(seq![pe]) == pe);
    assert(join_slash(seq![pd, pe]) == pd + seq!['/'] + pe);
    assert(join_slash(seq![pc, pd, pe]) == pc + seq!['/'] + (pd + seq!['/'] + pe));
    assert(join_slash(seq![pb, pc, pd, pe]) == pb + seq!['/'] + (pc + seq!['/'] + (pd + seq!['/']
        + pe)));
    assert(join_slash(parts) == pa + seq!['/'] + (pb + seq!['/'] + (pc + seq!['/'] + (pd
        + seq!['/'] + pe))));
    assert(join_slash(parts) =~= s);
    assert forall|k: int| 0 <= k < parts.len() implies no_slash(#[trigger] parts[k]) by {
        if k == 0 {
            assert(parts[k] == pa);
        } else if k == 1 {
            assert(parts[k] == pb);
        } else if k == 2 {
            assert(parts[k] == pc);
        } else if k == 3 {
            assert(parts[k] == pd);
        } else {
            assert(parts[k] == pe);
        }
    }
    lemma_split_join(parts);
    assert(split_slash(s) == parts);
    assert forall|k: int| 0 <= k < 5 implies crate::digits::seg_ok(#[trigger] split_slash(s)[k]) by {
        if k == 0 {
            assert(split_slash(s)[k] == pa);
        } else if k == 1 {
            assert(split_slash(s)[k] == pb);
        } else if k == 2 {
            assert(split_slash(s)[k] == pc);
        } else if k == 3 {
            assert(split_slash(s)[k] == pd);
        } else {
            assert(split_slash(s)[k] == pe);
        }
    }
}

/// Every character of a slash-joined digit-group string is a digit or a
/// slash, and the string is non-empty.
proof fn lemma_digit_groups_chars(tk: Seq<char>, arity: int)
    requires
        digit_groups(tk, arity),
        arity >= 1,
    ensures
        all_kind(tk, CharKind::DigitSlash),
        tk.len() >= 1,
    decreases tk.len(),
{
    lemma_first_slash(tk);
    let i = first_slash(tk) as int;
    if i < tk.len() {
        let rest = tk.subrange(i + 1, tk.len() as int);
        assert(split_slash(tk) == seq![tk.subrange(0, i)] + split_slash(rest));
        assert(split_slash(tk)[0] == tk.subrange(0, i));
        assert(split_slash(tk)[0].len() > 0 && all_digits(split_slash(tk)[0]));
        assert forall|k: int| 0 <= k < arity - 1 implies (#[trigger] split_slash(rest)[k]).len()
            > 0 && all_digits(split_slash(rest)[k]) by {
            assert(split_slash(rest)[k] == split_slash(tk)[k + 1]);
        }
        assert(split_slash(rest).len() >= 1);
        assert(arity >= 2);
        lemma_digit_groups_chars(rest, arity - 1);
        assert forall|j: int| 0 <= j < tk.len() implies kind_char(
            CharKind::DigitSlash,
            #[trigger] tk[j],
        ) by {
            if j < i {
                assert(is_digit(tk.subrange(0, i)[j]));
            } else if j == i {
            } else {
                assert(kind_char(CharKind::DigitSlash, rest[j - (i + 1)]));
                assert(rest[j - (i + 1)] == tk[j]);
            }
        }
    } else {
        assert(split_slash(tk) == seq![tk]);
        assert(split_slash(tk)[0] == tk);
        assert forall|j: int| 0 <= j < tk.len() implies kind_char(
            CharKind::DigitSlash,
            #[trigger] tk[j],
        ) by {
            assert(is_digit(tk[j]));
        }
    }
}

/// The characters of `s` at offsets `o..o + tk.len()` are those of `tk`.
proof fn lemma_subrange_kinds(s: Seq<char>, o: int, tk: Seq<char>, k: CharKind)
    requires
        0 <= o,
        o + tk.len() <= s.len(),
        s.subrange(o, o + tk.len() as int) == tk,
        all_kind(tk, k),
    ensures
        forall|m: int| o <= m < o + tk.len() ==> kind_char(k, #[trigger] s[m]),
{
    assert forall|m: int| o <= m < o + tk.len() implies kind_char(k, #[trigger] s[m]) by {
        assert(s.subrange(o, o + tk.len() as int)[m - o] == s[m]);
        assert(kind_char(k, tk[m - o]));
    }
}

/// A class run standing at offset `o`, followed by a character outside the
/// class, is scanned to exactly its end.
proof fn lemma_run(s: Seq<char>, o: int, tk: Seq<char>, k: CharKind)
    requires
        0 <= o,
        o + tk.len() < s.len(),
        s.subrange(o, o + tk.len() as int) == tk,
        all_kind(tk, k),
        !kind_char(k, s[o + tk.len()]),
    ensures
        scan_end(s, o, k) == o + tk.len(),
{
    lemma_subrange_kinds(s, o, tk, k);
    lemma_scan_end_unique(s, o, o + tk.len() as int, k);
}

/// A class run inside a token standing at offset `o` is scanned to exactly
/// its end within the line.
proof fn lemma_run_inside(s: Seq<char>, o: int, tk: Seq<char>, a: int, b: int, k: CharKind)
    requires
        0 <= o,
        o + tk.len() <= s.len(),
        s.subrange(o, o + tk.len() as int) == tk,
        0 <= a <= b <= tk.len(),
        forall|j: int| a <= j < b ==> kind_char(k, #[trigger] tk[j]),
        b < tk.len() ==> !kind_char(k, tk[b]),
        b == tk.len() ==> o + tk.len() < s.len() && !kind_char(k, s[o + tk.len()]),
    ensures
        scan_end(s, o + a, k) == o + b,
{
    assert forall|m: int| o + a <= m < o + b implies kind_char(k, #[trigger] s[m]) by {
        assert(s.subrange(o, o + tk.len() as int)[m - o] == s[m]);
    }
    if b < tk.len() {
        assert(s.subrange(o, o + tk.len() as int)[b] == s[o + b]);
    }
    lemma_scan_end_unique(s, o + a, o + b, k);
}

/// The line that an entry's tokens reassemble into, with every whitespace
/// run normalized to one space: the seventeen tokens in grammar order, with
/// the grammar's literal delimiters around them.
#[verifier::opaque]
pub open spec fn canonical_line(t: Tokens) -> Seq<char> {
    t.month + seq![' '] + t.day + seq![' '] + t.time + seq![' '] + t.host + seq![' ']
        + t.process_id + seq![':', ' '] + t.source_ip_port + seq![' ', '[']
        + t.time_stamp_accepted + seq![']', ' '] + t.frontend_name + seq![' '] + t.backend_name
        + seq!['/'] + t.server_name + seq![' '] + t.queues_stats + seq![' '] + t.response_code
        + seq![' '] + t.bytes_read + seq![' ', '-', ' ', '-', ' '] + t.termination_state
        + seq![' '] + t.conn_counts + seq![' '] + t.queue + seq![' ', '"'] + t.request
        + seq!['"']
}



/// Start of the day token in the canonical line; the later offsets follow
/// from the token lengths and the fixed delimiters.
spec fn off_da(t: Tokens) -> int {
    4
}

spec fn off_ti(t: Tokens) -> int {
    off_da(t) + t.day.len() as int + 1
}

spec fn off_ho(t: Tokens) -> int {
    off_ti(t) + 9
}

spec fn off_pi(t: Tokens) -> int {
    off_ho(t) + t.host.len() as int + 1
}

spec fn off_sr(t: Tokens) -> int {
    off_pi(t) + t.process_id.len() as int + 2
}

spec fn off_ta(t: Tokens) -> int {
    off_sr(t) + t.source_ip_port.len() as int + 2
}

spec fn off_fe(t: Tokens) -> int {
    off_ta(t) + t.time_stamp_accepted.len() as int + 2
}

spec fn off_be(t: Tokens) -> int {
    off_fe(t) + t.frontend_name.len() as int + 1
}

spec fn off_sv(t: Tokens) -> int {
    off_be(t) + t.backend_name.len() as int + 1
}

spec fn off_qs(t: Tokens) -> int {
    off_sv(t) + t.server_name.len() as int + 1
}

spec fn off_rc(t: Tokens) -> int {
    off_qs(t) + t.queues_stats.len() as int + 1
}

spec fn off_br(t: Tokens) -> int {
    off_rc(t) + t.response_code.len() as int + 1
}

spec fn off_te(t: Tokens) -> int {
    off_br(t) + t.bytes_read.len() as int + 5
}

spec fn off_cc(t: Tokens) -> int {
    off_te(t) + 5
}

spec fn off_qu(t: Tokens) -> int {
    off_cc(t) + t.conn_counts.len() as int + 1
}

spec fn off_rq(t: Tokens) -> int {
    off_qu(t) + t.queue.len() as int + 2
}

/// Where the tokens of the first half of the canonical line stand.
spec fn piece_facts_a(t: Tokens) -> bool {
    let s = canonical_line(t);
    &&& s.len() == off_rq(t) + t.request.len() + 1
    &&& s.subrange(0, 3) == t.month
    &&& s[3] == ' '
    &&& s.subrange(off_da(t), off_da(t) + t.day.len() as int) == t.day
    &&& s[off_da(t) + t.day.len() as int] == ' '
    &&& s.subrange(off_ti(t), off_ti(t) + 8) == t.time
    &&& s[off_ti(t) + 8] == ' '
    &&& s.subrange(off_ho(t), off_ho(t) + t.host.len() as int) == t.host
    &&& s[off_ho(t) + t.host.len() as int] == ' '
    &&& s.subrange(off_pi(t), off_pi(t) + t.process_id.len() as int) == t.process_id
    &&& s[off_pi(t) + t.process_id.len() as int] == ':'
    &&& s[off_pi(t) + t.process_id.len() as int + 1] == ' '
    &&& s.subrange(off_sr(t), off_sr(t) + t.source_ip_port.len() as int) == t.source_ip_port
    &&& s[off_sr(t) + t.source_ip_port.len() as int] == ' '
    &&& s[off_sr(t) + t.source_ip_port.len() as int + 1] == '['
    &&& s.subrange(off_ta(t), off_ta(t) + t.time_stamp_accepted.len() as int)
        == t.time_stamp_accepted
    &&& s[off_ta(t) + t.time_stamp_accepted.len() as int] == ']'
    &&& s[off_ta(t) + t.time_stamp_accepted.len() as int + 1] == ' '
}

/// Where the tokens of the second half of the canonical line stand.
spec fn piece_facts_b(t: Tokens) -> bool {
    let s = canonical_line(t);
    &&& s.subrange(off_fe(t), off_fe(t) + t.frontend_name.len() as int) == t.frontend_name
    &&& s[off_fe(t) + t.frontend_name.len() as int] == ' '
    &&& s.subrange(off_be(t), off_be(t) + t.backend_name.len() as int) == t.backend_name
    &&& s[off_be(t) + t.backend_name.len() as int] == '/'
    &&& s.subrange(off_sv(t), off_sv(t) + t.server_name.len() as int) == t.server_name
    &&& s[off_sv(t) + t.server_name.len() as int] == ' '
    &&& s.subrange(off_qs(t), off_qs(t) + t.queues_stats.len() as int) == t.queues_stats
    &&& s[off_qs(t) + t.queues_stats.len() as int] == ' '
    &&& s.subrange(off_rc(t), off_rc(t) + t.response_code.len() as int) == t.response_code
    &&& s[off_rc(t) + t.response_code.len() as int] == ' '
    &&& s.subrange(off_br(t), off_br(t) + t.bytes_read.len() as int) == t.bytes_read
    &&& s[off_br(t) + t.bytes_read.len() as int] == ' '
    &&& s[off_br(t) + t.bytes_read.len() as int + 1] == '-'
    &&& s[off_br(t) + t.bytes_read.len() as int + 2] == ' '
    &&& s[off_br(t) + t.bytes_read.len() as int + 3] == '-'
    &&& s[off_br(t) + t.bytes_read.len() as int + 4] == ' '
    &&& s.subrange(off_te(t), off_te(t) + 4) == t.termination_state
    &&& s[off_te(t) + 4] == ' '
    &&& s.subrange(off_cc(t), off_cc(t) + t.conn_counts.len() as int) == t.conn_counts
    &&& s[off_cc(t) + t.conn_counts.len() as int] == ' '
    &&& s.subrange(off_qu(t), off_qu(t) + t.queue.len() as int) == t.queue
    &&& s[off_qu(t) + t.queue.len() as int] == ' '
    &&& s[off_qu(t) + t.queue.len() as int + 1] == '"'
    &&& s.subrange(off_rq(t), off_rq(t) + t.request.len() as int) == t.request
    &&& s[s.len() - 1] == '"'
}


#[verifier::rlimit(100)]
#[verifier::spinoff_prover]
proof fn lemma_piece_facts_a(t: Tokens)
    requires
        t.month.len() == 3,
        t.time.len() == 8,
        t.termination_state.len() == 4,
    ensures
        piece_facts_a(t),
{
    reveal(crate::laws::canonical_line);
    let s = canonical_line(t);
    assert(s.subrange(0, 3) =~= t.month);
    assert(s.subrange(3, 4) =~= seq![' ']);
    assert(s[3] == s.subrange(3, 4)[0]);
    assert(s.subrange(off_da(t), off_da(t) + t.day.len() as int) =~= t.day);
    assert(s.subrange(off_da(t) + t.day.len() as int, off_ti(t)) =~= seq![' ']);
    assert(s[off_da(t) + t.day.len() as int] == s.subrange(
        off_da(t) + t.day.len() as int,
        off_ti(t),
    )[0]);
    assert(s.subrange(off_ti(t), off_ti(t) + 8) =~= t.time);
    assert(s.subrange(off_ti(t) + 8, off_ho(t)) =~= seq![' ']);
    assert(s[off_ti(t) + 8] == s.subrange(off_ti(t) + 8, off_ho(t))[0]);
    assert(s.subrange(off_ho(t), off_ho(t) + t.host.len() as int) =~= t.host);
    assert(s.subrange(off_ho(t) + t.host.len() as int, off_pi(t)) =~= seq![' ']);
    assert(s[off_ho(t) + t.host.len() as int] == s.subrange(
        off_ho(t) + t.host.len() as int,
        off_pi(t),
    )[0]);
    assert(s.subrange(off_pi(t), off_pi(t) + t.process_id.len() as int) =~= t.process_id);
    assert(s.subrange(off_pi(t) + t.process_id.len() as int, off_sr(t)) =~= seq![':', ' ']);
    assert(s[off_pi(t) + t.process_id.len() as int] == s.subrange(
        off_pi(t) + t.process_id.len() as int,
        off_sr(t),
    )[0]);
    assert(s[off_pi(t) + t.process_id.len() as int + 1] == s.subrange(
        off_pi(t) + t.process_id.len() as int,
        off_sr(t),
    )[1]);
    assert(s.subrange(off_sr(t), off_sr(t) + t.source_ip_port.len() as int)
        =~= t.source_ip_port);
    assert(s.subrange(off_sr(t) + t.source_ip_port.len() as int, off_ta(t)) =~= seq![' ', '[']);
    assert(s[off_sr(t) + t.source_ip_port.len() as int] == s.subrange(
        off_sr(t) + t.source_ip_port.len() as int,
        off_ta(t),
    )[0]);
    assert(s[off_sr(t) + t.source_ip_port.len() as int + 1] == s.subrange(
        off_sr(t) + t.source_ip_port.len() as int,
        off_ta(t),
    )[1]);
    assert(s.subrange(off_ta(t), off_ta(t) + t.time_stamp_accepted.len() as int)
        =~= t.time_stamp_accepted);
    assert(s.subrange(off_ta(t) + t.time_stamp_accepted.len() as int, off_fe(t))
        =~= seq![']', ' ']);
    assert(s[off_ta(t) + t.time_stamp_accepted.len() as int] == s.subrange(
        off_ta(t) + t.time_stamp_accepted.len() as int,
        off_fe(t),
    )[0]);
    assert(s[off_ta(t) + t.time_stamp_accepted.len() as int + 1] == s.subrange(
        off_ta(t) + t.time_stamp_accepted.len() as int,
        off_fe(t),
    )[1]);
}

#[verifier::rlimit(100)]
#[verifier::spinoff_prover]
proof fn lemma_piece_facts_b(t: Tokens)
    requires
        t.month.len() == 3,
        t.time.len() == 8,
        t.termination_state.len() == 4,
    ensures
        piece_facts_b(t),
{
    reveal(crate::laws::canonical_line);
    let s = canonical_line(t);
    assert(s.subrange(off_fe(t), off_fe(t) + t.frontend_name.len() as int)
        =~= t.frontend_name);
    assert(s.subrange(off_fe(t) + t.frontend_name.len() as int, off_be(t)) =~= seq![' ']);
    assert(s[off_fe(t) + t.frontend_name.len() as int] == s.subrange(
        off_fe(t) + t.frontend_name.len() as int,
        off_be(t),
    )[0]);
    assert(s.subrange(off_be(t), off_be(t) + t.backend_name.len() as int) =~= t.backend_name);
    assert(s.subrange(off_be(t) + t.backend_name.len() as int, off_sv(t)) =~= seq!['/']);
    assert(s[off_be(t) + t.backend_name.len() as int] == s.subrange(
        off_be(t) + t.backend_name.len() as int,
        off_sv(t),
    )[0]);
    assert(s.subrange(off_sv(t), off_sv(t) + t.server_name.len() as int) =~= t.server_name);
    assert(s.subrange(off_sv(t) + t.server_name.len() as int, off_qs(t)) =~= seq![' ']);
    assert(s[off_sv(t) + t.server_name.len() as int] == s.subrange(
        off_sv(t) + t.server_name.len() as int,
        off_qs(t),
    )[0]);
    assert(s.subrange(off_qs(t), off_qs(t) + t.queues_stats.len() as int) =~= t.queues_stats);
    assert(s.subrange(off_qs(t) + t.queues_stats.len() as int, off_rc(t)) =~= seq![' ']);
    assert(s[off_qs(t) + t.queues_stats.len() as int] == s.subrange(
        off_qs(t) + t.queues_stats.len() as int,
        off_rc(t),
    )[0]);
    assert(s.subrange(off_rc(t), off_rc(t) + t.response_code.len() as int)
        =~= t.response_code);
    assert(s.subrange(off_rc(t) + t.response_code.len() as int, off_br(t)) =~= seq![' ']);
    assert(s[off_rc(t) + t.response_code.len() as int] == s.subrange(
        off_rc(t) + t.response_code.len() as int,
        off_br(t),
    )[0]);
    assert(s.subrange(off_br(t), off_br(t) + t.bytes_read.len() as int) =~= t.bytes_read);
    assert(s.subrange(off_br(t) + t.bytes_read.len() as int, off_te(t)) =~= seq![
        ' ',
        '-',
        ' ',
        '-',
        ' ',
    ]);
    assert(s[off_br(t) + t.bytes_read.len() as int] == s.subrange(
        off_br(t) + t.bytes_read.len() as int,
        off_te(t),
    )[0]);
    assert(s[off_br(t) + t.bytes_read.len() as int + 1] == s.subrange(
        off_br(t) + t.bytes_read.len() as int,
        off_te(t),
    )[1]);
    assert(s[off_br(t) + t.bytes_read.len() as int + 2] == s.subrange(
        off_br(t) + t.bytes_read.len() as int,
        off_te(t),
    )[2]);
    assert(s[off_br(t) + t.bytes_read.len() as int + 3] == s.subrange(
        off_br(t) + t.bytes_read.len() as int,
        off_te(t),
    )[3]);
    assert(s[off_br(t) + t.bytes_read.len() as int + 4] == s.subrange(
        off_br(t) + t.bytes_read.len() as int,
        off_te(t),
    )[4]);
    assert(s.subrange(off_te(t), off_te(t) + 4) =~= t.termination_state);
    assert(s.subrange(off_te(t) + 4, off_cc(t)) =~= seq![' ']);
    assert(s[off_te(t) + 4] == s.subrange(off_te(t) + 4, off_cc(t))[0]);
    assert(s.subrange(off_cc(t), off_cc(t) + t.conn_counts.len() as int) =~= t.conn_counts);
    assert(s.subrange(off_cc(t) + t.conn_counts.len() as int, off_qu(t)) =~= seq![' ']);
    assert(s[off_cc(t) + t.conn_counts.len() as int] == s.subrange(
        off_cc(t) + t.conn_counts.len() as int,
        off_qu(t),
    )[0]);
    assert(s.subrange(off_qu(t), off_qu(t) + t.queue.len() as int) =~= t.queue);
    assert(s.subrange(off_qu(t) + t.queue.len() as int, off_rq(t)) =~= seq![' ', '"']);
    assert(s[off_qu(t) + t.queue.len() as int] == s.subrange(
        off_qu(t) + t.queue.len() as int,
        off_rq(t),
    )[0]);
    assert(s[off_qu(t) + t.queue.len() as int + 1] == s.subrange(
        off_qu(t) + t.queue.len() as int,
        off_rq(t),
    )[1]);
    assert(s.subrange(off_rq(t), off_rq(t) + t.request.len() as int) =~= t.request);
    assert(s.subrange(off_rq(t) + t.request.len() as int, s.len() as int) =~= seq!['"']);
    assert(s[s.len() - 1] == s.subrange(off_rq(t) + t.request.len() as int, s.len() as int)[0]);
}

/// Where each class scan of the first quarter of the canonical line ends.
spec fn scan_facts_a1(t: Tokens) -> bool {
    let s = canonical_line(t);
    &&& scan_end(s, 0, CharKind::Alpha) == 3
    &&& scan_end(s, 3, CharKind::Space) == off_da(t)
    &&& scan_end(s, off_da(t), CharKind::Digit) == off_da(t) + t.day.len()
    &&& scan_end(s, off_da(t) + t.day.len() as int, CharKind::Space) == off_ti(t)
    &&& scan_end(s, off_ti(t), CharKind::TimeChar) == off_ti(t) + 8
    &&& scan_end(s, off_ti(t) + 8, CharKind::Space) == off_ho(t)
    &&& scan_end(s, off_ho(t), CharKind::Word) == off_ho(t) + t.host.len()
    &&& scan_end(s, off_ho(t) + t.host.len() as int, CharKind::Space) == off_pi(t)
}

/// Where each class scan of the second quarter of the canonical line ends.
spec fn scan_facts_a2(t: Tokens) -> bool {
    let s = canonical_line(t);
    &&& scan_end(s, off_pi(t), CharKind::Alnum) == off_pi(t) + scan_end(
        t.process_id,
        0,
        CharKind::Alnum,
    )
    &&& scan_end(s, off_pi(t) + scan_end(t.process_id, 0, CharKind::Alnum) + 1, CharKind::Digit)
        == off_pi(t) + t.process_id.len() - 1
    &&& scan_end(s, off_pi(t) + t.process_id.len() as int + 1, CharKind::Space) == off_sr(t)
    &&& scan_end(s, off_sr(t), CharKind::AddrChar) == off_sr(t) + scan_end(
        t.source_ip_port,
        0,
        CharKind::AddrChar,
    )
    &&& scan_end(
        s,
        off_sr(t) + scan_end(t.source_ip_port, 0, CharKind::AddrChar) + 1,
        CharKind::Digit,
    ) == off_sr(t) + t.source_ip_port.len()
    &&& scan_end(s, off_sr(t) + t.source_ip_port.len() as int, CharKind::Space) == off_sr(t)
        + t.source_ip_port.len() + 1
    &&& scan_end(s, off_ta(t), CharKind::NotRBracket) == off_ta(t)
        + t.time_stamp_accepted.len()
    &&& scan_end(s, off_ta(t) + t.time_stamp_accepted.len() as int + 1, CharKind::Space)
        == off_fe(t)
}

/// Where each class scan of the second half of the canonical line ends.
spec fn scan_facts_b(t: Tokens) -> bool {
    let s = canonical_line(t);
    &&& scan_end(s, off_fe(t), CharKind::Word) == off_fe(t) + t.frontend_name.len()
    &&& scan_end(s, off_fe(t) + t.frontend_name.len() as int, CharKind::Space) == off_be(t)
    &&& scan_end(s, off_be(t), CharKind::WordDash) == off_be(t) + t.backend_name.len()
    &&& scan_end(s, off_sv(t), CharKind::WordDash) == off_sv(t) + t.server_name.len()
    &&& scan_end(s, off_sv(t) + t.server_name.len() as int, CharKind::Space) == off_qs(t)
    &&& scan_end(s, off_qs(t), CharKind::DigitSlash) == off_qs(t) + t.queues_stats.len()
    &&& scan_end(s, off_qs(t) + t.queues_stats.len() as int, CharKind::Space) == off_rc(t)
    &&& scan_end(s, off_rc(t), CharKind::Digit) == off_rc(t) + t.response_code.len()
    &&& scan_end(s, off_rc(t) + t.response_code.len() as int, CharKind::Space) == off_br(t)
    &&& scan_end(s, off_br(t), CharKind::Digit) == off_br(t) + t.bytes_read.len()
    &&& scan_end(s, off_br(t) + t.bytes_read.len() as int, CharKind::Space) == off_br(t)
        + t.bytes_read.len() + 1
    &&& scan_end(s, off_br(t) + t.bytes_read.len() as int + 2, CharKind::Space) == off_br(t)
        + t.bytes_read.len() + 3
    &&& scan_end(s, off_br(t) + t.bytes_read.len() as int + 4, CharKind::Space) == off_te(t)
    &&& scan_end(s, off_te(t), CharKind::WordDash) == off_te(t) + 4
    &&& scan_end(s, off_te(t) + 4, CharKind::Space) == off_cc(t)
    &&& scan_end(s, off_cc(t), CharKind::DigitSlash) == off_cc(t) + t.conn_counts.len()
    &&& scan_end(s, off_cc(t) + t.conn_counts.len() as int, CharKind::Space) == off_qu(t)
    &&& scan_end(s, off_qu(t), CharKind::DigitSlash) == off_qu(t) + t.queue.len()
    &&& scan_end(s, off_qu(t) + t.queue.len() as int, CharKind::Space) == off_qu(t)
        + t.queue.len() + 1
}

#[verifier::rlimit(100)]
#[verifier::spinoff_prover]
proof fn lemma_scan_facts_a1(t: Tokens)
    requires
        tokens_wf(t),
        piece_facts_a(t),
        piece_facts_b(t),
    ensures
        scan_facts_a1(t),
{
    let s = canonical_line(t);
    // First characters of the tokens, to stop each whitespace scan.
    assert(s[off_da(t)] == t.day[0]);
    assert(s[off_ti(t)] == t.time[0]);
    assert(s[off_ho(t)] == t.host[0]);
    assert(s[off_pi(t)] == t.process_id[0]);
    assert(s[off_sr(t)] == t.source_ip_port[0]);
    assert(s[off_fe(t)] == t.frontend_name[0]);
    // Single-space separator runs, as one-character subranges.
    assert(s.subrange(3, 4) =~= seq![' ']);
    assert(s.subrange(off_da(t) + t.day.len() as int, off_ti(t)) =~= seq![' ']);
    assert(s.subrange(off_ti(t) + 8, off_ho(t)) =~= seq![' ']);
    assert(s.subrange(off_ho(t) + t.host.len() as int, off_pi(t)) =~= seq![' ']);
    assert(s.subrange(off_pi(t) + t.process_id.len() as int + 1, off_sr(t)) =~= seq![' ']);
    assert(s.subrange(off_sr(t) + t.source_ip_port.len() as int, off_sr(t)
        + t.source_ip_port.len() as int + 1) =~= seq![' ']);
    assert(s.subrange(off_ta(t) + t.time_stamp_accepted.len() as int + 1, off_fe(t))
        =~= seq![' ']);
    assert(all_kind(seq![' '], CharKind::Space));
    // The scans, one run at a time.
    lemma_run(s, 0, t.month, CharKind::Alpha);
    lemma_run(s, 3, seq![' '], CharKind::Space);
    lemma_run(s, off_da(t), t.day, CharKind::Digit);
    lemma_run(s, off_da(t) + t.day.len() as int, seq![' '], CharKind::Space);
    lemma_run(s, off_ti(t), t.time, CharKind::TimeChar);
    lemma_run(s, off_ti(t) + 8, seq![' '], CharKind::Space);
    lemma_run(s, off_ho(t), t.host, CharKind::Word);
    lemma_run(s, off_ho(t) + t.host.len() as int, seq![' '], CharKind::Space);
}

#[verifier::rlimit(100)]
#[verifier::spinoff_prover]
proof fn lemma_scan_facts_a2(t: Tokens)
    requires
        tokens_wf(t),
        piece_facts_a(t),
        piece_facts_b(t),
    ensures
        scan_facts_a2(t),
{
    let s = canonical_line(t);
    assert(s[off_sr(t)] == t.source_ip_port[0]);
    assert(s[off_fe(t)] == t.frontend_name[0]);
    assert(s.subrange(off_pi(t) + t.process_id.len() as int + 1, off_sr(t)) =~= seq![' ']);
    assert(s.subrange(off_sr(t) + t.source_ip_port.len() as int, off_sr(t)
        + t.source_ip_port.len() as int + 1) =~= seq![' ']);
    assert(s.subrange(off_ta(t) + t.time_stamp_accepted.len() as int + 1, off_fe(t))
        =~= seq![' ']);
    assert(all_kind(seq![' '], CharKind::Space));
    // Inside the process id: letters-and-digits, then the bracketed digits.
    let pid = t.process_id;
    let pp = pid.len() as int;
    let ip = scan_end(pid, 0, CharKind::Alnum);
    lemma_scan_end(pid, 0, CharKind::Alnum);
    lemma_scan_end(pid, ip + 1, CharKind::Digit);
    lemma_run_inside(s, off_pi(t), pid, 0, ip, CharKind::Alnum);
    lemma_run_inside(s, off_pi(t), pid, ip + 1, pp - 1, CharKind::Digit);
    lemma_run(s, off_pi(t) + pp + 1, seq![' '], CharKind::Space);
    // Inside the source address: digits-and-dots, then the port digits.
    let src = t.source_ip_port;
    let aa = src.len() as int;
    let isr = scan_end(src, 0, CharKind::AddrChar);
    lemma_scan_end(src, 0, CharKind::AddrChar);
    lemma_scan_end(src, isr + 1, CharKind::Digit);
    lemma_run_inside(s, off_sr(t), src, 0, isr, CharKind::AddrChar);
    lemma_run_inside(s, off_sr(t), src, isr + 1, aa, CharKind::Digit);
    lemma_run(s, off_sr(t) + aa, seq![' '], CharKind::Space);
    lemma_run(s, off_ta(t), t.time_stamp_accepted, CharKind::NotRBracket);
    lemma_run(s, off_ta(t) + t.time_stamp_accepted.len() as int + 1, seq![' '], CharKind::Space);
}

#[verifier::rlimit(100)]
#[verifier::spinoff_prover]
proof fn lemma_scan_facts_b(t: Tokens)
    requires
        tokens_wf(t),
        piece_facts_a(t),
        piece_facts_b(t),
    ensures
        scan_facts_b(t),
{
    let s = canonical_line(t);
    lemma_digit_groups_chars(t.queues_stats, 5);
    lemma_digit_groups_chars(t.conn_counts, 5);
    lemma_digit_groups_chars(t.queue, 2);
    assert(s[off_fe(t)] == t.frontend_name[0]);
    assert(s[off_be(t)] == t.backend_name[0]);
    assert(s[off_sv(t)] == t.server_name[0]);
    assert(s[off_qs(t)] == t.queues_stats[0]);
    assert(s[off_rc(t)] == t.response_code[0]);
    assert(s[off_br(t)] == t.bytes_read[0]);
    assert(s[off_te(t)] == t.termination_state[0]);
    assert(s[off_cc(t)] == t.conn_counts[0]);
    assert(s[off_qu(t)] == t.queue[0]);
    assert(s.subrange(off_fe(t) + t.frontend_name.len() as int, off_be(t)) =~= seq![' ']);
    assert(s.subrange(off_sv(t) + t.server_name.len() as int, off_qs(t)) =~= seq![' ']);
    assert(s.subrange(off_qs(t) + t.queues_stats.len() as int, off_rc(t)) =~= seq![' ']);
    assert(s.subrange(off_rc(t) + t.response_code.len() as int, off_br(t)) =~= seq![' ']);
    assert(s.subrange(off_br(t) + t.bytes_read.len() as int, off_br(t) + t.bytes_read.len() as int
        + 1) =~= seq![' ']);
    assert(s.subrange(off_br(t) + t.bytes_read.len() as int + 2, off_br(t)
        + t.bytes_read.len() as int + 3) =~= seq![' ']);
    assert(s.subrange(off_br(t) + t.bytes_read.len() as int + 4, off_te(t)) =~= seq![' ']);
    assert(s.subrange(off_te(t) + 4, off_cc(t)) =~= seq![' ']);
    assert(s.subrange(off_cc(t) + t.conn_counts.len() as int, off_qu(t)) =~= seq![' ']);
    assert(s.subrange(off_qu(t) + t.queue.len() as int, off_qu(t) + t.queue.len() as int + 1)
        =~= seq![' ']);
    assert(all_kind(seq![' '], CharKind::Space));
    lemma_run(s, off_fe(t), t.frontend_name, CharKind::Word);
    lemma_run(s, off_fe(t) + t.frontend_name.len() as int, seq![' '], CharKind::Space);
    lemma_run(s, off_be(t), t.backend_name, CharKind::WordDash);
    lemma_run(s, off_sv(t), t.server_name, CharKind::WordDash);
    lemma_run(s, off_sv(t) + t.server_name.len() as int, seq![' '], CharKind::Space);
    lemma_run(s, off_qs(t), t.queues_stats, CharKind::DigitSlash);
    lemma_run(s, off_qs(t) + t.queues_stats.len() as int, seq![' '], CharKind::Space);
    lemma_run(s, off_rc(t), t.response_code, CharKind::Digit);
    lemma_run(s, off_rc(t) + t.response_code.len() as int, seq![' '], CharKind::Space);
    lemma_run(s, off_br(t), t.bytes_read, CharKind::Digit);
    lemma_run(s, off_br(t) + t.bytes_read.len() as int, seq![' '], CharKind::Space);
    lemma_run(s, off_br(t) + t.bytes_read.len() as int + 2, seq![' '], CharKind::Space);
    lemma_run(s, off_br(t) + t.bytes_read.len() as int + 4, seq![' '], CharKind::Space);
    lemma_run(s, off_te(t), t.termination_state, CharKind::WordDash);
    lemma_run(s, off_te(t) + 4, seq![' '], CharKind::Space);
    lemma_run(s, off_cc(t), t.conn_counts, CharKind::DigitSlash);
    lemma_run(s, off_cc(t) + t.conn_counts.len() as int, seq![' '], CharKind::Space);
    lemma_run(s, off_qu(t), t.queue, CharKind::DigitSlash);
    lemma_run(s, off_qu(t) + t.queue.len() as int, seq![' '], CharKind::Space);
}

#[verifier::rlimit(100)]
#[verifier::spinoff_prover]
proof fn lemma_canonical_line_matches(t: Tokens)
    requires
        tokens_wf(t),
        piece_facts_a(t),
        piece_facts_b(t),
        scan_facts_a1(t),
        scan_facts_a2(t),
        scan_facts_b(t),
    ensures
        spec_tokenize(canonical_line(t)) == Some(t),
{
    let s = canonical_line(t);
    let dd = t.day.len() as int;
    let hh = t.host.len() as int;
    let pp = t.process_id.len() as int;
    let aa = t.source_ip_port.len() as int;
    let bb = t.time_stamp_accepted.len() as int;
    let ff = t.frontend_name.len() as int;
    let ee = t.backend_name.len() as int;
    let vv = t.server_name.len() as int;
    let qq = t.queues_stats.len() as int;
    let rr = t.response_code.len() as int;
    let yy = t.bytes_read.len() as int;
    let cc = t.conn_counts.len() as int;
    let uu = t.queue.len() as int;
    let gg = t.request.len() as int;
    let ip = scan_end(t.process_id, 0, CharKind::Alnum);
    let isr = scan_end(t.source_ip_port, 0, CharKind::AddrChar);
    assert(s[off_pi(t) + ip] == t.process_id[ip]);
    assert(s[off_pi(t) + pp - 1] == t.process_id[pp - 1]);
    assert(s[off_sr(t) + isr] == t.source_ip_port[isr]);
    crate::grammar::lemma_tokenize_eval(
        s,
        3,
        off_da(t),
        off_da(t) + dd,
        off_ti(t),
        off_ti(t) + 8,
        off_ho(t),
        off_ho(t) + hh,
        off_pi(t),
        off_pi(t) + ip,
        off_pi(t) + pp - 1,
        off_sr(t),
        off_sr(t) + isr,
        off_sr(t) + aa,
        off_sr(t) + aa + 1,
        off_ta(t) + bb,
        off_fe(t),
        off_fe(t) + ff,
        off_be(t),
        off_be(t) + ee,
        off_sv(t) + vv,
        off_qs(t),
        off_qs(t) + qq,
        off_rc(t),
        off_rc(t) + rr,
        off_br(t),
        off_br(t) + yy,
        off_br(t) + yy + 1,
        off_br(t) + yy + 3,
        off_te(t),
        off_te(t) + 4,
        off_cc(t),
        off_cc(t) + cc,
        off_qu(t),
        off_qu(t) + uu,
        off_qu(t) + uu + 1,
    );
    let tt = spec_tokenize(s)->0;
    assert(tt.month == t.month);
    assert(tt.day == t.day);
    assert(tt.time == t.time);
    assert(tt.host == t.host);
    assert(tt.process_id == t.process_id);
    assert(tt.source_ip_port == t.source_ip_port);
    assert(tt.time_stamp_accepted == t.time_stamp_accepted);
    assert(tt.frontend_name == t.frontend_name);
    assert(tt.backend_name == t.backend_name);
    assert(tt.server_name == t.server_name);
    assert(tt.queues_stats == t.queues_stats);
    assert(tt.response_code == t.response_code);
    assert(tt.bytes_read == t.bytes_read);
    assert(tt.termination_state == t.termination_state);
    assert(tt.conn_counts == t.conn_counts);
    assert(tt.queue == t.queue);
    assert(tt.request == t.request);
    assert(tt =~= t);
}

/// Whitespace-normalization round trip: the tokens of any matched line,
/// reassembled with single spaces, match the grammar again and yield exactly
/// the same tokens.  (Every matched line yields well-shaped tokens, so this
/// applies to every decoded entry.)
pub proof fn lemma_canonical_line_round_trip(t: Tokens)
    requires
        tokens_wf(t),
    ensures
        spec_tokenize(canonical_line(t)) == Some(t),
{
    lemma_piece_facts_a(t);
    lemma_piece_facts_b(t);
    lemma_scan_facts_a1(t);
    lemma_scan_facts_a2(t);
    lemma_scan_facts_b(t);
    lemma_canonical_line_matches(t);
}

/// Decode-level normalization: any line that decodes completely still
/// decodes, to the very same tokens, after its whitespace runs are
/// normalized and its tokens reassembled into the canonical line.
pub proof fn lemma_decode_normalization(s: Seq<char>)
    requires
        crate::entry::spec_decode_ok(s),
    ensures
        spec_tokenize(canonical_line(spec_tokenize(s)->0)) == spec_tokenize(s),
        crate::entry::spec_decode_ok(canonical_line(spec_tokenize(s)->0)),
{
    crate::grammar::lemma_tokenize_shapes(s);
    lemma_canonical_line_round_trip(spec_tokenize(s)->0);
}

} // verus!
