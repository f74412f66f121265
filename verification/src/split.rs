//! Splitting a string on `/`, and joining the pieces back: the shared core of
//! the slash-delimited sub-field decoders.

use vstd::prelude::*;

verus! {

/// `s` contains no slash.
pub open spec fn no_slash(s: Seq<char>) -> bool {
    forall|j: int| 0 <= j < s.len() ==> #[trigger] s[j] != '/'
}

/// Index of the first slash of `s`, or `s.len()` when there is none.
pub open spec fn first_slash(s: Seq<char>) -> nat
    decreases s.len(),
{
    if s.len() == 0 {
        0
    } else if s[0] == '/' {
        0
    } else {
        1 + first_slash(s.drop_first())
    }
}

pub proof fn lemma_first_slash(s: Seq<char>)
    ensures
        first_slash(s) <= s.len(),
        forall|j: int| 0 <= j < first_slash(s) ==> #[trigger] s[j] != '/',
        first_slash(s) < s.len() ==> s[first_slash(s) as int] == '/',
    decreases s.len(),
{
    if s.len() > 0 && s[0] != '/' {
        lemma_first_slash(s.drop_first());
        assert forall|j: int| 0 <= j < first_slash(s) implies #[trigger] s[j] != '/' by {
            if j > 0 {
                assert(s.drop_first()[j - 1] == s[j]);
            }
        }
    }
}

pub proof fn lemma_first_slash_unique(s: Seq<char>, k: int)
    requires
        0 <= k <= s.len(),
        forall|j: int| 0 <= j < k ==> #[trigger] s[j] != '/',
        k < s.len() ==> s[k] == '/',
    ensures
        first_slash(s) == k,
    decreases s.len(),
{
    if k == 0 {
    } else {
        assert(s[0] != '/');
        assert forall|j: int| 0 <= j < k - 1 implies #[trigger] s.drop_first()[j] != '/' by {
            assert(s.drop_first()[j] == s[j + 1]);
        }
        assert(k - 1 < s.drop_first().len() ==> s.drop_first()[k - 1] == s[k]);
        lemma_first_slash_unique(s.drop_first(), k - 1);
    }
}

/// The segments of `s` between its slashes, in order.  Always non-empty;
/// a string without a slash is one segment.
pub open spec fn split_slash(s: Seq<char>) -> Seq<Seq<char>>
    decreases s.len(),
{
    let i = first_slash(s) as int;
    if i < s.len() {
        seq![s.subrange(0, i)] + split_slash(s.subrange(i + 1, s.len() as int))
    } else {
        seq![s]
    }
}

/// The segments joined back with `/`.
pub open spec fn join_slash(parts: Seq<Seq<char>>) -> Seq<char>
    decreases parts.len(),
{
    if parts.len() == 0 {
        Seq::empty()
    } else if parts.len() == 1 {
        parts[0]
    } else {
        parts[0] + seq!['/'] + join_slash(parts.drop_first())
    }
}

pub proof fn lemma_split_len(s: Seq<char>)
    ensures
        split_slash(s).len() >= 1,
{
}

/// Joining the segments of a split restores the string.
pub proof fn lemma_join_split(s: Seq<char>)
    ensures
        join_slash(split_slash(s)) == s,
    decreases s.len(),
{
    lemma_first_slash(s);
    let i = first_slash(s) as int;
    if i < s.len() {
        let rest = s.subrange(i + 1, s.len() as int);
        lemma_join_split(rest);
        lemma_split_len(rest);
        let parts = split_slash(s);
        assert(parts.len() >= 2);
        assert(parts.drop_first() =~= split_slash(rest));
        assert(join_slash(parts) =~= s.subrange(0, i) + seq!['/'] + rest);
        assert(s.subrange(0, i) + seq!['/'] + rest =~= s);
    }
}

/// Splitting a join of slash-free segments restores the segments.
pub proof fn lemma_split_join(parts: Seq<Seq<char>>)
    requires
        parts.len() >= 1,
        forall|k: int| 0 <= k < parts.len() ==> no_slash(#[trigger] parts[k]),
    ensures
        split_slash(join_slash(parts)) == parts,
    decreases parts.len(),
{
    let s = join_slash(parts);
    if parts.len() == 1 {
        lemma_first_slash_unique(s, s.len() as int);
        assert(split_slash(s) =~= seq![parts[0]]);
        assert(split_slash(s) =~= parts);
    } else {
        let head = parts[0];
        let rest = parts.drop_first();
        assert(s == head + seq!['/'] + join_slash(rest));
        assert forall|j: int| 0 <= j < head.len() implies #[trigger] s[j] != '/' by {
            assert(s[j] == head[j]);
        }
        assert(s[head.len() as int] == '/');
        lemma_first_slash_unique(s, head.len() as int);
        assert(s.subrange(0, head.len() as int) =~= head);
        assert(s.subrange(head.len() as int + 1, s.len() as int) =~= join_slash(rest));
        assert forall|k: int| 0 <= k < rest.len() implies no_slash(#[trigger] rest[k]) by {
            assert(rest[k] == parts[k + 1]);
        }
        lemma_split_join(rest);
        assert(split_slash(s) =~= seq![head] + split_slash(join_slash(rest)));
        assert(seq![head] + rest =~= parts);
    }
}

/// Splits a string on `/`, keeping empty segments, as [`split_slash`] says.
pub fn split_slash_exec(s: &str) -> (parts: Vec<String>)
    ensures
        parts@.map_values(|p: String| p@) == split_slash(s@),
{
    let n = s.unicode_len();
    let mut parts: Vec<String> = Vec::new();
    let mut seg_start: usize = 0;
    let mut i: usize = 0;
    proof {
        assert(s@.subrange(0, n as int) =~= s@);
        assert(parts@.map_values(|p: String| p@) =~= Seq::<Seq<char>>::empty());
    }
    while i < n
        invariant
            seg_start <= i <= n,
            n == s@.len(),
            forall|j: int| seg_start <= j < i ==> #[trigger] s@[j] != '/',
            split_slash(s@) == parts@.map_values(|p: String| p@) + split_slash(
                s@.subrange(seg_start as int, n as int),
            ),
        decreases n - i,
    {
        let c = s.get_char(i);
        if c as u32 == 47 {
            assert(s@[i as int] == '/') by {
                assert(c == s@[i as int]);
            }
            let seg = s.substring_char(seg_start, i).to_owned();
            proof {
                let tail = s@.subrange(seg_start as int, n as int);
                let k = i - seg_start;
                assert forall|j: int| 0 <= j < k implies #[trigger] tail[j] != '/' by {
                    assert(tail[j] == s@[seg_start + j]);
                }
                assert(tail[k as int] == s@[i as int]);
                lemma_first_slash_unique(tail, k as int);
                assert(tail.subrange(0, k as int) =~= s@.subrange(seg_start as int, i as int));
                assert(tail.subrange(k + 1, tail.len() as int) =~= s@.subrange(
                    i + 1,
                    n as int,
                ));
                assert(split_slash(tail) == seq![seg@] + split_slash(
                    s@.subrange(i + 1, n as int),
                ));
                assert((parts@ + seq![seg]).map_values(|p: String| p@) =~= parts@.map_values(
                    |p: String| p@,
                ) + seq![seg@]);
                assert(parts@.map_values(|p: String| p@) + (seq![seg@] + split_slash(
                    s@.subrange(i + 1, n as int),
                )) =~= (parts@.map_values(|p: String| p@) + seq![seg@]) + split_slash(
                    s@.subrange(i + 1, n as int),
                ));
            }
            parts.push(seg);
            seg_start = i + 1;
        }
        i = i + 1;
    }
    let seg = s.substring_char(seg_start, n).to_owned();
    proof {
        let tail = s@.subrange(seg_start as int, n as int);
        assert forall|j: int| 0 <= j < tail.len() implies #[trigger] tail[j] != '/' by {
            assert(tail[j] == s@[seg_start + j]);
        }
        lemma_first_slash_unique(tail, tail.len() as int);
        assert(split_slash(tail) == seq![tail]);
        assert(seg@ == tail);
        assert((parts@ + seq![seg]).map_values(|p: String| p@) =~= parts@.map_values(
            |p: String| p@,
        ) + seq![seg@]);
    }
    parts.push(seg);
    parts
}

} // verus!
