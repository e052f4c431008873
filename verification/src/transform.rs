//! Whole-string transforms: newline normalization, newline stripping, and
//! ASCII-whitespace trimming.
//!
//! Each transform is total and pure, and its result is pinned down by an
//! open spec function over the string's sequence of scalar values.

use vstd::prelude::*;

verus! {

broadcast use vstd::seq_lib::group_filter_ensures;

/// True of the two newline scalar values, U+000A LINE FEED and
/// U+000D CARRIAGE RETURN.
pub open spec fn spec_is_newline(c: char) -> bool {
    c == '\u{000A}' || c == '\u{000D}'
}

/// One of the five ASCII whitespace scalar values: U+0009 TAB,
/// U+000A LINE FEED, U+000C FORM FEED, U+000D CARRIAGE RETURN,
/// U+0020 SPACE.
pub open spec fn spec_is_ascii_whitespace(c: char) -> bool {
    c == '\u{0009}' || c == '\u{000A}' || c == '\u{000C}' || c == '\u{000D}' || c == '\u{0020}'
}

/// The newline-normalized form of a sequence of scalar values: every
/// CR LF pair becomes a single LF, and every remaining lone CR becomes LF.
/// The pair rule takes precedence, so CR LF yields one LF, never two.
pub open spec fn spec_normalize_newlines(s: Seq<char>) -> Seq<char>
    decreases s.len(),
{
    if s.len() == 0 {
        Seq::empty()
    } else if s[0] == '\u{000D}' && s.len() >= 2 && s[1] == '\u{000A}' {
        seq!['\u{000A}'] + spec_normalize_newlines(s.skip(2))
    } else if s[0] == '\u{000D}' {
        seq!['\u{000A}'] + spec_normalize_newlines(s.skip(1))
    } else {
        seq![s[0]] + spec_normalize_newlines(s.skip(1))
    }
}

/// The sequence with every LF and CR scalar value removed; all other
/// scalar values keep their relative order.
pub open spec fn spec_strip_newlines(s: Seq<char>) -> Seq<char> {
    s.filter(|c: char| !spec_is_newline(c))
}

/// The sequence without its maximal all-whitespace prefix.
pub open spec fn spec_trim_start(s: Seq<char>) -> Seq<char>
    decreases s.len(),
{
    if s.len() > 0 && spec_is_ascii_whitespace(s[0]) {
        spec_trim_start(s.skip(1))
    } else {
        s
    }
}

/// The sequence without its maximal all-whitespace suffix.
pub open spec fn spec_trim_end(s: Seq<char>) -> Seq<char>
    decreases s.len(),
{
    if s.len() > 0 && spec_is_ascii_whitespace(s.last()) {
        spec_trim_end(s.drop_last())
    } else {
        s
    }
}

/// The sequence without its maximal all-whitespace prefix and suffix.
pub open spec fn spec_trim_ascii_whitespace(s: Seq<char>) -> Seq<char> {
    spec_trim_end(spec_trim_start(s))
}

/// Normalizing never lengthens a sequence: each step of the definition
/// emits exactly one scalar value for one or two consumed.
pub proof fn lemma_normalize_newlines_len(s: Seq<char>)
    ensures
        spec_normalize_newlines(s).len() <= s.len(),
    decreases s.len(),
{
    if s.len() == 0 {
    } else if s[0] == '\u{000D}' && s.len() >= 2 && s[1] == '\u{000A}' {
        lemma_normalize_newlines_len(s.skip(2));
    } else if s[0] == '\u{000D}' {
        lemma_normalize_newlines_len(s.skip(1));
    } else {
        lemma_normalize_newlines_len(s.skip(1));
    }
}

/// Replaces every U+000D U+000A pair with a single U+000A, then every
/// remaining lone U+000D with U+000A. The two passes are fused: a CR LF
/// pair is recognized first, so it never becomes two LFs.
pub fn normalize_newlines(s: &str) -> (result: String)
    ensures
        result@ == spec_normalize_newlines(s@),
        result@.len() <= s@.len(),
{
    let n = s.unicode_len();
    let mut result = String::new();
    let mut i: usize = 0;
    proof {
        assert(s@.skip(0) =~= s@);
        assert(result@ + spec_normalize_newlines(s@) =~= spec_normalize_newlines(s@));
    }
    while i < n
        invariant
            i <= n,
            n == s@.len(),
            spec_normalize_newlines(s@) == result@ + spec_normalize_newlines(
                s@.skip(i as int),
            ),
            result@.len() <= i,
        decreases n - i,
    {
        let ghost pre = s@.skip(i as int);
        let ghost acc = result@;
        let c = s.get_char(i);
        if c == '\u{000D}' {
            let mut step: usize = 1;
            if i + 1 < n {
                let c2 = s.get_char(i + 1);
                if c2 == '\u{000A}' {
                    step = 2;
                }
            }
            result.append("\u{000A}");
            proof {
                reveal_strlit("\u{000A}");
                assert("\u{000A}"@ =~= seq!['\u{000A}']);
                assert(pre[0] == '\u{000D}');
                if step == 2 {
                    assert(pre[1] == '\u{000A}');
                    assert(pre.skip(2) =~= s@.skip(i + 2));
                    assert(spec_normalize_newlines(pre) == seq!['\u{000A}']
                        + spec_normalize_newlines(s@.skip(i + 2)));
                } else {
                    assert(pre.len() >= 2 ==> pre[1] == s@[i + 1] && pre[1] != '\u{000A}');
                    assert(pre.skip(1) =~= s@.skip(i + 1));
                    assert(spec_normalize_newlines(pre) == seq!['\u{000A}']
                        + spec_normalize_newlines(s@.skip(i + 1)));
                }
                assert(result@ == acc + seq!['\u{000A}']);
                assert(acc + spec_normalize_newlines(pre) == result@ + spec_normalize_newlines(
                    s@.skip(i + step),
                ));
            }
            i = i + step;
        } else {
            let piece = s.substring_char(i, i + 1);
            result.append(piece);
            proof {
                assert(pre[0] == s@[i as int] && pre[0] != '\u{000D}');
                assert(piece@ =~= seq![pre[0]]);
                assert(pre.skip(1) =~= s@.skip(i + 1));
                assert(spec_normalize_newlines(pre) == seq![pre[0]]
                    + spec_normalize_newlines(s@.skip(i + 1)));
                assert(result@ == acc + seq![pre[0]]);
                assert(acc + spec_normalize_newlines(pre) == result@ + spec_normalize_newlines(
                    s@.skip(i + 1),
                ));
            }
            i = i + 1;
        }
    }
    proof {
        assert(s@.skip(n as int) =~= Seq::<char>::empty());
        assert(result@ + Seq::<char>::empty() =~= result@);
        lemma_normalize_newlines_len(s@);
    }
    result
}

/// Produces a new string with every U+000A LINE FEED and U+000D CARRIAGE
/// RETURN removed; all other scalar values keep their relative order.
pub fn strip_newlines(s: &str) -> (result: String)
    ensures
        result@ == spec_strip_newlines(s@),
        result@.len() <= s@.len(),
        forall|i: int| 0 <= i < result@.len() ==> !spec_is_newline(#[trigger] result@[i]),
{
    let n = s.unicode_len();
    let mut result = String::new();
    let mut i: usize = 0;
    proof {
        reveal(Seq::filter);
        assert(s@.take(0) =~= Seq::<char>::empty());
        assert(Seq::<char>::empty().filter(|c: char| !spec_is_newline(c))
            =~= Seq::<char>::empty());
    }
    while i < n
        invariant
            i <= n,
            n == s@.len(),
            result@ == spec_strip_newlines(s@.take(i as int)),
        decreases n - i,
    {
        let ghost prefix = s@.take(i as int);
        let ghost acc = result@;
        let c = s.get_char(i);
        if !(c == '\u{000A}' || c == '\u{000D}') {
            let piece = s.substring_char(i, i + 1);
            result.append(piece);
            proof {
                assert(piece@ =~= seq![s@[i as int]]);
                assert(result@ =~= acc.push(s@[i as int]));
            }
        }
        proof {
            reveal(Seq::filter);
            let longer = s@.take(i + 1);
            assert(longer.drop_last() =~= prefix);
            assert(longer.len() > 0);
            assert(longer.last() == s@[i as int]);
            if !spec_is_newline(s@[i as int]) {
                assert(spec_strip_newlines(longer) == spec_strip_newlines(prefix).push(
                    s@[i as int],
                ));
            } else {
                assert(spec_strip_newlines(longer) == spec_strip_newlines(prefix));
            }
        }
        i = i + 1;
    }
    proof {
        assert(s@.take(n as int) =~= s@);
    }
    result
}

/// A sequence none of whose scalar values is a newline is unchanged by
/// stripping.
pub proof fn lemma_strip_newlines_identity(t: Seq<char>)
    requires
        forall|i: int| 0 <= i < t.len() ==> !spec_is_newline(#[trigger] t[i]),
    ensures
        spec_strip_newlines(t) == t,
    decreases t.len(),
{
    reveal(Seq::filter);
    if t.len() == 0 {
        assert(spec_strip_newlines(t) =~= t);
    } else {
        assert forall|i: int| 0 <= i < t.drop_last().len() implies !spec_is_newline(
            #[trigger] t.drop_last()[i],
        ) by {
            assert(t.drop_last()[i] == t[i]);
        }
        lemma_strip_newlines_identity(t.drop_last());
        assert(t.last() == t[t.len() - 1]);
        assert(!spec_is_newline(t.last()));
        assert(spec_strip_newlines(t) == spec_strip_newlines(t.drop_last()).push(t.last()));
        assert(spec_strip_newlines(t) =~= t);
    }
}

/// Stripping newlines is idempotent: stripping an already-stripped
/// sequence changes nothing.
pub proof fn lemma_strip_newlines_idempotent(s: Seq<char>)
    ensures
        spec_strip_newlines(spec_strip_newlines(s)) == spec_strip_newlines(s),
{
    let t = spec_strip_newlines(s);
    assert(forall|i: int| 0 <= i < t.len() ==> !spec_is_newline(#[trigger] t[i]));
    lemma_strip_newlines_identity(t);
}

/// Decides whether a codepoint is one of the five ASCII whitespace scalar
/// values.
fn is_ascii_whitespace_char(c: char) -> (r: bool)
    ensures
        r == spec_is_ascii_whitespace(c),
{
    c == '\u{0009}' || c == '\u{000A}' || c == '\u{000C}' || c == '\u{000D}' || c == '\u{0020}'
}

/// Returns the slice of the input that remains after removing the maximal
/// ASCII-whitespace prefix and suffix. No allocation: the result borrows
/// from the input.
pub fn trim_ascii_whitespace(s: &str) -> (result: &str)
    ensures
        result@ == spec_trim_ascii_whitespace(s@),
{
    let n = s.unicode_len();
    let mut start: usize = 0;
    proof {
        assert(s@.skip(0) =~= s@);
    }
    while start < n && is_ascii_whitespace_char(s.get_char(start))
        invariant
            start <= n,
            n == s@.len(),
            spec_trim_start(s@) == spec_trim_start(s@.skip(start as int)),
        decreases n - start,
    {
        proof {
            let rest = s@.skip(start as int);
            assert(rest[0] == s@[start as int]);
            assert(rest.skip(1) =~= s@.skip(start + 1));
        }
        start = start + 1;
    }
    proof {
        let rest = s@.skip(start as int);
        if start < n {
            assert(rest[0] == s@[start as int]);
            assert(!spec_is_ascii_whitespace(rest[0]));
        } else {
            assert(rest =~= Seq::<char>::empty());
        }
        assert(spec_trim_start(s@) == rest);
        assert(rest =~= s@.subrange(start as int, n as int));
    }
    let mut end: usize = n;
    while end > start && is_ascii_whitespace_char(s.get_char(end - 1))
        invariant
            start <= end <= n,
            n == s@.len(),
            spec_trim_start(s@) == s@.skip(start as int),
            spec_trim_end(s@.skip(start as int)) == spec_trim_end(
                s@.subrange(start as int, end as int),
            ),
        decreases end,
    {
        proof {
            let t = s@.subrange(start as int, end as int);
            assert(t.last() == s@[end - 1]);
            assert(t.drop_last() =~= s@.subrange(start as int, end - 1));
        }
        end = end - 1;
    }
    proof {
        let t = s@.subrange(start as int, end as int);
        if end > start {
            assert(t.last() == s@[end - 1]);
            assert(!spec_is_ascii_whitespace(t.last()));
        } else {
            assert(t =~= Seq::<char>::empty());
        }
        assert(spec_trim_end(t) == t);
        assert(s@.skip(start as int) =~= s@.subrange(start as int, n as int));
    }
    s.substring_char(start, end)
}

/// The trimmed form of a sequence is a contiguous subrange of it, so
/// trimming never invents scalar values: its whitespace-free interior is
/// kept verbatim.
pub proof fn lemma_trim_end_is_prefix(s: Seq<char>)
    ensures
        spec_trim_end(s).len() <= s.len(),
        forall|i: int|
            0 <= i < spec_trim_end(s).len() ==> #[trigger] spec_trim_end(s)[i] == s[i],
    decreases s.len(),
{
    if s.len() > 0 && spec_is_ascii_whitespace(s.last()) {
        lemma_trim_end_is_prefix(s.drop_last());
    }
}

/// After trimming from the front, the head (if any) is not whitespace.
proof fn lemma_trim_start_head(s: Seq<char>)
    ensures
        spec_trim_start(s).len() == 0 || !spec_is_ascii_whitespace(spec_trim_start(s)[0]),
    decreases s.len(),
{
    if s.len() > 0 && spec_is_ascii_whitespace(s[0]) {
        lemma_trim_start_head(s.skip(1));
    }
}

/// After trimming from the back, the last scalar value (if any) is not
/// whitespace.
proof fn lemma_trim_end_last(s: Seq<char>)
    ensures
        spec_trim_end(s).len() == 0 || !spec_is_ascii_whitespace(spec_trim_end(s).last()),
    decreases s.len(),
{
    if s.len() > 0 && spec_is_ascii_whitespace(s.last()) {
        lemma_trim_end_last(s.drop_last());
    }
}

/// Trimming ASCII whitespace is idempotent: trimming an already-trimmed
/// sequence changes nothing.
pub proof fn lemma_trim_ascii_whitespace_idempotent(s: Seq<char>)
    ensures
        spec_trim_ascii_whitespace(spec_trim_ascii_whitespace(s))
            == spec_trim_ascii_whitespace(s),
{
    let u = spec_trim_start(s);
    let t = spec_trim_end(u);
    lemma_trim_start_head(s);
    lemma_trim_end_is_prefix(u);
    lemma_trim_end_last(u);
    if t.len() > 0 {
        assert(t[0] == u[0]);
        assert(!spec_is_ascii_whitespace(t[0]));
    }
    assert(spec_trim_start(t) == t);
    assert(spec_trim_end(t) == t);
}

/// Trimming a sequence made solely of ASCII whitespace yields the empty
/// sequence.
pub proof fn lemma_trim_all_whitespace_empty(s: Seq<char>)
    requires
        forall|i: int| 0 <= i < s.len() ==> spec_is_ascii_whitespace(#[trigger] s[i]),
    ensures
        spec_trim_ascii_whitespace(s) == Seq::<char>::empty(),
    decreases s.len(),
{
    if s.len() == 0 {
        assert(spec_trim_start(s) == s);
    } else {
        lemma_trim_all_whitespace_empty(s.skip(1));
        assert(spec_trim_start(s) == spec_trim_start(s.skip(1)));
        assert(spec_trim_end(spec_trim_start(s.skip(1))) == Seq::<char>::empty());
    }
}

} // verus!
