//! The cursor-based codepoint collector: the standard's "collect a sequence
//! of code points" algorithm.
//!
//! The cursor counts whole Unicode scalar values, never encoded bytes, so
//! it always sits on a scalar-value boundary: advancing it can never split
//! the encoding of a multi-byte character, and the collected substring is
//! always a whole-scalar subrange of the input.

use vstd::prelude::*;

verus! {

/// Starting at the scalar value `position` points to, advances the cursor
/// one scalar value at a time while `predicate` returns true, stopping at
/// the first scalar value for which it returns false or at the end of the
/// input. Returns the scalar values consumed, as a fresh string; the cursor
/// is left at the first boundary not consumed.
///
/// A cursor at or beyond the end of the input (or any cursor into an empty
/// input) is a degenerate case, not an error: the result is empty and the
/// cursor is left unchanged.
pub fn collect_codepoints<P>(s: &str, position: &mut usize, predicate: P) -> (result: String) where
    P: Fn(&char) -> bool,

    requires
        forall|c: char| call_requires(predicate, (&c,)),
    ensures
        *old(position) > s@.len() ==> *final(position) == *old(position) && result@
            == Seq::<char>::empty(),
        *old(position) <= s@.len() ==> ({
            &&& *old(position) <= *final(position) <= s@.len()
            &&& result@ == s@.subrange(*old(position) as int, *final(position) as int)
            &&& forall|i: int|
                *old(position) <= i < *final(position) ==> call_ensures(
                    predicate,
                    (&s@[i],),
                    true,
                )
            &&& *final(position) < s@.len() ==> call_ensures(
                predicate,
                (&s@[*final(position) as int],),
                false,
            )
        }),
{
    let n = s.unicode_len();
    if *position >= n {
        let result = String::new();
        proof {
            if *position <= s@.len() {
                assert(result@ =~= s@.subrange(*position as int, *position as int));
            }
        }
        return result;
    }
    let start: usize = *position;
    loop
        invariant
            start <= *position <= n,
            n == s@.len(),
            forall|c: char| call_requires(predicate, (&c,)),
            forall|i: int|
                start <= i < *position ==> call_ensures(predicate, (&s@[i],), true),
        ensures
            start <= *position <= n,
            forall|i: int|
                start <= i < *position ==> call_ensures(predicate, (&s@[i],), true),
            *position < n ==> call_ensures(predicate, (&s@[*position as int],), false),
        decreases n - *position,
    {
        if *position == n {
            break;
        }
        let c = s.get_char(*position);
        if predicate(&c) {
            *position = *position + 1;
        } else {
            break;
        }
    }
    let piece = s.substring_char(start, *position);
    String::from_str(piece)
}

} // verus!
