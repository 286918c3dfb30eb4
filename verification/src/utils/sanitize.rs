//! Sanitation of text before it is sent to an API.

use vstd::prelude::*;
use crate::utils::text::{str_chars, string_from_chars};

verus! {

/// The character that decoders put in place of what they could not decode.
pub open spec fn replacement_character() -> char {
    '\u{FFFD}'
}

/// `s` without its replacement characters.
pub open spec fn without_replacements(s: Seq<char>) -> Seq<char> {
    s.filter(|c: char| c != replacement_character())
}

/// Removes every replacement character (U+FFFD) from a string.
///
/// A Rust string cannot hold an unpaired surrogate; what is left of one after
/// lossy decoding is a replacement character, and some APIs reject those.
pub fn sanitize_surrogates(s: &str) -> (clean: String)
    ensures
        clean@ == without_replacements(s@),
{
    let chars = str_chars(s);
    let mut kept: Vec<char> = Vec::new();
    let mut i: usize = 0;
    assert(chars@.take(0) =~= Seq::<char>::empty());
    while i < chars.len()
        invariant
            i <= chars.len(),
            chars@ == s@,
            kept@ == without_replacements(chars@.take(i as int)),
        decreases chars.len() - i,
    {
        proof {
            let pred = |c: char| c != replacement_character();
            let front = chars@.take(i as int);
            assert(chars@.take(i + 1) =~= front.push(chars@[i as int]));
            Seq::filter_distributes_over_add(front, seq![chars@[i as int]], pred);
            assert(front.push(chars@[i as int]) =~= front + seq![chars@[i as int]]);
            let one = seq![chars@[i as int]];
            assert(one.drop_last() =~= Seq::<char>::empty());
            reveal_with_fuel(Seq::filter, 2);
            assert(Seq::<char>::empty().filter(pred) =~= Seq::<char>::empty());
            if pred(chars@[i as int]) {
                assert(one.filter(pred) =~= one);
            } else {
                assert(one.filter(pred) =~= Seq::<char>::empty());
            }
        }
        if chars[i] != '\u{FFFD}' {
            kept.push(chars[i]);
            assert(kept@ =~= without_replacements(chars@.take(i as int)) + seq![chars@[i as int]]);
        } else {
            assert(kept@ =~= without_replacements(chars@.take(i as int)) + Seq::<char>::empty());
        }
        i += 1;
    }
    assert(chars@.take(chars.len() as int) =~= chars@);
    string_from_chars(kept.as_slice())
}

/// Sanitizes a string for use in an API request.
pub fn sanitize_for_api(s: &str) -> (clean: String)
    ensures
        clean@ == without_replacements(s@),
{
    sanitize_surrogates(s)
}

} // verus!
