//! Comparing texts character by character.

use vstd::prelude::*;
use vstd::std_specs::iter::IteratorSpec;

verus! {

/// `text` begins with the characters of `prefix`.
pub open spec fn has_prefix(text: Seq<char>, prefix: Seq<char>) -> bool {
    prefix.len() <= text.len() && text.subrange(0, prefix.len() as int) == prefix
}

/// The characters of `part` occur in `text`, one after the other.
pub open spec fn has_infix(text: Seq<char>, part: Seq<char>) -> bool {
    exists|i: int|
        0 <= i && i + part.len() <= text.len() && #[trigger] text.subrange(i, i + part.len())
            == part
}

/// `first` stands at the place `i` of `text`, and `second` right after it.
pub open spec fn pair_at(text: Seq<char>, i: int, first: char, second: char) -> bool {
    0 <= i && i + 1 < text.len() && text[i] == first && text[i + 1] == second
}

/// A text holds a part of two characters where the two stand side by side.
pub proof fn lemma_infix_of_two(text: Seq<char>, first: char, second: char)
    ensures
        has_infix(text, seq![first, second]) <==> exists|i: int| pair_at(text, i, first, second),
{
    let pair = seq![first, second];
    if has_infix(text, pair) {
        let i = choose|i: int|
            0 <= i && i + pair.len() <= text.len() && #[trigger] text.subrange(i, i + pair.len())
                == pair;
        let part = text.subrange(i, i + 2);
        assert(part[0] == text[i] && part[1] == text[i + 1]);
        assert(pair_at(text, i, first, second));
    }
    if exists|i: int| pair_at(text, i, first, second) {
        let i = choose|i: int| pair_at(text, i, first, second);
        assert(text.subrange(i, i + pair.len()) =~= pair);
    }
}

/// Whether two texts hold the same characters.
pub fn same_text(a: &str, b: &str) -> (same: bool)
    ensures
        same == (a@ == b@),
{
    let mut left = a.chars();
    let mut right = b.chars();
    let ghost mut seen: int = 0;
    loop
        invariant
            0 <= seen <= a@.len(),
            seen <= b@.len(),
            left.obeys_prophetic_iter_laws(),
            right.obeys_prophetic_iter_laws(),
            left.remaining() == a@.skip(seen),
            right.remaining() == b@.skip(seen),
            a@.take(seen) == b@.take(seen),
        decreases a@.len() - seen,
    {
        let x = left.next();
        let y = right.next();
        match (x, y) {
            (None, None) => {
                assert(a@.take(seen) =~= a@);
                assert(b@.take(seen) =~= b@);
                return true;
            },
            (Some(p), Some(q)) => {
                assert(p == a@[seen] && q == b@[seen]);
                if p != q {
                    return false;
                }
                assert(a@.skip(seen).drop_first() =~= a@.skip(seen + 1));
                assert(b@.skip(seen).drop_first() =~= b@.skip(seen + 1));
                assert(a@.take(seen + 1) =~= a@.take(seen).push(p));
                assert(b@.take(seen + 1) =~= b@.take(seen).push(q));
                proof {
                    seen = seen + 1;
                }
            },
            _ => {
                assert(a@.len() != b@.len());
                return false;
            },
        }
    }
}

/// Whether `text` begins with `prefix`.
pub fn starts_with(text: &str, prefix: &str) -> (found: bool)
    ensures
        found == has_prefix(text@, prefix@),
{
    let mut left = text.chars();
    let mut right = prefix.chars();
    let ghost mut seen: int = 0;
    loop
        invariant
            0 <= seen <= text@.len(),
            seen <= prefix@.len(),
            left.obeys_prophetic_iter_laws(),
            right.obeys_prophetic_iter_laws(),
            left.remaining() == text@.skip(seen),
            right.remaining() == prefix@.skip(seen),
            text@.take(seen) == prefix@.take(seen),
        decreases prefix@.len() - seen,
    {
        let q = match right.next() {
            Some(q) => q,
            None => {
                assert(prefix@.take(seen) =~= prefix@);
                return true;
            },
        };
        let p = match left.next() {
            Some(p) => p,
            None => {
                return false;
            },
        };
        assert(p == text@[seen] && q == prefix@[seen]);
        if p != q {
            assert(prefix@.len() <= text@.len() ==> text@.subrange(0, prefix@.len() as int)[seen]
                == p);
            return false;
        }
        assert(text@.skip(seen).drop_first() =~= text@.skip(seen + 1));
        assert(prefix@.skip(seen).drop_first() =~= prefix@.skip(seen + 1));
        assert(text@.take(seen + 1) =~= text@.take(seen).push(p));
        assert(prefix@.take(seen + 1) =~= prefix@.take(seen).push(q));
        proof {
            seen = seen + 1;
        }
    }
}

/// Whether `first` stands in `text` with `second` right after it.
pub fn holds_pair(text: &str, first: char, second: char) -> (found: bool)
    ensures
        found == has_infix(text@, seq![first, second]),
{
    proof {
        lemma_infix_of_two(text@, first, second);
    }
    let mut it = text.chars();
    let mut last = match it.next() {
        Some(c) => c,
        None => {
            return false;
        },
    };
    let ghost mut seen: int = 1;
    assert(it.remaining() =~= text@.skip(1));
    loop
        invariant
            1 <= seen <= text@.len(),
            it.obeys_prophetic_iter_laws(),
            it.remaining() == text@.skip(seen),
            last == text@[seen - 1],
            forall|i: int| i + 1 < seen ==> !pair_at(text@, i, first, second),
            has_infix(text@, seq![first, second]) <==> exists|i: int|
                pair_at(text@, i, first, second),
        decreases text@.len() - seen,
    {
        let c = match it.next() {
            Some(c) => c,
            None => {
                return false;
            },
        };
        assert(c == text@[seen]);
        assert(text@.skip(seen).drop_first() =~= text@.skip(seen + 1));
        if last == first && c == second {
            assert(pair_at(text@, seen - 1, first, second));
            return true;
        }
        last = c;
        proof {
            seen = seen + 1;
        }
    }
}

} // verus!
