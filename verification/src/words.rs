//! Single-precision numbers as the 32-bit words that encode them.
//!
//! Audio samples, features and logits travel through this library as their
//! IEEE 754 bit patterns. The sign is the top bit; below it, the words of
//! non-negative numbers are ordered as the numbers are, and the words from
//! `0x7f80_0000` on stand for infinity and for what is not a number.

use vstd::prelude::*;

verus! {

/// The word of positive zero.
pub const ZERO_WORD: u32 = 0;

/// The bit that carries the sign.
pub const SIGN_BIT: u32 = 0x8000_0000;

/// The word of positive infinity, the first that is not finite.
pub const INFINITY_WORD: u32 = 0x7f80_0000;

/// `w` encodes a finite number.
pub open spec fn finite_word(w: u32) -> bool {
    w % SIGN_BIT < INFINITY_WORD
}

/// Where a finite number stands among the others: two finite numbers compare as
/// their ranks do, and both zeros have rank zero.
pub open spec fn word_rank(w: u32) -> int {
    if w < SIGN_BIT {
        w as int
    } else {
        SIGN_BIT - w
    }
}

/// `w` where it is finite, else zero.
pub open spec fn finite_or_zero_spec(w: u32) -> u32 {
    if finite_word(w) {
        w
    } else {
        ZERO_WORD
    }
}

/// Whether `w` encodes a finite number.
pub fn is_finite(w: u32) -> (r: bool)
    ensures
        r == finite_word(w),
{
    w % SIGN_BIT < INFINITY_WORD
}

/// `w` where it is finite, else zero.
pub fn finite_or_zero(w: u32) -> (r: u32)
    ensures
        r == finite_or_zero_spec(w),
{
    if is_finite(w) {
        w
    } else {
        ZERO_WORD
    }
}

/// Replaces by zero every word that is not finite.
pub fn finite_words(words: &[u32]) -> (r: Vec<u32>)
    ensures
        r@ == Seq::new(words@.len(), |i: int| finite_or_zero_spec(words@[i])),
{
    let mut r: Vec<u32> = Vec::new();
    let mut i: usize = 0;
    while i < words.len()
        invariant
            i <= words@.len(),
            r@ == Seq::new(i as nat, |j: int| finite_or_zero_spec(words@[j])),
        decreases words@.len() - i,
    {
        r.push(finite_or_zero(words[i]));
        i += 1;
    }
    r
}

fn rank(w: u32) -> (r: i64)
    ensures
        r == word_rank(w),
{
    if w < SIGN_BIT {
        w as i64
    } else {
        SIGN_BIT as i64 - w as i64
    }
}

/// Position `i` holds the largest finite number of `words`, and the first such.
pub open spec fn is_first_maximum(words: Seq<u32>, i: int) -> bool {
    &&& 0 <= i < words.len()
    &&& finite_word(words[i])
    &&& forall|j: int|
        0 <= j < words.len() && finite_word(#[trigger] words[j]) ==> word_rank(words[j])
            <= word_rank(words[i])
    &&& forall|j: int|
        0 <= j < i && finite_word(#[trigger] words[j]) ==> word_rank(words[j]) < word_rank(words[i])
}

/// `words` holds a finite number.
pub open spec fn some_finite(words: Seq<u32>) -> bool {
    exists|i: int| 0 <= i < words.len() && finite_word(#[trigger] words[i])
}

/// The position of the first largest finite number of `words`, or zero where
/// none is finite.
pub open spec fn best_index(words: Seq<u32>) -> int {
    if some_finite(words) {
        choose|i: int| is_first_maximum(words, i)
    } else {
        0
    }
}

/// At most one position is the first maximum.
pub proof fn first_maximum_is_unique(words: Seq<u32>, i: int, j: int)
    requires
        is_first_maximum(words, i),
        is_first_maximum(words, j),
    ensures
        i == j,
{
}

/// The best position is a first maximum wherever some number is finite.
pub proof fn best_index_is_first_maximum(words: Seq<u32>)
    requires
        some_finite(words),
    ensures
        is_first_maximum(words, best_index(words)),
    decreases words.len(),
{
    let shorter = words.drop_last();
    let last = words.len() - 1;
    if some_finite(shorter) {
        best_index_is_first_maximum(shorter);
        let b = best_index(shorter);
        if finite_word(words[last]) && word_rank(words[last]) > word_rank(words[b]) {
            assert forall|j: int|
                0 <= j < words.len() && finite_word(#[trigger] words[j]) implies word_rank(words[j])
                <= word_rank(words[last]) by {
                if j < last {
                    assert(shorter[j] == words[j]);
                }
            }
            assert forall|j: int|
                0 <= j < last && finite_word(#[trigger] words[j]) implies word_rank(words[j])
                < word_rank(words[last]) by {
                assert(shorter[j] == words[j]);
            }
            assert(is_first_maximum(words, last));
        } else {
            assert forall|j: int|
                0 <= j < words.len() && finite_word(#[trigger] words[j]) implies word_rank(words[j])
                <= word_rank(words[b]) by {
                if j < last {
                    assert(shorter[j] == words[j]);
                }
            }
            assert forall|j: int|
                0 <= j < b && finite_word(#[trigger] words[j]) implies word_rank(words[j])
                < word_rank(words[b]) by {
                assert(shorter[j] == words[j]);
            }
            assert(is_first_maximum(words, b));
        }
    } else {
        let i = choose|i: int| 0 <= i < words.len() && finite_word(#[trigger] words[i]);
        if i < last {
            assert(finite_word(shorter[i]));
        }
        assert forall|j: int| 0 <= j < last implies !finite_word(#[trigger] words[j]) by {
            assert(shorter[j] == words[j]);
        }
        assert(is_first_maximum(words, last));
    }
}

/// The position of the first largest finite number, or zero where none is
/// finite, as a token number.
pub fn argmax(words: &[u32]) -> (r: i32)
    ensures
        r == best_index(words@) as i32,
{
    let mut best: usize = 0;
    let mut best_rank: i64 = i64::MIN;
    let mut i: usize = 0;
    while i < words.len()
        invariant
            i <= words@.len(),
            best_rank == i64::MIN ==> best == 0 && !some_finite(words@.take(i as int)),
            best_rank != i64::MIN ==> is_first_maximum(words@.take(i as int), best as int)
                && best_rank == word_rank(words@[best as int]),
        decreases words@.len() - i,
    {
        let ghost seen = words@.take(i as int);
        let ghost next = words@.take(i + 1);
        let w = words[i];
        assert forall|j: int| 0 <= j < i implies seen[j] == #[trigger] next[j] by {}
        assert(next[i as int] == w);
        if is_finite(w) && rank(w) > best_rank {
            best = i;
            best_rank = rank(w);
            assert forall|j: int| 0 <= j < i && finite_word(#[trigger] next[j]) implies word_rank(
                next[j],
            ) < word_rank(w) by {
                assert(finite_word(seen[j]));
            }
            assert(is_first_maximum(next, i as int));
        } else if best_rank == i64::MIN {
            assert(!finite_word(w));
            assert forall|j: int| 0 <= j < next.len() implies !finite_word(#[trigger] next[j]) by {
                if j < i {
                    assert(!finite_word(seen[j]));
                }
            }
        } else {
            assert(next[best as int] == seen[best as int]);
            assert forall|j: int|
                0 <= j < next.len() && finite_word(#[trigger] next[j]) implies word_rank(next[j])
                <= word_rank(next[best as int]) by {
                if j < i {
                    assert(finite_word(seen[j]));
                }
            }
            assert(is_first_maximum(next, best as int));
        }
        i += 1;
    }
    assert(words@.take(i as int) =~= words@);
    proof {
        if some_finite(words@) {
            best_index_is_first_maximum(words@);
            first_maximum_is_unique(words@, best as int, best_index(words@));
        }
    }
    best as i32
}

/// A word is finite unless its exponent is all ones, and words rank as their numbers
/// compare: by magnitude where both are positive, the other way round where both are
/// negative, and with both zeros alike.
pub proof fn ranks_order_words_as_numbers(a: u32, b: u32)
    ensures
        ({
            let magnitude = |w: u32|
                if w < 0x8000_0000 {
                    w as int
                } else {
                    w - 0x8000_0000
                };
            let negative = |w: u32| w >= 0x8000_0000 && magnitude(w) > 0;
            &&& finite_word(a) <==> magnitude(a) < 0x7f80_0000
            &&& word_rank(a) < word_rank(b) <==> if negative(a) {
                !negative(b) || magnitude(b) < magnitude(a)
            } else {
                !negative(b) && magnitude(a) < magnitude(b)
            }
        }),
{
}

/// The best position holds a finite word that no finite word exceeds and that every
/// finite word before it falls short of. It is zero where no word is finite.
pub proof fn the_best_position_is_the_first_maximum(words: &[u32], r: i32)
    requires
        call_ensures(argmax, (words,), r),
        words@.len() <= i32::MAX,
    ensures
        (forall|j: int| 0 <= j < words@.len() ==> !finite_word(#[trigger] words@[j])) ==> r == 0,
        forall|j: int|
            0 <= j < words@.len() && finite_word(#[trigger] words@[j]) ==> {
                &&& 0 <= r < words@.len()
                &&& finite_word(words@[r as int])
                &&& word_rank(words@[j]) <= word_rank(words@[r as int])
                &&& j < r ==> word_rank(words@[j]) < word_rank(words@[r as int])
            },
{
    if some_finite(words@) {
        best_index_is_first_maximum(words@);
    }
}

/// Every finite word stays where it is, and every other one becomes zero.
pub proof fn only_words_that_are_not_finite_are_replaced(words: &[u32], r: Vec<u32>)
    requires
        call_ensures(finite_words, (words,), r),
    ensures
        r@.len() == words@.len(),
        forall|i: int|
            0 <= i < words@.len() ==> #[trigger] r@[i] == (if finite_word(words@[i]) {
                words@[i]
            } else {
                0
            }),
{
}

/// A word is finite unless its magnitude reaches that of infinity, and a word that is not
/// finite gives way to zero.
pub proof fn words_are_finite_below_infinity(w: u32, finite: bool, kept: u32)
    requires
        call_ensures(is_finite, (w,), finite),
        call_ensures(finite_or_zero, (w,), kept),
    ensures
        finite <==> w < 0x7f80_0000 || 0x8000_0000 <= w < 0xff80_0000,
        finite ==> kept == w,
        !finite ==> kept == 0,
{
}

} // verus!
