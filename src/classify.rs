//! The decision policy: fuses dictionary and n-gram evidence into a verdict.
use vstd::prelude::*;
use crate::dictionary::{in_dictionary, ENGLISH_WORDS};
use crate::normalize::{normalize, normalized_chars};
use crate::tables::{COMMON_QUADGRAMS, COMMON_TRIGRAMS};
use crate::tokens::{
    collect_ngrams, count_in_list, count_listed, list_contains, ngrams, split_words, words_of,
};

verus! {

/// How much evidence of English a text must show before it is accepted as English.
#[derive(Debug, Clone, Copy, PartialEq, Eq, Structural)]
pub enum Sensitivity {
    /// Lenient: any dictionary word, or faint n-gram support, is enough.
    High,
    /// Balanced: dictionary words and n-gram support are weighed together.
    Medium,
    /// Strict: text counts as gibberish unless the evidence of English is strong.
    Low,
}

/// A control character other than newline, carriage return and tab.
pub open spec fn is_control(c: char) -> bool {
    c < ' ' && c != '\n' && c != '\r' && c != '\t'
}

/// Whether the text holds a control character other than newline, carriage return and tab.
pub open spec fn has_control(s: Seq<char>) -> bool {
    exists|i: int| 0 <= i < s.len() && is_control(#[trigger] s[i])
}

/// `hits / total > num / den`, compared as exact fractions; a score over no items is zero.
pub open spec fn exceeds(hits: nat, total: nat, num: nat, den: nat) -> bool {
    total > 0 && hits * den > num * total
}

/// `hits / total < num / den`, compared as exact fractions; a score over no items is zero.
pub open spec fn falls_short(hits: nat, total: nat, num: nat, den: nat) -> bool {
    if total == 0 {
        num > 0
    } else {
        hits * den < num * total
    }
}

/// Trigram coverage below 0.3: the trigram count over the text length less two, where a text
/// of at most three characters counts as fully covered.
pub open spec fn sparse_trigrams(trigrams: nat, len: nat) -> bool {
    len > 3 && trigrams * 10 < 3 * (len - 2)
}

/// Very few trigrams, yet a high share of them common, with low coverage and almost no
/// dictionary words: the mark of short alphanumeric noise.
pub open spec fn suspicious_trigrams(
    len: nat,
    trigrams: nat,
    trigram_hits: nat,
    words: nat,
    english: nat,
) -> bool {
    &&& trigrams <= 3
    &&& exceeds(trigram_hits, trigrams, 3, 10)
    &&& sparse_trigrams(trigrams, len)
    &&& falls_short(english, words, 1, 10)
}

/// The verdict of each sensitivity tier, from the word counts and the n-gram counts
/// (`true` means gibberish).
pub open spec fn tier_verdict(
    sensitivity: Sensitivity,
    words: nat,
    english: nat,
    tri_hits: nat,
    tris: nat,
    quad_hits: nat,
    quads: nat,
) -> bool {
    match sensitivity {
        Sensitivity::Low => {
            if exceeds(english, words, 4, 5) {
                false
            } else if english >= 3 {
                !exceeds(tri_hits, tris, 1, 5) && !exceeds(quad_hits, quads, 1, 5)
            } else if english == 1 {
                if exceeds(tri_hits, tris, 4, 5) || exceeds(quad_hits, quads, 4, 5) {
                    true
                } else {
                    !exceeds(tri_hits, tris, 1, 4) && !exceeds(quad_hits, quads, 1, 4)
                }
            } else {
                true
            }
        },
        Sensitivity::Medium => {
            if english >= 2 {
                false
            } else if english == 1 {
                !(exceeds(tri_hits, tris, 3, 20) || exceeds(quad_hits, quads, 1, 10))
            } else {
                !(exceeds(tri_hits, tris, 1, 10) || exceeds(quad_hits, quads, 1, 20))
            }
        },
        Sensitivity::High => {
            if english >= 1 {
                false
            } else {
                !(exceeds(tri_hits, tris, 1, 20) || exceeds(quad_hits, quads, 3, 100))
            }
        },
    }
}

/// The verdict on a normalized text of ten or more characters with no control characters.
pub open spec fn scored_verdict(cleaned: Seq<char>, sensitivity: Sensitivity) -> bool {
    let words = words_of(cleaned);
    let english = count_listed(words, ENGLISH_WORDS@);
    let trigrams = ngrams(cleaned, 3);
    let quadgrams = ngrams(cleaned, 4);
    let tri_hits = count_listed(trigrams, COMMON_TRIGRAMS@);
    let quad_hits = count_listed(quadgrams, COMMON_QUADGRAMS@);
    if suspicious_trigrams(cleaned.len(), trigrams.len(), tri_hits, words.len(), english) {
        true
    } else {
        tier_verdict(
            sensitivity,
            words.len(),
            english,
            tri_hits,
            trigrams.len(),
            quad_hits,
            quadgrams.len(),
        )
    }
}

/// Whether a text is gibberish at the given sensitivity, the gates taken in order: empty
/// normalized text, short text (a dictionary lookup of the whole normalized text), control
/// characters, then the scored tiers.
pub open spec fn gibberish_verdict(text: Seq<char>, sensitivity: Sensitivity) -> bool {
    let cleaned = normalize(text);
    if cleaned.len() == 0 {
        true
    } else if cleaned.len() < 10 {
        !in_dictionary(cleaned)
    } else if has_control(text) {
        true
    } else {
        scored_verdict(cleaned, sensitivity)
    }
}

proof fn lemma_products_fit(hits: usize, total: usize, num: u64, den: u64)
    ensures
        (hits as int) * (den as int) <= u128::MAX,
        (num as int) * (total as int) <= u128::MAX,
{
    let m = u64::MAX as int;
    assert((hits as int) * (den as int) <= m * m) by (nonlinear_arith)
        requires
            0 <= hits <= m,
            0 <= den <= m,
    ;
    assert((num as int) * (total as int) <= m * m) by (nonlinear_arith)
        requires
            0 <= num <= m,
            0 <= total <= m,
    ;
}

/// Whether `hits / total > num / den` as exact fractions.
fn ratio_exceeds(hits: usize, total: usize, num: u64, den: u64) -> (r: bool)
    ensures
        r == exceeds(hits as nat, total as nat, num as nat, den as nat),
{
    proof {
        lemma_products_fit(hits, total, num, den);
    }
    total > 0 && (hits as u128) * (den as u128) > (num as u128) * (total as u128)
}

/// Whether `hits / total < num / den` as exact fractions.
fn ratio_falls_short(hits: usize, total: usize, num: u64, den: u64) -> (r: bool)
    ensures
        r == falls_short(hits as nat, total as nat, num as nat, den as nat),
{
    proof {
        lemma_products_fit(hits, total, num, den);
    }
    if total == 0 {
        num > 0
    } else {
        (hits as u128) * (den as u128) < (num as u128) * (total as u128)
    }
}

/// Whether the text holds a control character other than newline, carriage return and tab.
fn has_control_char(text: &str) -> (r: bool)
    ensures
        r == has_control(text@),
{
    let mut found = false;
    for c in it: text.chars()
        invariant
            it.seq() == text@,
            found == has_control(text@.take(it.index() as int)),
    {
        let ghost prefix = text@.take(it.index() as int);
        let ghost next = text@.take(it.index() + 1);
        proof {
            if has_control(next) {
                let i = choose|i: int| 0 <= i < next.len() && is_control(#[trigger] next[i]);
                if i < prefix.len() {
                    assert(prefix[i] == next[i]);
                }
            }
            if has_control(prefix) {
                let i = choose|i: int| 0 <= i < prefix.len() && is_control(#[trigger] prefix[i]);
                assert(next[i] == prefix[i]);
            }
            assert(next[prefix.len() as int] == c);
        }
        if c < ' ' && c != '\n' && c != '\r' && c != '\t' {
            found = true;
        }
    }
    proof {
        assert(text@.take(text@.len() as int) =~= text@);
    }
    found
}

/// The verdict of one sensitivity tier, from the word counts and n-gram counts.
fn tier_decision(
    sensitivity: Sensitivity,
    words: usize,
    english: usize,
    tri_hits: usize,
    tris: usize,
    quad_hits: usize,
    quads: usize,
) -> (r: bool)
    ensures
        r == tier_verdict(
            sensitivity,
            words as nat,
            english as nat,
            tri_hits as nat,
            tris as nat,
            quad_hits as nat,
            quads as nat,
        ),
{
    match sensitivity {
        Sensitivity::Low => {
            if ratio_exceeds(english, words, 4, 5) {
                false
            } else if english >= 3 {
                !ratio_exceeds(tri_hits, tris, 1, 5) && !ratio_exceeds(quad_hits, quads, 1, 5)
            } else if english == 1 {
                if ratio_exceeds(tri_hits, tris, 4, 5) || ratio_exceeds(quad_hits, quads, 4, 5) {
                    true
                } else {
                    !ratio_exceeds(tri_hits, tris, 1, 4) && !ratio_exceeds(quad_hits, quads, 1, 4)
                }
            } else {
                true
            }
        },
        Sensitivity::Medium => {
            if english >= 2 {
                false
            } else if english == 1 {
                !(ratio_exceeds(tri_hits, tris, 3, 20) || ratio_exceeds(quad_hits, quads, 1, 10))
            } else {
                !(ratio_exceeds(tri_hits, tris, 1, 10) || ratio_exceeds(quad_hits, quads, 1, 20))
            }
        },
        Sensitivity::High => {
            if english >= 1 {
                false
            } else {
                !(ratio_exceeds(tri_hits, tris, 1, 20) || ratio_exceeds(quad_hits, quads, 3, 100))
            }
        },
    }
}

/// Checks whether `text` is gibberish (`true`) or English-like (`false`) at the given
/// sensitivity, from dictionary words and common trigrams and quadgrams.
pub fn is_gibberish(text: &str, sensitivity: Sensitivity) -> (r: bool)
    ensures
        r == gibberish_verdict(text@, sensitivity),
{
    let cleaned = normalized_chars(text);
    if cleaned.len() == 0 {
        return true;
    }
    if cleaned.len() < 10 {
        return !list_contains(ENGLISH_WORDS, cleaned.as_slice());
    }
    if has_control_char(text) {
        return true;
    }
    let words = split_words(&cleaned);
    let trigrams = collect_ngrams(&words, 3);
    let quadgrams = collect_ngrams(&words, 4);
    let tri_hits = count_in_list(&trigrams, COMMON_TRIGRAMS);
    let quad_hits = count_in_list(&quadgrams, COMMON_QUADGRAMS);
    let english = count_in_list(&words, ENGLISH_WORDS);
    let len = cleaned.len();
    let sparse = len > 3 && (trigrams.len() as u128) * 10 < 3 * ((len - 2) as u128);
    if trigrams.len() <= 3 && ratio_exceeds(tri_hits, trigrams.len(), 3, 10) && sparse
        && ratio_falls_short(english, words.len(), 1, 10) {
        return true;
    }
    tier_decision(
        sensitivity,
        words.len(),
        english,
        tri_hits,
        trigrams.len(),
        quad_hits,
        quadgrams.len(),
    )
}

} // verus!
