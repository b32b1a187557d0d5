//! General facts about the classifier, proved over the contracts' own spec functions.
use vstd::prelude::*;
use crate::classify::{exceeds, gibberish_verdict, has_control, is_control, Sensitivity};
use crate::dictionary::{in_dictionary, ENGLISH_WORDS};
use crate::normalize::{normalize, normalize_char};
use crate::tables::{COMMON_QUADGRAMS, COMMON_TRIGRAMS};
use crate::tokens::{
    count_listed, lemma_spaced_unlisted, lemma_words_shape, ngrams, scan_words, words_of,
};

verus! {

/// A printable ASCII character that is neither a letter, a digit nor a space.
pub open spec fn is_ascii_symbol(c: char) -> bool {
    ('!' <= c <= '/') || (':' <= c <= '@') || ('[' <= c <= '`') || ('{' <= c <= '~')
}

/// How many characters of the text are control characters other than newline, carriage
/// return and tab.
pub open spec fn control_count(s: Seq<char>) -> nat
    decreases s.len(),
{
    if s.len() == 0 {
        0
    } else {
        control_count(s.drop_last()) + if is_control(s.last()) {
            1nat
        } else {
            0nat
        }
    }
}

/// A text that the strict tier accepts on its one dictionary word while the balanced tier
/// finds too little n-gram support: its normalized form has ten or more characters and no
/// control character, it is a single token, that token is a dictionary word, its trigram
/// share is at most 0.15 and its quadgram share at most 0.1.
pub open spec fn lone_word_weak_ngrams(text: Seq<char>) -> bool {
    let cleaned = normalize(text);
    let trigrams = ngrams(cleaned, 3);
    let quadgrams = ngrams(cleaned, 4);
    &&& cleaned.len() >= 10
    &&& !has_control(text)
    &&& words_of(cleaned).len() == 1
    &&& count_listed(words_of(cleaned), ENGLISH_WORDS@) == 1
    &&& !exceeds(count_listed(trigrams, COMMON_TRIGRAMS@), trigrams.len(), 3, 20)
    &&& !exceeds(count_listed(quadgrams, COMMON_QUADGRAMS@), quadgrams.len(), 1, 10)
}

proof fn lemma_count_listed_bound(gs: Seq<Seq<char>>, list: Seq<char>)
    ensures
        count_listed(gs, list) <= gs.len(),
    decreases gs.len(),
{
    if gs.len() > 0 {
        lemma_count_listed_bound(gs.drop_last(), list);
    }
}

proof fn lemma_scan_all_spaces(s: Seq<char>)
    requires
        forall|i: int| 0 <= i < s.len() ==> s[i] == ' ',
    ensures
        scan_words(s).0.len() == 0,
        scan_words(s).1.len() == 0,
    decreases s.len(),
{
    if s.len() > 0 {
        lemma_scan_all_spaces(s.drop_last());
    }
}

proof fn lemma_scan_no_spaces(s: Seq<char>)
    requires
        !s.contains(' '),
    ensures
        scan_words(s).0.len() == 0,
        scan_words(s).1 == s,
    decreases s.len(),
{
    if s.len() > 0 {
        assert(!s.drop_last().contains(' ')) by {
            if s.drop_last().contains(' ') {
                let i = choose|i: int| 0 <= i < s.drop_last().len() && s.drop_last()[i] == ' ';
                assert(s[i] == ' ');
            }
        }
        lemma_scan_no_spaces(s.drop_last());
        assert(s.last() != ' ') by {
            assert(s[s.len() - 1] == s.last());
        }
        assert(s.drop_last().push(s.last()) =~= s);
    }
}

/// A control character becomes a space in the normalized text.
proof fn lemma_control_leaves_space(text: Seq<char>)
    requires
        has_control(text),
    ensures
        normalize(text).contains(' '),
{
    let i = choose|i: int| 0 <= i < text.len() && is_control(#[trigger] text[i]);
    assert(normalize(text)[i] == normalize_char(text[i]));
}

/// Any text holding a control character other than newline, carriage return and tab is
/// gibberish at every sensitivity.
proof fn lemma_control_is_gibberish(text: Seq<char>, sensitivity: Sensitivity)
    requires
        has_control(text),
    ensures
        gibberish_verdict(text, sensitivity),
{
    lemma_control_leaves_space(text);
    let cleaned = normalize(text);
    if 0 < cleaned.len() < 10 {
        lemma_spaced_unlisted(ENGLISH_WORDS@, cleaned);
    }
}

proof fn lemma_control_count_positive(s: Seq<char>)
    requires
        control_count(s) > 0,
    ensures
        has_control(s),
    decreases s.len(),
{
    if is_control(s.last()) {
        assert(is_control(s[s.len() - 1]));
    } else {
        lemma_control_count_positive(s.drop_last());
        let i = choose|i: int| 0 <= i < s.drop_last().len() && is_control(#[trigger] s.drop_last()[i]);
        assert(s[i] == s.drop_last()[i]);
    }
}

/// The verdict is a function of the text and the sensitivity alone: equal texts get equal
/// verdicts, whatever was classified before.
pub proof fn lemma_verdict_deterministic(a: Seq<char>, b: Seq<char>, sensitivity: Sensitivity)
    requires
        a == b,
    ensures
        gibberish_verdict(a, sensitivity) == gibberish_verdict(b, sensitivity),
{
}

/// What the strict tier accepts as English, the lenient tier accepts too.
pub proof fn lemma_low_english_is_high_english(text: Seq<char>)
    ensures
        !gibberish_verdict(text, Sensitivity::Low) ==> !gibberish_verdict(text, Sensitivity::High),
{
    let cleaned = normalize(text);
    if cleaned.len() >= 10 && !has_control(text) {
        lemma_count_listed_bound(words_of(cleaned), ENGLISH_WORDS@);
    }
}

/// What the balanced tier accepts as English, the lenient tier accepts too.
pub proof fn lemma_medium_english_is_high_english(text: Seq<char>)
    ensures
        !gibberish_verdict(text, Sensitivity::Medium) ==> !gibberish_verdict(
            text,
            Sensitivity::High,
        ),
{
}

/// What the strict tier accepts as English, the balanced tier accepts too, except for a text
/// that is one dictionary word of ten or more characters with weak n-gram support (which the
/// strict tier accepts for its word ratio alone).
pub proof fn lemma_low_english_is_medium_english(text: Seq<char>)
    requires
        !lone_word_weak_ngrams(text),
    ensures
        !gibberish_verdict(text, Sensitivity::Low) ==> !gibberish_verdict(
            text,
            Sensitivity::Medium,
        ),
{
    let cleaned = normalize(text);
    if cleaned.len() >= 10 && !has_control(text) {
        lemma_count_listed_bound(words_of(cleaned), ENGLISH_WORDS@);
    }
}

/// The empty text is gibberish at every sensitivity.
pub proof fn lemma_empty_is_gibberish(sensitivity: Sensitivity)
    ensures
        gibberish_verdict(Seq::empty(), sensitivity),
{
    assert(normalize(Seq::empty()).len() == 0);
}

/// A text of which more than four fifths are control characters (other than newline,
/// carriage return and tab) is gibberish at every sensitivity.
pub proof fn lemma_control_text_is_gibberish(text: Seq<char>, sensitivity: Sensitivity)
    requires
        5 * control_count(text) > 4 * text.len(),
    ensures
        gibberish_verdict(text, sensitivity),
{
    lemma_control_count_positive(text);
    lemma_control_is_gibberish(text, sensitivity);
}

/// A text made only of ASCII symbols (printable, neither letter, digit nor space) is gibberish
/// at every sensitivity.
pub proof fn lemma_symbols_are_gibberish(text: Seq<char>, sensitivity: Sensitivity)
    requires
        forall|i: int| 0 <= i < text.len() ==> is_ascii_symbol(#[trigger] text[i]),
    ensures
        gibberish_verdict(text, sensitivity),
{
    let cleaned = normalize(text);
    assert forall|i: int| 0 <= i < cleaned.len() implies cleaned[i] == ' ' by {
        assert(is_ascii_symbol(text[i]));
    }
    if 0 < cleaned.len() < 10 {
        assert(cleaned[0] == ' ');
        lemma_spaced_unlisted(ENGLISH_WORDS@, cleaned);
    }
    lemma_scan_all_spaces(cleaned);
    assert(words_of(cleaned).len() == 0);
    assert(ngrams(cleaned, 3).len() == 0);
    assert(ngrams(cleaned, 4).len() == 0);
}

/// A text whose normalized form is a dictionary word is English at the strict and lenient
/// tiers, and at the balanced tier too unless the word has ten or more characters and weak
/// n-gram support.
pub proof fn lemma_dictionary_word_is_english(text: Seq<char>)
    requires
        in_dictionary(normalize(text)),
    ensures
        !gibberish_verdict(text, Sensitivity::Low),
        !gibberish_verdict(text, Sensitivity::High),
        !lone_word_weak_ngrams(text) ==> !gibberish_verdict(text, Sensitivity::Medium),
{
    let cleaned = normalize(text);
    lemma_words_shape(ENGLISH_WORDS@);
    let k = choose|k: int| 0 <= k < words_of(ENGLISH_WORDS@).len() && words_of(ENGLISH_WORDS@)[k]
        == cleaned;
    assert(cleaned.len() > 0 && !cleaned.contains(' '));
    if has_control(text) {
        lemma_control_leaves_space(text);
    }
    lemma_scan_no_spaces(cleaned);
    assert(words_of(cleaned) =~= seq![cleaned]);
    assert(words_of(cleaned).drop_last() =~= Seq::<Seq<char>>::empty());
    assert(words_of(cleaned).last() == cleaned);
    assert(count_listed(Seq::<Seq<char>>::empty(), ENGLISH_WORDS@) == 0);
    assert(count_listed(words_of(cleaned), ENGLISH_WORDS@) == 1);
}

} // verus!
