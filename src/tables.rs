//! The tables of common trigrams and quadgrams of English text.
use vstd::prelude::*;
use crate::tokens::{chars_of, list_contains, listed};

verus! {

/// Common English trigrams, separated by single spaces.
pub const COMMON_TRIGRAMS: &'static str = "\
    the and ing ion tio ent ati for her ter hat tha ere con res ver all ons nce men ith ted \
    ers pro thi wit are ess not ive was ect rea com eve per int est sta cti ica ist ear ain \
    one our iti rat ell ant";

/// Common English quadgrams, separated by single spaces.
pub const COMMON_QUADGRAMS: &'static str = "\
    tion atio that ther with ment ions this here from ould ting hich whic ctio ever they \
    thin have othe were tive ough ight";

/// Whether `g` is one of the common trigrams.
pub open spec fn common_trigram(g: Seq<char>) -> bool {
    listed(COMMON_TRIGRAMS@, g)
}

/// Whether `g` is one of the common quadgrams.
pub open spec fn common_quadgram(g: Seq<char>) -> bool {
    listed(COMMON_QUADGRAMS@, g)
}

/// Whether `gram` is one of the common trigrams.
pub fn is_common_trigram(gram: &str) -> (r: bool)
    ensures
        r == common_trigram(gram@),
{
    let g = chars_of(gram);
    list_contains(COMMON_TRIGRAMS, g.as_slice())
}

/// Whether `gram` is one of the common quadgrams.
pub fn is_common_quadgram(gram: &str) -> (r: bool)
    ensures
        r == common_quadgram(gram@),
{
    let g = chars_of(gram);
    list_contains(COMMON_QUADGRAMS, g.as_slice())
}

} // verus!
