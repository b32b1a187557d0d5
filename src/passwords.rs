//! Common passwords, consulted by exact match.
use vstd::prelude::*;
use crate::tokens::{
    chars_of, lemma_empty_unlisted, lemma_spaced_unlisted, list_contains, listed,
};

verus! {

/// The common passwords, separated by single spaces.
pub const COMMON_PASSWORDS: &'static str = "\
    123456 password 12345678 qwerty 123456789 12345 1234 111111 1234567 dragon 123123 \
    baseball abc123 football monkey letmein 696969 shadow master 666666 qwertyuiop 123321 \
    mustang 1234567890 michael 654321 superman 1qaz2wsx 7777777 121212 000000 qazwsx 123qwe \
    killer trustno1 jordan jennifer zxcvbnm asdfgh hunter buster soccer harley batman andrew \
    tigger sunshine iloveyou 2000 charlie robert thomas hockey ranger daniel starwars \
    klaster 112233 george computer michelle jessica pepper 1111 zxcvbn 555555 11111111 \
    131313 freedom 777777 pass maggie 159753 aaaaaa ginger princess joshua cheese amanda \
    summer love ashley nicole chelsea biteme matthew access yankees 987654321 dallas austin \
    thunder taylor matrix welcome password1 admin login passw0rd solo hello whatever flower \
    hottie loveme zaq1zaq1 password123 1q2w3e4r qwerty123 secret changeme default guest root \
    test test123 administrator letmein123 internet";

/// Whether `p` is a listed common password (exact, case-sensitive match).
pub open spec fn common_password(p: Seq<char>) -> bool {
    listed(COMMON_PASSWORDS@, p)
}

/// Checks whether `text` exactly matches a known common password: no normalization, case
/// matters, and text holding a space or the empty text is never one.
pub fn is_password(text: &str) -> (r: bool)
    ensures
        r == common_password(text@),
        text@.len() == 0 ==> !r,
        text@.contains(' ') ==> !r,
{
    proof {
        if text@.len() == 0 {
            lemma_empty_unlisted(COMMON_PASSWORDS@, text@);
        }
        if text@.contains(' ') {
            lemma_spaced_unlisted(COMMON_PASSWORDS@, text@);
        }
    }
    let t = chars_of(text);
    list_contains(COMMON_PASSWORDS, t.as_slice())
}

} // verus!
