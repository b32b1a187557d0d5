//! Tokens and n-grams of normalized text.
use vstd::prelude::*;
use crate::normalize::{normalize, normalized_chars, string_of};

verus! {

/// Reads a text left to right and returns the tokens completed so far, together with the
/// run of non-space characters that is still open at the end.
pub open spec fn scan_words(s: Seq<char>) -> (Seq<Seq<char>>, Seq<char>)
    decreases s.len(),
{
    if s.len() == 0 {
        (Seq::empty(), Seq::empty())
    } else {
        let (done, run) = scan_words(s.drop_last());
        if s.last() == ' ' {
            if run.len() > 0 {
                (done.push(run), Seq::empty())
            } else {
                (done, run)
            }
        } else {
            (done, run.push(s.last()))
        }
    }
}

/// The tokens of a normalized text: its maximal runs of non-space characters, in order.
pub open spec fn words_of(s: Seq<char>) -> Seq<Seq<char>> {
    let (done, run) = scan_words(s);
    if run.len() > 0 {
        done.push(run)
    } else {
        done
    }
}

/// Whether `w` is one of the space-separated entries of `list`.
pub open spec fn listed(list: Seq<char>, w: Seq<char>) -> bool {
    words_of(list).contains(w)
}

/// Every contiguous window of width `n` of one token, left to right.
pub open spec fn windows(w: Seq<char>, n: nat) -> Seq<Seq<char>> {
    if w.len() >= n {
        Seq::new((w.len() - n + 1) as nat, |i: int| w.subrange(i, i + n))
    } else {
        Seq::empty()
    }
}

/// The windows of width `n` of each token in turn; no window spans two tokens.
pub open spec fn ngrams_of_words(ws: Seq<Seq<char>>, n: nat) -> Seq<Seq<char>>
    decreases ws.len(),
{
    if ws.len() == 0 {
        Seq::empty()
    } else {
        ngrams_of_words(ws.drop_last(), n) + windows(ws.last(), n)
    }
}

/// The n-grams of a normalized text.
pub open spec fn ngrams(s: Seq<char>, n: nat) -> Seq<Seq<char>> {
    ngrams_of_words(words_of(s), n)
}

/// How many of `gs` are entries of `list`.
pub open spec fn count_listed(gs: Seq<Seq<char>>, list: Seq<char>) -> nat
    decreases gs.len(),
{
    if gs.len() == 0 {
        0
    } else {
        count_listed(gs.drop_last(), list) + if listed(list, gs.last()) {
            1nat
        } else {
            0nat
        }
    }
}

proof fn lemma_contains_push(ws: Seq<Seq<char>>, x: Seq<char>, w: Seq<char>)
    ensures
        ws.push(x).contains(w) == (ws.contains(w) || x == w),
{
    if ws.contains(w) {
        let i = choose|i: int| 0 <= i < ws.len() && ws[i] == w;
        assert(ws.push(x)[i] == w);
    }
    if x == w {
        assert(ws.push(x)[ws.len() as int] == w);
    }
    if ws.push(x).contains(w) {
        let i = choose|i: int| 0 <= i < ws.push(x).len() && ws.push(x)[i] == w;
        if i < ws.len() {
            assert(ws[i] == w);
        }
    }
}

/// Whether two character slices hold the same characters.
fn same_chars(a: &[char], b: &[char]) -> (r: bool)
    ensures
        r == (a@ == b@),
{
    if a.len() != b.len() {
        return false;
    }
    let mut i: usize = 0;
    while i < a.len()
        invariant
            a@.len() == b@.len(),
            i <= a@.len(),
            a@.take(i as int) == b@.take(i as int),
        decreases a.len() - i,
    {
        if a[i] != b[i] {
            assert(a@[i as int] != b@[i as int]);
            return false;
        }
        assert(a@.take(i + 1) =~= a@.take(i as int).push(a@[i as int]));
        assert(b@.take(i + 1) =~= b@.take(i as int).push(b@[i as int]));
        i = i + 1;
    }
    assert(a@ =~= a@.take(i as int));
    assert(b@ =~= b@.take(i as int));
    true
}

/// Whether `w` is one of the space-separated entries of `list`.
pub fn list_contains(list: &str, w: &[char]) -> (r: bool)
    ensures
        r == listed(list@, w@),
{
    let mut found = false;
    let mut run: Vec<char> = Vec::new();
    for c in it: list.chars()
        invariant
            it.seq() == list@,
            found == scan_words(list@.take(it.index() as int)).0.contains(w@),
            run@ == scan_words(list@.take(it.index() as int)).1,
    {
        let ghost prefix = list@.take(it.index() as int);
        let ghost next = list@.take(it.index() + 1);
        proof {
            assert(next.drop_last() =~= prefix);
        }
        if c == ' ' {
            if run.len() > 0 {
                proof {
                    lemma_contains_push(scan_words(prefix).0, run@, w@);
                }
                found = found || same_chars(run.as_slice(), w);
                run = Vec::new();
            }
        } else {
            run.push(c);
        }
    }
    proof {
        assert(list@.take(list@.len() as int) =~= list@);
    }
    if run.len() > 0 {
        proof {
            lemma_contains_push(scan_words(list@).0, run@, w@);
        }
        found = found || same_chars(run.as_slice(), w);
    }
    found
}

proof fn lemma_scan_shape(s: Seq<char>)
    ensures
        forall|k: int|
            0 <= k < scan_words(s).0.len() ==> #[trigger] scan_words(s).0[k].len() > 0 && !(
            #[trigger] scan_words(s).0[k]).contains(' '),
        !scan_words(s).1.contains(' '),
    decreases s.len(),
{
    if s.len() > 0 {
        lemma_scan_shape(s.drop_last());
        let (done, run) = scan_words(s.drop_last());
        if s.last() != ' ' {
            assert forall|j: int| 0 <= j < run.push(s.last()).len() implies run.push(s.last())[j]
                != ' ' by {
                if j < run.len() {
                    assert(run[j] != ' ');
                }
            }
        }
    }
}

/// Every token is non-empty and holds no space.
pub proof fn lemma_words_shape(s: Seq<char>)
    ensures
        forall|k: int|
            0 <= k < words_of(s).len() ==> #[trigger] words_of(s)[k].len() > 0 && !(
            #[trigger] words_of(s)[k]).contains(' '),
{
    lemma_scan_shape(s);
}

/// No list entry holds a space, so text holding one is never listed.
pub proof fn lemma_spaced_unlisted(list: Seq<char>, w: Seq<char>)
    requires
        w.contains(' '),
    ensures
        !listed(list, w),
{
    lemma_words_shape(list);
    if listed(list, w) {
        let k = choose|k: int| 0 <= k < words_of(list).len() && words_of(list)[k] == w;
        assert(!words_of(list)[k].contains(' '));
    }
}

/// No list entry is empty, so the empty text is never listed.
pub proof fn lemma_empty_unlisted(list: Seq<char>, w: Seq<char>)
    requires
        w.len() == 0,
    ensures
        !listed(list, w),
{
    lemma_words_shape(list);
    if listed(list, w) {
        let k = choose|k: int| 0 <= k < words_of(list).len() && words_of(list)[k] == w;
        assert(words_of(list)[k].len() > 0);
    }
}

/// The character sequences held by a vector of character vectors.
pub open spec fn views(v: Seq<Vec<char>>) -> Seq<Seq<char>> {
    v.map_values(|w: Vec<char>| w@)
}

/// Splits a normalized text into its tokens.
pub fn split_words(s: &Vec<char>) -> (r: Vec<Vec<char>>)
    ensures
        views(r@) == words_of(s@),
{
    let mut done: Vec<Vec<char>> = Vec::new();
    let mut run: Vec<char> = Vec::new();
    let mut i: usize = 0;
    while i < s.len()
        invariant
            i <= s@.len(),
            views(done@) == scan_words(s@.take(i as int)).0,
            run@ == scan_words(s@.take(i as int)).1,
        decreases s.len() - i,
    {
        let c = s[i];
        proof {
            assert(s@.take(i + 1).drop_last() =~= s@.take(i as int));
        }
        if c == ' ' {
            if run.len() > 0 {
                let ghost before = views(done@);
                done.push(run);
                assert(views(done@) =~= before.push(scan_words(s@.take(i as int)).1));
                run = Vec::new();
            }
        } else {
            run.push(c);
        }
        i = i + 1;
    }
    proof {
        assert(s@.take(s@.len() as int) =~= s@);
    }
    if run.len() > 0 {
        let ghost before = views(done@);
        let ghost last = run@;
        done.push(run);
        assert(views(done@) =~= before.push(last));
    }
    done
}

/// The n-grams of the given tokens.
pub fn collect_ngrams(words: &Vec<Vec<char>>, n: usize) -> (r: Vec<Vec<char>>)
    requires
        n > 0,
    ensures
        views(r@) == ngrams_of_words(views(words@), n as nat),
{
    let mut out: Vec<Vec<char>> = Vec::new();
    let mut k: usize = 0;
    while k < words.len()
        invariant
            k <= words@.len(),
            n > 0,
            views(out@) == ngrams_of_words(views(words@).take(k as int), n as nat),
        decreases words.len() - k,
    {
        let w = &words[k];
        let ghost start = views(out@);
        proof {
            assert(views(words@).take(k + 1).drop_last() =~= views(words@).take(k as int));
        }
        if w.len() >= n {
            let count = w.len() - n + 1;
            let mut i: usize = 0;
            while i < count
                invariant
                    n > 0,
                    w.len() >= n,
                    count == w.len() - n + 1,
                    i <= count,
                    views(out@) == start + windows(w@, n as nat).take(i as int),
                decreases count - i,
            {
                let mut g: Vec<char> = Vec::new();
                let mut j: usize = 0;
                while j < n
                    invariant
                        n > 0,
                        i < count,
                        count == w.len() - n + 1,
                        j <= n,
                        g@ == w@.subrange(i as int, i + j),
                    decreases n - j,
                {
                    g.push(w[i + j]);
                    assert(g@ =~= w@.subrange(i as int, i + j + 1));
                    j = j + 1;
                }
                let ghost before = views(out@);
                let ghost gv = g@;
                out.push(g);
                assert(views(out@) =~= before.push(gv));
                assert(windows(w@, n as nat).take(i + 1) =~= windows(w@, n as nat).take(
                    i as int,
                ).push(gv));
                i = i + 1;
            }
            assert(windows(w@, n as nat).take(count as int) =~= windows(w@, n as nat));
        } else {
            assert(windows(w@, n as nat) =~= Seq::<Seq<char>>::empty());
            assert(views(out@) =~= start + windows(w@, n as nat));
        }
        assert(w@ == views(words@).take(k + 1).last());
        k = k + 1;
    }
    assert(views(words@).take(k as int) =~= views(words@));
    out
}

/// How many of `gs` are entries of `list`.
pub fn count_in_list(gs: &Vec<Vec<char>>, list: &str) -> (r: usize)
    ensures
        r == count_listed(views(gs@), list@),
{
    let mut hits: usize = 0;
    let mut k: usize = 0;
    while k < gs.len()
        invariant
            k <= gs@.len(),
            hits <= k,
            hits == count_listed(views(gs@).take(k as int), list@),
        decreases gs.len() - k,
    {
        proof {
            assert(views(gs@).take(k + 1).drop_last() =~= views(gs@).take(k as int));
        }
        if list_contains(list, gs[k].as_slice()) {
            hits = hits + 1;
        }
        k = k + 1;
    }
    assert(views(gs@).take(k as int) =~= views(gs@));
    hits
}

/// The characters of a string, in order.
pub fn chars_of(s: &str) -> (r: Vec<char>)
    ensures
        r@ == s@,
{
    let mut out: Vec<char> = Vec::new();
    for c in it: s.chars()
        invariant
            it.seq() == s@,
            out@ == s@.take(it.index() as int),
    {
        proof {
            assert(s@.take(it.index() + 1) =~= s@.take(it.index() as int).push(c));
        }
        out.push(c);
    }
    assert(s@.take(s@.len() as int) =~= s@);
    out
}

/// The character sequences held by a vector of strings.
pub open spec fn string_views(v: Seq<String>) -> Seq<Seq<char>> {
    v.map_values(|g: String| g@)
}

/// The n-grams of `text`: it is normalized and split into tokens, and a window of width `n`
/// slides across each token; tokens shorter than `n` give none.
pub fn generate_ngrams(text: &str, n: usize) -> (r: Vec<String>)
    requires
        n > 0,
    ensures
        string_views(r@) == ngrams(normalize(text@), n as nat),
{
    let cleaned = normalized_chars(text);
    let words = split_words(&cleaned);
    let grams = collect_ngrams(&words, n);
    let mut out: Vec<String> = Vec::new();
    let mut k: usize = 0;
    while k < grams.len()
        invariant
            k <= grams@.len(),
            string_views(out@) == views(grams@).take(k as int),
        decreases grams.len() - k,
    {
        let g = string_of(&grams[k]);
        let ghost before = string_views(out@);
        let ghost gv = g@;
        out.push(g);
        assert(string_views(out@) =~= before.push(gv));
        assert(views(grams@).take(k + 1) =~= views(grams@).take(k as int).push(gv));
        k = k + 1;
    }
    assert(views(grams@).take(k as int) =~= views(grams@));
    out
}

} // verus!
