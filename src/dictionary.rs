//! The dictionary: lowercase English words, consulted by exact match.
use vstd::prelude::*;
use crate::tokens::{
    chars_of, lemma_empty_unlisted, lemma_spaced_unlisted, list_contains, listed,
};

verus! {

/// The dictionary's entries, separated by single spaces.
pub const ENGLISH_WORDS: &'static str = "\
    able about above across action activity added admin after again against age air all \
    allowed almost along already also although always am amazing an and any app appear \
    appeared are area arm around art as ask asked asks at attention available away awesome \
    baby back bad be beach because bed been before began begin begins behind being believe \
    believed beneath best better between beyond big black blue body book boolean both bought \
    boy bring brings brought brown buffalo build building built business but buy by call \
    called calling calls came can car carbon care case center certain change changed child \
    children cia city class clear close college column come comes common community company \
    computer consider considered const contact contain contained container contains content \
    continue continued control cost could couple court create created cut dark data day \
    death decide decided decision definitely delicious development did die died difference \
    different dioxide director do doctor does dog doing done door down drug during each \
    early easy education effect effort either encoding encodings end english enough even \
    event ever everything evidence except expect expected experience eye face fact fall far \
    father fbi feel feels fell felt few field figure file files film find finds fire first \
    follow followed following foot for force form found fox free friend friends from full \
    fun function game gave get gets getting girl give given gives go goes gone good got \
    government great green grew ground grow guy had hair hall hand happen happened happens \
    hard has have having he head health hear heard hears heart hello help helps her here hi \
    high him his history hold holds home hour house how however human idea if image \
    important in include included includes industry info information interest into iron is \
    issue it its job jump jumped jumping jumps just keep keeps kept key kid kill killed kind \
    knew know known knows land large last late law lazy lead leader leads learn learned \
    learns leave leaves led left let lets level life light like likely line lit little live \
    lived lives local long longer look looking looks lose loses lost lot love loved made \
    major make makes making man market matter maybe me mean means meet meets member met \
    meter meters mind mine minute model molecule molecules moment money month more morning \
    most mother move moved moves movie multiple music my name nasa nation need neither never \
    new news next night no north not now number of off offer offered office official often \
    oil okay old on once one only open opened or organization other others our out over own \
    paid paper par part party pass passed patient pay pays people per perhaps person \
    personal phone picture piece place plan play played player plays please plus point \
    police policy population position possible power practice president price process \
    product program project provide provides public pull pulled put question quick raise \
    raised ran rate reach reached read real really reason recent recognise recognize \
    recognized record red relationship remain remained remember remembered report reported \
    require required research result return returned returning returns right road role room \
    run said same sat saw say says school season second see seem seemed seems seen sell send \
    sense sent sentence sentences serve served service set she short show showed shows side \
    simple since single sit site sits situation small so society sold some son source space \
    speak special speed spend spent spoke stand stands star start starts stay stayed step \
    still stood stop stopped story street strong study suggest suggested support sure sushi \
    system table take taken takes taking talk talks tax teacher team technical technology \
    tell tells test text than thank thanks that the their them then there these they think \
    thinks this those though thought through time to today together told too took town tree \
    tried tries true truth try turn turned turns two type under understand understood unless \
    until up us use used uses using valid value values variable variables very via view \
    visit voice wait waited walk walked wall want wants war was watch watched water way we \
    week weekend well went were what when where whereas which while white who whole whom \
    whose wife will win window with within without woman won word work worker working works \
    world would wow write writes wrong wrote year yes yet you young your yours";

/// Whether `w` is a dictionary word (exact, case-sensitive match).
pub open spec fn in_dictionary(w: Seq<char>) -> bool {
    listed(ENGLISH_WORDS@, w)
}

/// Whether `word` is a dictionary word (exact, case-sensitive match); the empty word and a
/// word holding a space never are.
pub fn is_english_word(word: &str) -> (r: bool)
    ensures
        r == in_dictionary(word@),
        word@.len() == 0 ==> !r,
        word@.contains(' ') ==> !r,
{
    proof {
        if word@.len() == 0 {
            lemma_empty_unlisted(ENGLISH_WORDS@, word@);
        }
        if word@.contains(' ') {
            lemma_spaced_unlisted(ENGLISH_WORDS@, word@);
        }
    }
    let w = chars_of(word);
    list_contains(ENGLISH_WORDS, w.as_slice())
}

} // verus!
