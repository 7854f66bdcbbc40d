//! Tri-gram extraction: a normalised string is cut into words, short words
//! are padded, and a window of three characters slides over every word.

use crate::normalize::{normalize, normalized};
use unicode_segmentation::UnicodeSegmentation;
use vstd::prelude::*;
use vstd::seq_lib::seq_to_set_distributes_over_add;

verus! {

/// The words that `UnicodeSegmentation::unicode_words` finds in a text, in
/// order.
pub uninterp spec fn unicode_words_of(text: Seq<char>) -> Seq<Seq<char>>;

/// `UnicodeSegmentation::unicode_words` splits a string on the word boundaries
/// of UAX #29 and keeps the pieces that hold a letter or a digit. The
/// boundaries come from fixed tables, so the words depend on the text alone,
/// and a string without characters has no words. Each word is handed out as an
/// owned string.
#[verifier::external_body]
fn unicode_words(s: &str) -> (words: Vec<String>)
    ensures
        words.deep_view() == unicode_words_of(s@),
        s@.len() == 0 ==> words@.len() == 0,
{
    s.unicode_words().map(String::from).collect()
}

/// A word brought to at least three characters by `-` on its right.
pub open spec fn padded_word(word: Seq<char>) -> Seq<char> {
    if word.len() < 3 {
        word + Seq::new((3 - word.len()) as nat, |i: int| '-')
    } else {
        word
    }
}

/// Every run of three neighbouring characters of a word, from left to right.
/// A word of fewer than three characters has none.
pub open spec fn windows(word: Seq<char>) -> Seq<Seq<char>> {
    Seq::new(
        if word.len() >= 3 {
            (word.len() - 2) as nat
        } else {
            0
        },
        |i: int| word.subrange(i, i + 3),
    )
}

/// The windows of all the words of a list, each word padded first, in the
/// order of the words.
pub open spec fn all_windows(words: Seq<Seq<char>>) -> Seq<Seq<char>> {
    words.flat_map(|word: Seq<char>| windows(padded_word(word)))
}

/// The tri-grams of one word, as given.
pub open spec fn word_trigrams(word: Seq<char>) -> Set<Seq<char>> {
    windows(word).to_set()
}

/// The tri-grams of a list of words, each padded first.
pub open spec fn trigrams_of(words: Seq<Seq<char>>) -> Set<Seq<char>> {
    all_windows(words).to_set()
}

/// The tri-grams of a text.
pub open spec fn tri_grams(text: Seq<char>) -> Set<Seq<char>> {
    trigrams_of(unicode_words_of(normalized(text)))
}

/// A list with a tri-gram at its end, unless the list holds it already.
pub open spec fn with_gram(list: Seq<Seq<char>>, gram: Seq<char>) -> Seq<Seq<char>> {
    if list.contains(gram) {
        list
    } else {
        list.push(gram)
    }
}

/// A list followed by the tri-grams of `more` that are new to it, each once
/// and in the order in which `more` first has them.
pub open spec fn merged(list: Seq<Seq<char>>, more: Seq<Seq<char>>) -> Seq<Seq<char>>
    decreases more.len(),
{
    if more.len() == 0 {
        list
    } else {
        with_gram(merged(list, more.drop_last()), more.last())
    }
}

/// The tri-grams of a list, each once, in the order of their first
/// occurrence.
pub open spec fn distinct(grams: Seq<Seq<char>>) -> Seq<Seq<char>> {
    merged(Seq::empty(), grams)
}

/// Merging one more tri-gram is merging the others first.
pub proof fn lemma_merged_push(list: Seq<Seq<char>>, more: Seq<Seq<char>>, gram: Seq<char>)
    ensures
        merged(list, more.push(gram)) == with_gram(merged(list, more), gram),
{
    assert(more.push(gram).drop_last() =~= more);
}

/// Merging two lists one after the other is merging them joined.
pub proof fn lemma_merged_add(list: Seq<Seq<char>>, first: Seq<Seq<char>>, second: Seq<Seq<char>>)
    ensures
        merged(list, first + second) == merged(merged(list, first), second),
    decreases second.len(),
{
    if second.len() > 0 {
        lemma_merged_add(list, first, second.drop_last());
        assert((first + second).drop_last() =~= first + second.drop_last());
    }
}

/// Merging adds nothing twice and loses nothing: the merged list holds what
/// either list held, and no tri-gram twice if the first list had none twice.
pub proof fn lemma_merged_is_union(list: Seq<Seq<char>>, more: Seq<Seq<char>>)
    requires
        list.no_duplicates(),
    ensures
        merged(list, more).no_duplicates(),
        merged(list, more).to_set() == list.to_set().union(more.to_set()),
    decreases more.len(),
{
    if more.len() > 0 {
        let rest = more.drop_last();
        lemma_merged_is_union(list, rest);
        assert(more == rest.push(more.last()));
        if !merged(list, rest).contains(more.last()) {
            merged(list, rest).lemma_push_to_set_commute(more.last());
        }
    }
}

/// Every tri-gram of a list of words has three characters, however short the
/// words are.
pub proof fn lemma_trigrams_have_three_chars(words: Seq<Seq<char>>)
    ensures
        forall|gram: Seq<char>| #[trigger] trigrams_of(words).contains(gram) ==> gram.len() == 3,
    decreases words.len(),
{
    let per_word = |word: Seq<char>| windows(padded_word(word));
    if words.len() > 0 {
        let rest = words.drop_last();
        lemma_trigrams_have_three_chars(rest);
        assert(words == rest.push(words.last()));
        rest.lemma_flat_map_push(per_word, words.last());
        seq_to_set_distributes_over_add(rest.flat_map(per_word), per_word(words.last()));
        assert(trigrams_of(words) == trigrams_of(rest).union(
            word_trigrams(padded_word(words.last())),
        ));
    }
}

/// The characters of a string, one by one.
fn chars_of(s: &str) -> (chars: Vec<char>)
    ensures
        chars@ == s@,
{
    let mut chars: Vec<char> = Vec::new();
    for c in it: s.chars()
        invariant
            it.seq() == s@,
            chars@ == s@.take(it.index()),
    {
        chars.push(c);
    }
    chars
}

/// Pads a word that is shorter than three characters with `-` at its end.
pub fn pad_word(word: &str) -> (out: String)
    ensures
        out@ == padded_word(word@),
{
    let mut out = word.to_owned();
    let mut len: usize = word.unicode_len();
    while len < 3
        invariant
            len <= 3 || len == word@.len(),
            word@.len() <= len,
            out@ == word@ + Seq::new((len - word@.len()) as nat, |i: int| '-'),
        decreases 3 - len,
    {
        out.push('-');
        len += 1;
    }
    out
}

/// Adds a tri-gram to a list unless the list holds it already.
fn insert_gram(grams: &mut Vec<String>, gram: String)
    ensures
        final(grams).deep_view() == with_gram(old(grams).deep_view(), gram@),
{
    let mut j: usize = 0;
    while j < grams.len()
        invariant
            j <= grams.len(),
            *grams == *old(grams),
            forall|k: int| 0 <= k < j ==> grams.deep_view()[k] != gram@,
        decreases grams.len() - j,
    {
        if grams[j] == gram {
            proof {
                assert(grams.deep_view()[j as int] == gram@);
            }
            return ;
        }
        j += 1;
    }
    grams.push(gram);
}

/// The three characters of `chars` that start at `at`, as a string.
fn gram_at(chars: &Vec<char>, at: usize) -> (gram: String)
    requires
        at + 3 <= chars.len(),
    ensures
        gram@ == chars@.subrange(at as int, at + 3),
{
    let mut gram = String::new();
    gram.push(chars[at]);
    gram.push(chars[at + 1]);
    gram.push(chars[at + 2]);
    gram
}

/// Adds the tri-grams of one word, taken as it is, to a list.
fn add_word_trigrams(grams: &mut Vec<String>, s: &str)
    ensures
        final(grams).deep_view() == merged(old(grams).deep_view(), windows(s@)),
{
    let ghost start = grams.deep_view();
    let chars = chars_of(s);
    if chars.len() < 3 {
        return ;
    }
    let count: usize = chars.len() - 2;
    let mut at: usize = 0;
    while at < count
        invariant
            chars@ == s@,
            count == chars.len() - 2,
            at <= count,
            grams.deep_view() == merged(start, windows(s@).take(at as int)),
        decreases count - at,
    {
        let gram = gram_at(&chars, at);
        proof {
            assert(windows(s@).take(at + 1) =~= windows(s@).take(at as int).push(gram@));
            lemma_merged_push(start, windows(s@).take(at as int), gram@);
        }
        insert_gram(grams, gram);
        at += 1;
    }
    proof {
        assert(windows(s@).take(count as int) == windows(s@));
    }
}

/// The distinct tri-grams of one word: every run of three neighbouring
/// characters, in the order of their first occurrence. The word is taken as
/// it is, without padding.
pub fn word_to_trigrams(s: &str) -> (grams: Vec<String>)
    ensures
        grams.deep_view() == distinct(windows(s@)),
        grams.deep_view().no_duplicates(),
        grams.deep_view().to_set() == word_trigrams(s@),
        forall|i: int| 0 <= i < grams.len() ==> (#[trigger] grams[i])@.len() == 3,
{
    let mut grams: Vec<String> = Vec::new();
    proof {
        assert(grams.deep_view() =~= Seq::empty());
    }
    add_word_trigrams(&mut grams, s);
    proof {
        lemma_merged_is_union(Seq::empty(), windows(s@));
        assert forall|i: int| 0 <= i < grams.len() implies (#[trigger] grams[i])@.len() == 3 by {
            assert(grams.deep_view().to_set().contains(grams.deep_view()[i]));
        }
    }
    grams
}

/// The distinct tri-grams of a list of words, in the order of their first
/// occurrence. A word of one or two characters gives one tri-gram, the word
/// padded with `-`.
pub fn trigrams_of_words(words: &Vec<String>) -> (grams: Vec<String>)
    ensures
        grams.deep_view() == distinct(all_windows(words.deep_view())),
        grams.deep_view().no_duplicates(),
        grams.deep_view().to_set() == trigrams_of(words.deep_view()),
        forall|i: int| 0 <= i < grams.len() ==> (#[trigger] grams[i])@.len() == 3,
        words@.len() == 0 ==> grams@.len() == 0,
{
    let mut grams: Vec<String> = Vec::new();
    let mut k: usize = 0;
    while k < words.len()
        invariant
            k <= words.len(),
            words@.len() == 0 ==> grams@.len() == 0,
            grams.deep_view() == distinct(all_windows(words.deep_view().take(k as int))),
        decreases words.len() - k,
    {
        let padded = pad_word(words[k].as_str());
        proof {
            let done = words.deep_view().take(k as int);
            assert(words.deep_view().take(k + 1) =~= done.push(words[k as int]@));
            done.lemma_flat_map_push(
                |word: Seq<char>| windows(padded_word(word)),
                words[k as int]@,
            );
            lemma_merged_add(Seq::empty(), all_windows(done), windows(padded@));
        }
        add_word_trigrams(&mut grams, padded.as_str());
        k += 1;
    }
    proof {
        assert(words.deep_view().take(words.len() as int) == words.deep_view());
        lemma_merged_is_union(Seq::empty(), all_windows(words.deep_view()));
        assert(grams.deep_view().to_set() =~= trigrams_of(words.deep_view()));
        lemma_trigrams_have_three_chars(words.deep_view());
        assert forall|i: int| 0 <= i < grams.len() implies (#[trigger] grams[i])@.len() == 3 by {
            assert(grams.deep_view().to_set().contains(grams.deep_view()[i]));
        }
    }
    grams
}

/// The distinct tri-grams of a string, in the order of their first
/// occurrence: the string is normalised and cut into words, and each word
/// gives its tri-grams. An empty string has none.
pub fn make_tri_grams(s: &str) -> (grams: Vec<String>)
    ensures
        grams.deep_view() == distinct(all_windows(unicode_words_of(normalized(s@)))),
        grams.deep_view().no_duplicates(),
        grams.deep_view().to_set() == tri_grams(s@),
        forall|i: int| 0 <= i < grams.len() ==> (#[trigger] grams[i])@.len() == 3,
        s@.len() == 0 ==> grams@.len() == 0,
{
    let converted = normalize(s);
    let words = unicode_words(converted.as_str());
    trigrams_of_words(&words)
}

} // verus!
