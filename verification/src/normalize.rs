//! Text clean-up ahead of tri-gram extraction: special characters are taken
//! out, and what is left is brought to lower-case Latin letters where a
//! transliteration is known.

use unidecode::unidecode_char;
use vstd::prelude::*;

verus! {

/// The punctuation and symbol characters that never reach a tri-gram.
pub open spec fn is_filtered(c: char) -> bool {
    c == '!' || c == '@' || c == '#' || c == '$' || c == '%' || c == '^' || c == '&' || c == '*'
        || c == '(' || c == ')' || c == '{' || c == '}' || c == '_' || c == '<' || c == '>'
        || c == ':' || c == ';' || c == ',' || c == '.' || c == '"' || c == '\'' || c == '`'
        || c == '|' || c == '+' || c == '=' || c == '/' || c == '~' || c == '[' || c == ']'
        || c == '\\' || c == '-'
}

/// True if the character stays in the string.
pub fn should_keep_char(c: &char) -> (keep: bool)
    ensures
        keep == !is_filtered(*c),
{
    match *c {
        '!' | '@' | '#' | '$' | '%' | '^' | '&' | '*' | '(' | ')' | '{' | '}' | '_' | '<' | '>'
        | ':' | ';' | ',' | '.' | '"' | '\'' | '`' | '|' | '+' | '=' | '/' | '~' | '[' | ']'
        | '\\' | '-' => false,
        _ => true,
    }
}

/// The ASCII transliteration that `unidecode::unidecode_char` gives for a
/// character; empty where it knows none.
pub uninterp spec fn unidecode_of(c: char) -> Seq<char>;

/// `unidecode::unidecode_char` looks the character up in a fixed table, so its
/// result depends on the character alone.
pub assume_specification[ unidecode::unidecode_char ](ch: char) -> (latin: &'static str)
    ensures
        latin@ == unidecode_of(ch),
;

/// The lower-case form that `str::to_lowercase` gives for a string.
pub uninterp spec fn lowercase_of(s: Seq<char>) -> Seq<char>;

/// `str::to_lowercase` maps a string to its lower-case equivalent as Unicode
/// defines it, which depends on the string alone.
pub assume_specification[ str::to_lowercase ](s: &str) -> (lower: String)
    ensures
        lower@ == lowercase_of(s@),
;

/// `String::push` appends one character.
pub assume_specification[ String::push ](s: &mut String, ch: char)
    ensures
        final(s)@ == old(s)@.push(ch),
;

/// What a character becomes when `latin` is its transliteration: the
/// lower-cased transliteration, or the character itself where there is none.
pub open spec fn lowered_or_char(c: char, latin: Seq<char>) -> Seq<char> {
    if latin.len() == 0 {
        seq![c]
    } else {
        lowercase_of(latin)
    }
}

/// What a kept character contributes to the normalised string.
pub open spec fn transliteration(c: char) -> Seq<char> {
    lowered_or_char(c, unidecode_of(c))
}

/// The normalised form of a text: filtered characters are dropped, and the
/// transliterations of the others follow each other in order.
pub open spec fn normalized(text: Seq<char>) -> Seq<char> {
    text.filter(|c: char| !is_filtered(c)).flat_map(|c: char| transliteration(c))
}

/// Picks between a transliteration and the character it was made from.
pub fn transliteration_or_char(c: char, latin: &str) -> (out: String)
    ensures
        out@ == lowered_or_char(c, latin@),
{
    if latin.is_empty() {
        let mut out = String::new();
        out.push(c);
        out
    } else {
        latin.to_lowercase()
    }
}

/// Converts the character if a transliteration is known; otherwise the
/// character stands for itself, unchanged.
pub fn char_to_trans(c: char) -> (out: String)
    ensures
        out@ == transliteration(c),
{
    transliteration_or_char(c, unidecode_char(c))
}

/// Appending one character to a text appends its contribution to the
/// normalised form.
pub proof fn lemma_normalized_push(text: Seq<char>, c: char)
    ensures
        normalized(text.push(c)) == normalized(text) + if is_filtered(c) {
            Seq::<char>::empty()
        } else {
            transliteration(c)
        },
{
    let keep = |c: char| !is_filtered(c);
    let trans = |c: char| transliteration(c);
    text.lemma_filter_push(c, keep);
    if !is_filtered(c) {
        text.filter(keep).lemma_flat_map_push(trans, c);
    }
}

/// A text is its own normalised form if none of its characters is filtered
/// and none has a transliteration: such characters are neither dropped nor
/// replaced.
pub proof fn lemma_untransliterated_text_is_kept(text: Seq<char>)
    requires
        forall|i: int|
            0 <= i < text.len() ==> !is_filtered(#[trigger] text[i]) && unidecode_of(text[i]).len()
                == 0,
    ensures
        normalized(text) == text,
    decreases text.len(),
{
    if text.len() > 0 {
        lemma_untransliterated_text_is_kept(text.drop_last());
        assert(text == text.drop_last().push(text.last()));
        lemma_normalized_push(text.drop_last(), text.last());
    }
}

/// Normalises a string.
pub fn normalize(s: &str) -> (out: String)
    ensures
        out@ == normalized(s@),
        s@.len() == 0 ==> out@.len() == 0,
{
    let mut out = String::new();
    for c in it: s.chars()
        invariant
            it.seq() == s@,
            out@ == normalized(s@.take(it.index())),
    {
        proof {
            assert(s@.take(it.index() + 1) == s@.take(it.index()).push(c));
            lemma_normalized_push(s@.take(it.index()), c);
        }
        if should_keep_char(&c) {
            let piece = char_to_trans(c);
            out.append(piece.as_str());
        }
    }
    proof {
        assert(s@.take(s@.len() as int) == s@);
    }
    out
}

} // verus!
