//! The four metrics of a text: bytes, lines, words and characters.
//!
//! A text is modelled as its sequence of Unicode scalar values (`Seq<char>`),
//! which is the view of `str`. Each metric is a spec function on that
//! sequence, and each counter is proved to compute it.

use vstd::prelude::*;
use vstd::utf8::*;

verus! {

/// Whether `c` is white space: a code point with the Unicode `White_Space`
/// property. That covers the space, tab, line feed and carriage return, the
/// other ASCII controls U+000B and U+000C, and the non-ASCII separators
/// listed below.
pub open spec fn is_whitespace(c: char) -> bool {
    let u = c as u32;
    ||| 0x0009 <= u <= 0x000D
    ||| u == 0x0020
    ||| u == 0x0085
    ||| u == 0x00A0
    ||| u == 0x1680
    ||| 0x2000 <= u <= 0x200A
    ||| u == 0x2028
    ||| u == 0x2029
    ||| u == 0x202F
    ||| u == 0x205F
    ||| u == 0x3000
}

/// The length of the UTF-8 encoding of `text`.
pub open spec fn byte_count(text: Seq<char>) -> nat {
    encode_utf8(text).len()
}

/// The number of Unicode scalar values in `text`.
pub open spec fn char_count(text: Seq<char>) -> nat {
    text.len()
}

/// The number of lines of `text`: how often the line feed `'\n'` occurs in
/// it. Nothing else ends a line, and what follows the last line feed is not
/// counted as a line.
pub open spec fn line_count(text: Seq<char>) -> nat {
    text.to_multiset().count('\n')
}

/// Whether a word starts at index `i` of `text`: the character there is not
/// white space, and it is the first of the text or follows white space.
pub open spec fn is_word_start(text: Seq<char>, i: int) -> bool {
    &&& 0 <= i < text.len()
    &&& !is_whitespace(text[i])
    &&& (i == 0 || is_whitespace(text[i - 1]))
}

/// The indices of `text` at which a word starts.
pub open spec fn word_starts(text: Seq<char>) -> Set<int> {
    Set::new(|i: int| is_word_start(text, i))
}

/// The number of words of `text`: of maximal runs of characters that are not
/// white space. Every such run starts at exactly one index, so this is the
/// number of indices at which a word starts.
pub open spec fn word_count(text: Seq<char>) -> nat {
    word_starts(text).len()
}

/// Whether the characters of `text` from index `from` up to index `to` are a
/// word: none of them is white space, and the run cannot be made longer,
/// since it is bounded on each side by white space or by an end of the text.
pub open spec fn is_word(text: Seq<char>, from: int, to: int) -> bool {
    &&& 0 <= from < to <= text.len()
    &&& forall|i: int| from <= i < to ==> !is_whitespace(#[trigger] text[i])
    &&& (from == 0 || is_whitespace(text[from - 1]))
    &&& (to == text.len() || is_whitespace(text[to]))
}

/// The first index from `from` on that holds white space, or the length of
/// the text where there is none.
pub open spec fn word_end(text: Seq<char>, from: int) -> int
    decreases text.len() - from,
{
    if from < 0 || from >= text.len() || is_whitespace(text[from]) {
        from
    } else {
        word_end(text, from + 1)
    }
}

/// From `from` up to `word_end(text, from)` there is no white space, and the
/// run ends at white space or at the end of the text.
pub proof fn lemma_word_end(text: Seq<char>, from: int)
    requires
        0 <= from <= text.len(),
    ensures
        from <= word_end(text, from) <= text.len(),
        forall|i: int| from <= i < word_end(text, from) ==> !is_whitespace(#[trigger] text[i]),
        word_end(text, from) == text.len() || is_whitespace(text[word_end(text, from)]),
    decreases text.len() - from,
{
    if from < text.len() && !is_whitespace(text[from]) {
        lemma_word_end(text, from + 1);
    }
}

/// A run without white space that ends at white space or at the end of the
/// text ends at `word_end`.
pub proof fn lemma_word_end_unique(text: Seq<char>, from: int, to: int)
    requires
        0 <= from <= to <= text.len(),
        forall|i: int| from <= i < to ==> !is_whitespace(#[trigger] text[i]),
        to == text.len() || is_whitespace(text[to]),
    ensures
        word_end(text, from) == to,
    decreases to - from,
{
    if from < to {
        assert(!is_whitespace(text[from]));
        lemma_word_end_unique(text, from + 1, to);
    }
}

/// The words of a text are one for each index at which a word starts: a word
/// starts at such an index, and a word starts there and ends where the run
/// from that index ends. So a text has as many words as it has indices at
/// which a word starts.
pub proof fn lemma_words_and_word_starts(text: Seq<char>, from: int, to: int)
    ensures
        is_word(text, from, to) <==> is_word_start(text, from) && to == word_end(text, from),
{
    if is_word(text, from, to) {
        assert(!is_whitespace(text[from]));
        lemma_word_end_unique(text, from, to);
    }
    if is_word_start(text, from) && to == word_end(text, from) {
        lemma_word_end(text, from);
        lemma_word_end(text, from + 1);
    }
}

/// The empty text has no line and no word.
pub proof fn lemma_empty_text()
    ensures
        line_count(Seq::empty()) == 0,
        word_count(Seq::empty()) == 0,
{
    assert(Seq::<char>::empty().to_multiset() =~= vstd::multiset::Multiset::empty()) by {
        Seq::<char>::empty().to_multiset_ensures();
        vstd::seq_lib::to_multiset_len(Seq::<char>::empty());
    }
    assert(word_starts(Seq::empty()) =~= Set::empty());
}

/// One more character is one more line if it is a line feed, and none
/// otherwise.
pub proof fn lemma_line_count_push(text: Seq<char>, c: char)
    ensures
        line_count(text.push(c)) == line_count(text) + if c == '\n' {
            1nat
        } else {
            0nat
        },
{
    vstd::seq_lib::to_multiset_build(text, c);
}

/// A text has at most as many lines as characters.
pub proof fn lemma_line_count_bound(text: Seq<char>)
    ensures
        line_count(text) <= char_count(text),
    decreases text.len(),
{
    if text.len() == 0 {
        lemma_empty_text();
        assert(text =~= Seq::empty());
    } else {
        lemma_line_count_bound(text.drop_last());
        lemma_line_count_push(text.drop_last(), text.last());
        assert(text =~= text.drop_last().push(text.last()));
    }
}

/// The indices at which words start are finitely many, and at most as many
/// as the text has characters.
pub proof fn lemma_word_count_bound(text: Seq<char>)
    ensures
        word_starts(text).finite(),
        word_count(text) <= char_count(text),
{
    let indices = vstd::set_lib::set_int_range(0, text.len() as int);
    vstd::set_lib::lemma_int_range(0, text.len() as int);
    assert(word_starts(text).subset_of(indices));
    vstd::set_lib::lemma_len_subset(word_starts(text), indices);
}

/// One more character is one more word if it is not white space and stands
/// first or after white space, and none otherwise.
pub proof fn lemma_word_count_push(text: Seq<char>, c: char)
    ensures
        word_count(text.push(c)) == word_count(text) + if is_word_start(
            text.push(c),
            text.len() as int,
        ) {
            1nat
        } else {
            0nat
        },
{
    let longer = text.push(c);
    let last = text.len() as int;
    lemma_word_count_bound(text);
    assert forall|i: int| i != last implies is_word_start(longer, i) == is_word_start(text, i) by {
        if 0 <= i < last {
            assert(longer[i] == text[i]);
            if i > 0 {
                assert(longer[i - 1] == text[i - 1]);
            }
        }
    }
    if is_word_start(longer, last) {
        assert(word_starts(longer) =~= word_starts(text).insert(last));
    } else {
        assert(word_starts(longer) =~= word_starts(text));
    }
}

/// A character takes one byte in UTF-8 if it is ASCII, and two to four
/// otherwise.
pub proof fn lemma_encoded_width(c: char)
    ensures
        1 <= encode_scalar(c as u32).len() <= 4,
        encode_scalar(c as u32).len() == 1 <==> '\0' <= c <= '\u{7f}',
{
}

/// The byte count of a text is at least its character count. The two are
/// equal exactly when the text is pure ASCII, so a text that holds any other
/// scalar value has strictly more bytes than characters.
pub proof fn lemma_bytes_and_chars(text: Seq<char>)
    ensures
        byte_count(text) >= char_count(text),
        byte_count(text) == char_count(text) <==> is_ascii_chars(text),
    decreases text.len(),
{
    if text.len() > 0 {
        let rest = text.drop_first();
        lemma_encoded_width(text[0]);
        lemma_bytes_and_chars(rest);
        if is_ascii_chars(text) {
            assert forall|i: int| 0 <= i < rest.len() implies '\0' <= #[trigger] rest[i]
                <= '\u{7f}' by {
                assert(rest[i] == text[i + 1]);
            }
        }
        if '\0' <= text[0] <= '\u{7f}' && is_ascii_chars(rest) {
            assert forall|i: int| 0 <= i < text.len() implies '\0' <= #[trigger] text[i]
                <= '\u{7f}' by {
                if i > 0 {
                    assert(text[i] == rest[i - 1]);
                }
            }
        }
    }
}

/// Tells white space from other characters.
pub fn is_space(c: char) -> (space: bool)
    ensures
        space == is_whitespace(c),
{
    let u: u32 = c as u32;
    (0x0009 <= u && u <= 0x000D) || u == 0x0020 || u == 0x0085 || u == 0x00A0 || u == 0x1680 || (
    0x2000 <= u && u <= 0x200A) || u == 0x2028 || u == 0x2029 || u == 0x202F || u == 0x205F || u
        == 0x3000
}

/// Counts the bytes of the UTF-8 encoding of `content`.
pub fn count_bytes(content: &str) -> (n: usize)
    ensures
        n == byte_count(content@),
{
    content.as_bytes().len()
}

/// Counts the Unicode scalar values of `content`.
pub fn count_chars(content: &str) -> (n: usize)
    ensures
        n == char_count(content@),
{
    content.unicode_len()
}

/// Counts the line feeds of `content`.
pub fn count_lines(content: &str) -> (n: usize)
    ensures
        n == line_count(content@),
{
    let bound: usize = count_bytes(content);
    proof {
        lemma_bytes_and_chars(content@);
        lemma_empty_text();
        assert(content@.take(0) =~= Seq::empty());
    }
    let mut n: usize = 0;
    for c in it: content.chars()
        invariant
            it.seq() == content@,
            content@.len() <= bound,
            n == line_count(content@.take(it.index())),
    {
        proof {
            let seen = content@.take(it.index());
            assert(content@.take(it.index() + 1) =~= seen.push(c));
            lemma_line_count_push(seen, c);
            lemma_line_count_bound(seen);
        }
        if c == '\n' {
            n = n + 1;
        }
    }
    proof {
        assert(content@.take(content@.len() as int) =~= content@);
    }
    n
}

/// Counts the words of `content`.
pub fn count_words(content: &str) -> (n: usize)
    ensures
        n == word_count(content@),
{
    let bound: usize = count_bytes(content);
    proof {
        lemma_bytes_and_chars(content@);
        lemma_empty_text();
        assert(content@.take(0) =~= Seq::empty());
    }
    let mut n: usize = 0;
    let mut in_word: bool = false;
    for c in it: content.chars()
        invariant
            it.seq() == content@,
            content@.len() <= bound,
            n == word_count(content@.take(it.index())),
            in_word == (it.index() > 0 && !is_whitespace(content@[it.index() - 1])),
    {
        proof {
            let seen = content@.take(it.index());
            assert(content@.take(it.index() + 1) =~= seen.push(c));
            lemma_word_count_push(seen, c);
            lemma_word_count_bound(seen);
        }
        let space = is_space(c);
        if !space && !in_word {
            n = n + 1;
        }
        in_word = !space;
    }
    proof {
        assert(content@.take(content@.len() as int) =~= content@);
    }
    n
}

} // verus!
