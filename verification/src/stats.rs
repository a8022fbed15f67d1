//! What is shown about a note's text: its words and the time to read them.

use vstd::prelude::*;
use crate::text::chars_of;

verus! {

/// The number of words that are read in a minute.
pub const WORDS_PER_MINUTE: usize = 200;

/// The characters that separate words: those with the Unicode property
/// White_Space.
pub open spec fn is_space(c: char) -> bool {
    let u = c as u32;
    ||| 0x09 <= u <= 0x0D
    ||| u == 0x20
    ||| u == 0x85
    ||| u == 0xA0
    ||| u == 0x1680
    ||| 0x2000 <= u <= 0x200A
    ||| u == 0x2028
    ||| u == 0x2029
    ||| u == 0x202F
    ||| u == 0x205F
    ||| u == 0x3000
}

/// A word starts at `i`: a character that is no space and follows a space or
/// nothing.
pub open spec fn starts_word(text: Seq<char>, i: int) -> bool {
    &&& 0 <= i < text.len()
    &&& !is_space(text[i])
    &&& (i == 0 || is_space(text[i - 1]))
}

/// The number of words among the first `n` characters of `text`.
pub open spec fn words_before(text: Seq<char>, n: int) -> nat
    decreases n,
{
    if n <= 0 {
        0
    } else {
        words_before(text, n - 1) + if starts_word(text, n - 1) {
            1nat
        } else {
            0nat
        }
    }
}

/// The number of words in `text`: of its runs of characters that are no spaces.
pub open spec fn word_count(text: Seq<char>) -> nat {
    words_before(text, text.len() as int)
}

/// The minutes that reading `words` words takes, rounded up.
pub open spec fn reading_minutes(words: nat) -> nat {
    (words + WORDS_PER_MINUTE - 1) as nat / (WORDS_PER_MINUTE as nat)
}

/// What is shown for a note's text: the number of words and the minutes to
/// read them; both 0 where there is no text.
pub open spec fn stats_of(text: Option<Seq<char>>) -> (nat, nat) {
    match text {
        Some(t) => (word_count(t), reading_minutes(word_count(t))),
        None => (0, 0),
    }
}

/// Whether a character separates words.
pub fn space(c: char) -> (r: bool)
    ensures
        r == is_space(c),
{
    let u: u32 = c as u32;
    (0x09 <= u && u <= 0x0D) || u == 0x20 || u == 0x85 || u == 0xA0 || u == 0x1680 || (0x2000 <= u
        && u <= 0x200A) || u == 0x2028 || u == 0x2029 || u == 0x202F || u == 0x205F || u == 0x3000
}

/// Counts the words of `text`.
pub fn count_words(text: &str) -> (words: usize)
    ensures
        words == word_count(text@),
{
    let chars = chars_of(text);
    let mut words: usize = 0;
    let mut after_space: bool = true;
    let mut i: usize = 0;
    while i < chars.len()
        invariant
            i <= chars.len(),
            chars@ == text@,
            words == words_before(text@, i as int),
            words <= i,
            after_space == (i == 0 || is_space(text@[i - 1])),
        decreases chars.len() - i,
    {
        let here = space(chars[i]);
        if !here && after_space {
            words += 1;
        }
        after_space = here;
        i += 1;
    }
    words
}

/// The minutes that reading `words` words takes, rounded up.
pub fn minutes_for(words: usize) -> (minutes: usize)
    ensures
        minutes == reading_minutes(words as nat),
{
    if words % WORDS_PER_MINUTE == 0 {
        words / WORDS_PER_MINUTE
    } else {
        words / WORDS_PER_MINUTE + 1
    }
}

/// The number of words of a note's text and the minutes to read them; both 0
/// where there is no text: no note is selected, or it could not be read.
pub fn compute_stats(text: Option<&str>) -> (stats: (usize, usize))
    ensures
        (stats.0 as nat, stats.1 as nat) == stats_of(
            match text {
                Some(t) => Some(t@),
                None => None,
            },
        ),
{
    match text {
        Some(t) => {
            let words = count_words(t);
            (words, minutes_for(words))
        },
        None => (0, 0),
    }
}

} // verus!
