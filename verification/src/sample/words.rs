//! Words in a text.

use crate::text::{chars_of, join, texts};
use vstd::prelude::*;

verus! {

/// True of the characters that part words: blank, line feed, tab, comma,
/// semicolon and full stop.
pub open spec fn is_delimiter(c: char) -> bool {
    c == ' ' || c == '\n' || c == '\t' || c == ',' || c == ';' || c == '.'
}

/// The lower case form of an upper case letter `A` to `Z`; any other
/// character as it is.
pub open spec fn lower(c: char) -> char {
    if 'A' <= c <= 'Z' {
        ((c as u8) + 32) as char
    } else {
        c
    }
}

/// The words of `s` from the word that begins at `start`, in lower case;
/// the text before `i` is read. Words are parted by delimiters, and no
/// word is empty.
pub open spec fn words_from(s: Seq<char>, start: int, i: int) -> Seq<Seq<char>>
    decreases s.len() - i,
{
    if 0 <= start <= i < s.len() {
        if is_delimiter(s[i]) {
            (if start < i {
                seq![s.subrange(start, i).map_values(|c: char| lower(c))]
            } else {
                Seq::empty()
            }) + words_from(s, i + 1, i + 1)
        } else {
            words_from(s, start, i + 1)
        }
    } else if 0 <= start < s.len() {
        seq![s.subrange(start, s.len() as int).map_values(|c: char| lower(c))]
    } else {
        Seq::empty()
    }
}

/// The string of the characters `chars[from..to]` in lower case.
fn lower_text(chars: &[char], from: usize, to: usize) -> (r: String)
    requires
        from <= to <= chars@.len(),
    ensures
        r@ == chars@.subrange(from as int, to as int).map_values(|c: char| lower(c)),
{
    let mut out = String::new();
    let mut i: usize = from;
    while i < to
        invariant
            from <= i <= to <= chars@.len(),
            out@ == chars@.subrange(from as int, i as int).map_values(|c: char| lower(c)),
        decreases to - i,
    {
        let c = chars[i];
        let l = if 'A' <= c && c <= 'Z' {
            ((c as u8) + 32) as char
        } else {
            c
        };
        out.push(l);
        i = i + 1;
    }
    out
}

/// The words of a text, in lower case.
pub fn split_words(input: &str) -> (r: Vec<String>)
    ensures
        texts(r@) == words_from(input@, 0, 0),
{
    let chars = chars_of(input);
    let n = chars.len();
    let mut words: Vec<String> = Vec::new();
    let mut start: usize = 0;
    let mut i: usize = 0;
    while i < n
        invariant
            n == chars@.len(),
            chars@ == input@,
            0 <= start <= i <= n,
            texts(words@) + words_from(input@, start as int, i as int) == words_from(input@, 0, 0),
        decreases n - i,
    {
        let c = chars[i];
        if c == ' ' || c == '\n' || c == '\t' || c == ',' || c == ';' || c == '.' {
            if start < i {
                words.push(lower_text(chars.as_slice(), start, i));
            }
            start = i + 1;
        }
        i = i + 1;
    }
    if start < n {
        words.push(lower_text(chars.as_slice(), start, n));
    }
    words
}

/// The words in one text, with `sep` between each two and `term` at the
/// end, if there is one.
pub fn join_words(words: &[String], sep: &str, term: Option<&str>) -> (r: String)
    ensures
        r@ == join(texts(words@), sep@) + (match term {
            Some(t) => t@,
            None => Seq::empty(),
        }),
{
    let mut all: Vec<String> = Vec::new();
    let mut i: usize = 0;
    while i < words.len()
        invariant
            i <= words.len(),
            all.len() == i,
            forall|j: int| 0 <= j < i ==> (#[trigger] all@[j])@ == words@[j]@,
        decreases words.len() - i,
    {
        all.push(words[i].clone());
        i = i + 1;
    }
    assert(texts(all@) =~= texts(words@));
    let mut out = crate::text::join_texts(&all, sep);
    if let Some(t) = term {
        out.push_str(t);
    }
    out
}

} // verus!
