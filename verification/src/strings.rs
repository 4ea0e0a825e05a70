//! Trimming, splitting into words and removing occurrences, on strings as
//! sequences of characters.

use crate::text::{char_is_whitespace, is_whitespace, push_char};
use vstd::prelude::*;

verus! {

/// The character sequences of a sequence of strings.
pub open spec fn views(strings: Seq<String>) -> Seq<Seq<char>> {
    strings.map_values(|s: String| s@)
}

/// `s` without the whitespace it begins with.
pub open spec fn trim_start(s: Seq<char>) -> Seq<char>
    decreases s.len(),
{
    if s.len() > 0 && is_whitespace(s[0]) {
        trim_start(s.drop_first())
    } else {
        s
    }
}

/// `s` without the whitespace it ends with.
pub open spec fn trim_end(s: Seq<char>) -> Seq<char>
    decreases s.len(),
{
    if s.len() > 0 && is_whitespace(s.last()) {
        trim_end(s.drop_last())
    } else {
        s
    }
}

/// `s` without the whitespace around it.
pub open spec fn trimmed(s: Seq<char>) -> Seq<char> {
    trim_end(trim_start(s))
}

/// The number of characters up to the first whitespace of `s`, or up to
/// its end.
pub open spec fn word_len(s: Seq<char>) -> nat
    decreases s.len(),
{
    if s.len() == 0 || is_whitespace(s[0]) {
        0
    } else {
        1 + word_len(s.drop_first())
    }
}

/// The words of `s` in order: its longest stretches without whitespace.
pub open spec fn words(s: Seq<char>) -> Seq<Seq<char>>
    decreases s.len(),
{
    if s.len() == 0 {
        Seq::empty()
    } else if is_whitespace(s[0]) {
        words(s.drop_first())
    } else {
        proof {
            lemma_word_len_bounds(s);
        }
        seq![s.take(word_len(s) as int)] + words(s.skip(word_len(s) as int))
    }
}

/// `s` without the occurrences of `pattern`: they are sought from left to
/// right, and the search goes on behind each one found, so that occurrences
/// which overlap an earlier one are not seen. An empty pattern occurs
/// nowhere.
pub open spec fn without(s: Seq<char>, pattern: Seq<char>) -> Seq<char>
    decreases s.len(),
{
    if pattern.len() == 0 || s.len() < pattern.len() {
        s
    } else if pattern.is_prefix_of(s) {
        without(s.skip(pattern.len() as int), pattern)
    } else {
        seq![s[0]] + without(s.drop_first(), pattern)
    }
}

/// A word is no longer than the text it begins.
pub proof fn lemma_word_len_bounds(s: Seq<char>)
    ensures
        word_len(s) <= s.len(),
        s.len() > 0 && !is_whitespace(s[0]) ==> word_len(s) >= 1,
    decreases s.len(),
{
    if s.len() > 0 && !is_whitespace(s[0]) {
        lemma_word_len_bounds(s.drop_first());
    }
}

/// The first word of `s` has `n` characters where none of the first `n` is
/// whitespace and the next one, if there is one, is.
proof fn lemma_word_len(s: Seq<char>, n: int)
    requires
        0 <= n <= s.len(),
        forall|k: int| 0 <= k < n ==> !is_whitespace(s[k]),
        n == s.len() || is_whitespace(s[n]),
    ensures
        word_len(s) == n,
    decreases n,
{
    if n > 0 {
        lemma_word_len(s.drop_first(), n - 1);
    }
}

/// Trimming at the start drops the first `n` characters where all of them
/// are whitespace and the next one, if there is one, is not.
proof fn lemma_trim_start(s: Seq<char>, n: int)
    requires
        0 <= n <= s.len(),
        forall|k: int| 0 <= k < n ==> is_whitespace(s[k]),
        n == s.len() || !is_whitespace(s[n]),
    ensures
        trim_start(s) == s.skip(n),
    decreases n,
{
    if n > 0 {
        lemma_trim_start(s.drop_first(), n - 1);
        assert(s.drop_first().skip(n - 1) =~= s.skip(n));
    } else {
        assert(s.skip(0) =~= s);
    }
}

/// Trimming at the end keeps the first `n` characters where all after them
/// are whitespace and the last of them, if there is one, is not.
proof fn lemma_trim_end(s: Seq<char>, n: int)
    requires
        0 <= n <= s.len(),
        forall|k: int| n <= k < s.len() ==> is_whitespace(s[k]),
        n == 0 || !is_whitespace(s[n - 1]),
    ensures
        trim_end(s) == s.take(n),
    decreases s.len() - n,
{
    if n < s.len() {
        lemma_trim_end(s.drop_last(), n);
        assert(s.drop_last().take(n) =~= s.take(n));
    } else {
        assert(s.take(n) =~= s);
    }
}

/// The characters of a string.
pub fn chars_of(s: &str) -> (chars: Vec<char>)
    ensures
        chars@ == s@,
{
    let mut chars: Vec<char> = Vec::new();
    for c in it: s.chars()
        invariant
            it.seq() == s@,
            chars@ == s@.take(it.index() as int),
    {
        chars.push(c);
        assert(chars@ =~= s@.take(it.index() + 1));
    }
    assert(s@.take(s@.len() as int) =~= s@);
    chars
}

/// The string of the characters from index `from` up to index `to`.
pub fn string_of(chars: &Vec<char>, from: usize, to: usize) -> (out: String)
    requires
        from <= to <= chars.len(),
    ensures
        out@ == chars@.subrange(from as int, to as int),
{
    let mut out = String::new();
    let mut i: usize = from;
    assert(out@ =~= chars@.subrange(from as int, i as int));
    while i < to
        invariant
            from <= i <= to <= chars.len(),
            out@ == chars@.subrange(from as int, i as int),
        decreases to - i,
    {
        push_char(&mut out, chars[i]);
        i += 1;
        assert(out@ =~= chars@.subrange(from as int, i as int));
    }
    out
}

fn blanks_of(chars: &Vec<char>) -> (blank: Vec<bool>)
    ensures
        blank.len() == chars.len(),
        forall|i: int| 0 <= i < chars.len() ==> blank@[i] == is_whitespace(chars@[i]),
{
    let mut blank: Vec<bool> = Vec::new();
    let mut i: usize = 0;
    while i < chars.len()
        invariant
            i <= chars.len(),
            blank.len() == i,
            forall|k: int| 0 <= k < i ==> blank@[k] == is_whitespace(chars@[k]),
        decreases chars.len() - i,
    {
        blank.push(char_is_whitespace(chars[i]));
        i += 1;
    }
    blank
}

/// `s` without the whitespace around it.
pub fn trim(s: &str) -> (out: String)
    ensures
        out@ == trimmed(s@),
{
    let chars = chars_of(s);
    let blank = blanks_of(&chars);
    let mut from: usize = 0;
    while from < chars.len() && blank[from]
        invariant
            from <= chars.len(),
            blank.len() == chars.len(),
            forall|i: int| 0 <= i < chars.len() ==> blank@[i] == is_whitespace(chars@[i]),
            forall|k: int| 0 <= k < from ==> is_whitespace(chars@[k]),
        decreases chars.len() - from,
    {
        from += 1;
    }
    let mut to: usize = chars.len();
    while to > from && blank[to - 1]
        invariant
            from <= to <= chars.len(),
            blank.len() == chars.len(),
            forall|i: int| 0 <= i < chars.len() ==> blank@[i] == is_whitespace(chars@[i]),
            forall|k: int| to <= k < chars.len() ==> is_whitespace(chars@[k]),
        decreases to,
    {
        to -= 1;
    }
    proof {
        let rest = chars@.skip(from as int);
        lemma_trim_start(chars@, from as int);
        lemma_trim_end(rest, to - from);
        assert(rest.take(to - from) =~= chars@.subrange(from as int, to as int));
    }
    string_of(&chars, from, to)
}

/// The words of `s`, in order.
pub fn split_words(s: &str) -> (out: Vec<String>)
    ensures
        views(out@) == words(s@),
{
    let chars = chars_of(s);
    let blank = blanks_of(&chars);
    let mut out: Vec<String> = Vec::new();
    let mut i: usize = 0;
    assert(chars@.skip(0) =~= chars@);
    assert(views(out@) + words(chars@) =~= words(chars@));
    while i < chars.len()
        invariant
            i <= chars.len(),
            blank.len() == chars.len(),
            forall|k: int| 0 <= k < chars.len() ==> blank@[k] == is_whitespace(chars@[k]),
            views(out@) + words(chars@.skip(i as int)) == words(chars@),
        decreases chars.len() - i,
    {
        let ghost rest = chars@.skip(i as int);
        if blank[i] {
            assert(rest.drop_first() =~= chars@.skip(i + 1));
            i += 1;
        } else {
            let mut j: usize = i + 1;
            while j < chars.len() && !blank[j]
                invariant
                    i < j <= chars.len(),
                    blank.len() == chars.len(),
                    forall|k: int|
                        0 <= k < chars.len() ==> blank@[k] == is_whitespace(chars@[k]),
                    forall|k: int| i <= k < j ==> !is_whitespace(chars@[k]),
                decreases chars.len() - j,
            {
                j += 1;
            }
            let word = string_of(&chars, i, j);
            let ghost before = views(out@);
            proof {
                lemma_word_len(rest, j - i);
                assert(rest.take(j - i) =~= chars@.subrange(i as int, j as int));
                assert(rest.skip(j - i) =~= chars@.skip(j as int));
            }
            out.push(word);
            assert(views(out@) =~= before.push(word@));
            assert(views(out@) + words(chars@.skip(j as int)) =~= before + (seq![word@] + words(
                chars@.skip(j as int),
            )));
            i = j;
        }
    }
    assert(chars@.skip(chars@.len() as int) =~= Seq::<char>::empty());
    assert(views(out@) + Seq::<Seq<char>>::empty() =~= views(out@));
    out
}

fn matches_at(text: &Vec<char>, at: usize, pattern: &Vec<char>) -> (found: bool)
    requires
        at <= text.len(),
    ensures
        found == pattern@.is_prefix_of(text@.skip(at as int)),
{
    let rest = text.len() - at;
    if pattern.len() > rest {
        return false;
    }
    let mut j: usize = 0;
    while j < pattern.len()
        invariant
            j <= pattern.len() <= text.len() - at,
            forall|k: int| 0 <= k < j ==> pattern@[k] == text@[at + k],
        decreases pattern.len() - j,
    {
        if pattern[j] != text[at + j] {
            assert(text@.skip(at as int).subrange(0, pattern@.len() as int)[j as int]
                != pattern@[j as int]);
            return false;
        }
        j += 1;
    }
    assert(pattern@ =~= text@.skip(at as int).subrange(0, pattern@.len() as int));
    true
}

/// Removes every occurrence of `pattern` from `s`.
pub fn remove_all(s: &str, pattern: &str) -> (out: String)
    ensures
        out@ == without(s@, pattern@),
{
    let text = chars_of(s);
    let sought = chars_of(pattern);
    if sought.len() == 0 {
        return s.to_owned();
    }
    let mut out = String::new();
    let mut i: usize = 0;
    assert(text@.skip(0) =~= text@);
    assert(out@ + without(text@, sought@) =~= without(text@, sought@));
    while i < text.len()
        invariant
            i <= text.len(),
            sought@.len() > 0,
            out@ + without(text@.skip(i as int), sought@) == without(text@, sought@),
        decreases text.len() - i,
    {
        let ghost rest = text@.skip(i as int);
        if matches_at(&text, i, &sought) {
            assert(rest.skip(sought@.len() as int) =~= text@.skip(i + sought@.len()));
            i += sought.len();
        } else {
            assert(rest.drop_first() =~= text@.skip(i + 1));
            assert(rest[0] == text@[i as int]);
            assert(without(rest, sought@) == seq![rest[0]] + without(
                rest.drop_first(),
                sought@,
            )) by {
                if rest.len() < sought@.len() {
                    assert(without(rest.drop_first(), sought@) == rest.drop_first());
                    assert(rest =~= seq![rest[0]] + rest.drop_first());
                }
            }
            let ghost before = out@;
            push_char(&mut out, text[i]);
            assert(out@ + without(rest.drop_first(), sought@) =~= before + (seq![rest[0]]
                + without(rest.drop_first(), sought@)));
            i += 1;
        }
    }
    assert(text@.skip(text@.len() as int) =~= Seq::<char>::empty());
    assert(out@ + Seq::<char>::empty() =~= out@);
    out
}

} // verus!
