//! Blanks, lines and words of a text.
use crate::text::{
    begins_with, chars_of, find_from, find_from_exec, lemma_find, occurs_at_exec, text_between,
};
use vstd::prelude::*;

verus! {

/// The characters that Unicode calls white space.
pub open spec fn is_white(c: char) -> bool {
    ||| 0x09 <= c as u32 <= 0x0d
    ||| c as u32 == 0x20
    ||| c as u32 == 0x85
    ||| c as u32 == 0xa0
    ||| c as u32 == 0x1680
    ||| 0x2000 <= c as u32 <= 0x200a
    ||| c as u32 == 0x2028
    ||| c as u32 == 0x2029
    ||| c as u32 == 0x202f
    ||| c as u32 == 0x205f
    ||| c as u32 == 0x3000
}

pub fn is_white_exec(c: char) -> (white: bool)
    ensures
        white == is_white(c),
{
    let code: u32 = c as u32;
    (0x09 <= code && code <= 0x0d) || code == 0x20 || code == 0x85 || code == 0xa0 || code
        == 0x1680 || (0x2000 <= code && code <= 0x200a) || code == 0x2028 || code == 0x2029
        || code == 0x202f || code == 0x205f || code == 0x3000
}

/// `text` without the white space at its beginning.
pub open spec fn trim_start(text: Seq<char>) -> Seq<char>
    decreases text.len(),
{
    if text.len() > 0 && is_white(text[0]) {
        trim_start(text.skip(1))
    } else {
        text
    }
}

/// `text` without the white space at its end.
pub open spec fn trim_end(text: Seq<char>) -> Seq<char>
    decreases text.len(),
{
    if text.len() > 0 && is_white(text.last()) {
        trim_end(text.drop_last())
    } else {
        text
    }
}

/// `text` without the white space at both ends.
pub open spec fn trim(text: Seq<char>) -> Seq<char> {
    trim_end(trim_start(text))
}

proof fn lemma_trim_end(text: Seq<char>)
    ensures
        trim_end(text).len() <= text.len(),
        trim_end(text) == text.take(trim_end(text).len() as int),
        trim_end(text).len() > 0 ==> !is_white(trim_end(text).last()),
    decreases text.len(),
{
    if text.len() > 0 && is_white(text.last()) {
        lemma_trim_end(text.drop_last());
        let n = trim_end(text).len() as int;
        assert(text.drop_last().take(n) =~= text.take(n));
    } else {
        assert(text.take(text.len() as int) =~= text);
    }
}

/// What is trimmed stays as it is when it is trimmed again.
pub proof fn lemma_trim_twice(text: Seq<char>)
    ensures
        trim(trim(text)) == trim(text),
{
    let rest = trim_start(text);
    let both = trim_end(rest);
    lemma_trim_start(text);
    lemma_trim_end(rest);
    if both.len() > 0 {
        assert(both[0] == rest[0]);
        assert(!is_white(rest[0]));
        assert(trim_start(both) == both);
        assert(trim_end(both) == both);
    } else {
        assert(trim_start(both) == both);
        assert(trim_end(both) == both);
    }
}

/// Trims a part of `chars`, and gives the positions between which the rest stands.
pub fn trim_between(chars: &Vec<char>, from: usize, to: usize) -> (bounds: (usize, usize))
    requires
        from <= to <= chars@.len(),
    ensures
        from <= bounds.0 <= bounds.1 <= to,
        chars@.subrange(bounds.0 as int, bounds.1 as int) == trim(
            chars@.subrange(from as int, to as int),
        ),
{
    let mut lo: usize = from;
    while lo < to && is_white_exec(chars[lo])
        invariant
            from <= lo <= to <= chars@.len(),
            trim_start(chars@.subrange(from as int, to as int)) == trim_start(
                chars@.subrange(lo as int, to as int),
            ),
        decreases to - lo,
    {
        assert(chars@.subrange(lo as int, to as int).skip(1) =~= chars@.subrange(
            lo + 1,
            to as int,
        ));
        lo = lo + 1;
    }
    let ghost rest = chars@.subrange(lo as int, to as int);
    assert(trim_start(rest) == rest);
    let mut hi: usize = to;
    while hi > lo && is_white_exec(chars[hi - 1])
        invariant
            from <= lo <= hi <= to <= chars@.len(),
            trim_end(rest) == trim_end(chars@.subrange(lo as int, hi as int)),
        decreases hi,
    {
        assert(chars@.subrange(lo as int, hi as int).drop_last() =~= chars@.subrange(
            lo as int,
            hi - 1,
        ));
        hi = hi - 1;
    }
    (lo, hi)
}

/// `text` without the white space at both ends.
pub fn trim_exec(text: &str) -> (trimmed: String)
    ensures
        trimmed@ == trim(text@),
{
    let chars = chars_of(text);
    let (lo, hi) = trim_between(&chars, 0, chars.len());
    assert(chars@.subrange(0, chars@.len() as int) =~= text@);
    text_between(&chars, lo, hi)
}

/// `text` without any `c` at its end.
pub open spec fn trim_end_char(text: Seq<char>, c: char) -> Seq<char>
    decreases text.len(),
{
    if text.len() > 0 && text.last() == c {
        trim_end_char(text.drop_last(), c)
    } else {
        text
    }
}

pub fn trim_end_char_exec(text: &str, c: char) -> (trimmed: String)
    ensures
        trimmed@ == trim_end_char(text@, c),
{
    let chars = chars_of(text);
    let mut n: usize = chars.len();
    assert(chars@.subrange(0, n as int) =~= text@);
    while n > 0 && chars[n - 1] == c
        invariant
            n <= chars@.len(),
            trim_end_char(text@, c) == trim_end_char(chars@.subrange(0, n as int), c),
        decreases n,
    {
        assert(chars@.subrange(0, n as int).drop_last() =~= chars@.subrange(0, n - 1));
        n = n - 1;
    }
    text_between(&chars, 0, n)
}

/// `text` without any copy of `part` at its beginning.
pub open spec fn trim_start_text(text: Seq<char>, part: Seq<char>) -> Seq<char>
    decreases text.len(),
{
    if part.len() > 0 && begins_with(text, part) {
        trim_start_text(text.skip(part.len() as int), part)
    } else {
        text
    }
}

pub fn trim_start_text_exec(text: &str, part: &str) -> (trimmed: String)
    ensures
        trimmed@ == trim_start_text(text@, part@),
{
    let chars = chars_of(text);
    let prefix = chars_of(part);
    let mut at: usize = 0;
    assert(chars@.skip(0) =~= text@);
    if prefix.len() > 0 {
        while occurs_at_exec(&chars, &prefix, at)
            invariant
                chars@ == text@,
                prefix@ == part@,
                prefix@.len() > 0,
                at <= chars@.len(),
                trim_start_text(text@, part@) == trim_start_text(chars@.skip(at as int), part@),
            decreases chars@.len() - at,
        {
            proof {
                assert(chars@.skip(at as int).take(part@.len() as int) =~= chars@.subrange(
                    at as int,
                    at + part@.len(),
                ));
                assert(chars@.skip(at as int).skip(part@.len() as int) =~= chars@.skip(
                    at + part@.len(),
                ));
            }
            assert(at + prefix.len() <= chars.len());
            at = at + prefix.len();
        }
        proof {
            if begins_with(chars@.skip(at as int), part@) {
                assert(chars@.skip(at as int).take(part@.len() as int) =~= chars@.subrange(
                    at as int,
                    at + part@.len(),
                ));
            }
        }
    }
    assert(chars@.skip(at as int) =~= chars@.subrange(at as int, chars@.len() as int));
    text_between(&chars, at, chars.len())
}

/// The ASCII letter `c` in lower case; another character as it is.
pub open spec fn lower_char(c: char) -> char {
    if 'A' <= c <= 'Z' {
        ((c as u32) + 32) as char
    } else {
        c
    }
}

/// `text` with its ASCII letters in lower case.
pub open spec fn lower(text: Seq<char>) -> Seq<char> {
    text.map_values(|c: char| lower_char(c))
}

pub fn lower_char_exec(c: char) -> (lowered: char)
    ensures
        lowered == lower_char(c),
{
    if 'A' <= c && c <= 'Z' {
        ((c as u8) + 32) as char
    } else {
        c
    }
}

/// Whether a part of `chars` equals `word`, ASCII letters taken without their case.
pub fn same_lower(chars: &Vec<char>, from: usize, to: usize, word: &Vec<char>) -> (same: bool)
    requires
        from <= to <= chars@.len(),
    ensures
        same == (lower(chars@.subrange(from as int, to as int)) == lower(word@)),
{
    let ghost part = chars@.subrange(from as int, to as int);
    if to - from != word.len() {
        assert(lower(part).len() != lower(word@).len());
        return false;
    }
    for i in 0..word.len()
        invariant
            from <= to <= chars.len(),
            part == chars@.subrange(from as int, to as int),
            to - from == word@.len(),
            forall|k: int| 0 <= k < i ==> lower_char(part[k]) == lower_char(word@[k]),
    {
        if lower_char_exec(chars[from + i]) != lower_char_exec(word[i]) {
            assert(lower(part)[i as int] != lower(word@)[i as int]);
            return false;
        }
    }
    assert(lower(part) =~= lower(word@));
    true
}


// Lines.

/// The first line of a text that is not empty, without its end: a line feed, or a carriage
/// return and a line feed.
pub open spec fn first_line(text: Seq<char>) -> Seq<char> {
    let end = find_from(text, '\n', 0);
    if end == text.len() {
        text
    } else if end > 0 && text[end - 1] == '\r' {
        text.take(end - 1)
    } else {
        text.take(end)
    }
}

/// What follows the first line and its end.
pub open spec fn after_first_line(text: Seq<char>) -> Seq<char> {
    let end = find_from(text, '\n', 0);
    if end == text.len() {
        Seq::empty()
    } else {
        text.skip(end + 1)
    }
}

/// The lines of a text. What follows the last line end is a line only if it is not empty.
pub open spec fn lines(text: Seq<char>) -> Seq<Seq<char>>
    decreases text.len(),
    via lines_decreases
{
    if text.len() == 0 {
        Seq::empty()
    } else {
        seq![first_line(text)] + lines(after_first_line(text))
    }
}

#[via_fn]
proof fn lines_decreases(text: Seq<char>) {
    lemma_find(text, '\n', 0);
}

/// The lines of `chars`, each by the positions between which it stands.
pub fn line_bounds(chars: &Vec<char>) -> (bounds: Vec<(usize, usize)>)
    ensures
        bounds@.len() == lines(chars@).len(),
        forall|i: int|
            0 <= i < bounds@.len() ==> (#[trigger] bounds@[i]).0 <= bounds@[i].1 <= chars@.len()
                && chars@.subrange(bounds@[i].0 as int, bounds@[i].1 as int) == lines(chars@)[i],
{
    let mut bounds: Vec<(usize, usize)> = Vec::new();
    let mut at: usize = 0;
    assert(chars@.skip(0) =~= chars@);
    while at < chars.len()
        invariant
            at <= chars@.len(),
            lines(chars@).len() == bounds@.len() + lines(chars@.skip(at as int)).len(),
            forall|i: int|
                0 <= i < bounds@.len() ==> (#[trigger] bounds@[i]).0 <= bounds@[i].1
                    <= chars@.len() && chars@.subrange(bounds@[i].0 as int, bounds@[i].1 as int)
                    == lines(chars@)[i],
            forall|i: int|
                0 <= i < lines(chars@.skip(at as int)).len() ==> lines(chars@.skip(at as int))[i]
                    == #[trigger] lines(chars@)[bounds@.len() + i],
        decreases chars@.len() - at,
    {
        let ghost rest = chars@.skip(at as int);
        let ghost done = bounds@;
        let end = find_from_exec(chars, '\n', at);
        proof {
            lemma_find(chars@, '\n', at as int);
            lemma_find(rest, '\n', 0);
            crate::text::lemma_find_is(rest, '\n', 0, end - at);
            assert(lines(rest)[0] == first_line(rest));
            assert(lines(rest)[0] == lines(chars@)[done.len() + 0int]);
            assert(forall|i: int|
                0 <= i < lines(after_first_line(rest)).len() ==> lines(after_first_line(rest))[i]
                    == #[trigger] lines(rest)[i + 1]);
        }
        let next: usize = if end < chars.len() {
            end + 1
        } else {
            end
        };
        let stop: usize = if end < chars.len() && end > at && chars[end - 1] == '\r' {
            end - 1
        } else {
            end
        };
        proof {
            assert(chars@.subrange(at as int, stop as int) =~= first_line(rest));
            assert(after_first_line(rest) =~= chars@.skip(next as int));
        }
        bounds.push((at, stop));
        proof {
            assert forall|i: int| 0 <= i < lines(chars@.skip(next as int)).len() implies lines(
                chars@.skip(next as int),
            )[i] == #[trigger] lines(chars@)[bounds@.len() + i] by {
                assert(lines(rest)[i + 1] == lines(chars@)[done.len() + (i + 1)]);
            }
        }
        at = next;
    }
    bounds
}

// Words.

/// The length of the run of characters at the beginning of `text` that are not white space.
pub open spec fn word_len(text: Seq<char>) -> int
    decreases text.len(),
{
    if text.len() == 0 || is_white(text[0]) {
        0
    } else {
        1 + word_len(text.skip(1))
    }
}

/// The words of a text: the longest runs of characters that are not white space.
pub open spec fn words(text: Seq<char>) -> Seq<Seq<char>>
    decreases text.len(),
    via words_decreases
{
    let rest = trim_start(text);
    if rest.len() == 0 {
        Seq::empty()
    } else {
        seq![rest.take(word_len(rest))] + words(rest.skip(word_len(rest)))
    }
}

#[via_fn]
proof fn words_decreases(text: Seq<char>) {
    lemma_trim_start(text);
    lemma_word_len(trim_start(text));
}

pub proof fn lemma_trim_start(text: Seq<char>)
    ensures
        trim_start(text).len() <= text.len(),
        trim_start(text) == text.skip(text.len() - trim_start(text).len()),
        trim_start(text).len() > 0 ==> !is_white(trim_start(text)[0]),
    decreases text.len(),
{
    if text.len() > 0 && is_white(text[0]) {
        lemma_trim_start(text.skip(1));
        assert(text.skip(1).skip(text.skip(1).len() - trim_start(text).len()) =~= text.skip(
            text.len() - trim_start(text).len(),
        ));
    } else {
        assert(text.skip(0) =~= text);
    }
}

pub proof fn lemma_word_len(text: Seq<char>)
    ensures
        0 <= word_len(text) <= text.len(),
        text.len() > 0 && !is_white(text[0]) ==> word_len(text) > 0,
        forall|k: int| 0 <= k < word_len(text) ==> !is_white(text[k]),
        word_len(text) < text.len() ==> is_white(text[word_len(text)]),
    decreases text.len(),
{
    if text.len() > 0 && !is_white(text[0]) {
        lemma_word_len(text.skip(1));
        assert forall|k: int| 0 <= k < word_len(text) implies !is_white(text[k]) by {
            if k > 0 {
                assert(text.skip(1)[k - 1] == text[k]);
            }
        }
    }
}

/// The length of a word is that of a run which white space, or the end, follows.
pub proof fn lemma_word_len_is(text: Seq<char>, n: int)
    requires
        0 <= n <= text.len(),
        forall|k: int| 0 <= k < n ==> !is_white(text[k]),
        n < text.len() ==> is_white(text[n]),
    ensures
        word_len(text) == n,
    decreases n,
{
    if n > 0 {
        assert forall|k: int| 0 <= k < n - 1 implies !is_white(text.skip(1)[k]) by {
            assert(text.skip(1)[k] == text[k + 1]);
        }
        lemma_word_len_is(text.skip(1), n - 1);
    }
}

/// The words of a part of `chars`, each by the positions between which it stands.
pub fn word_bounds(chars: &Vec<char>, from: usize, to: usize) -> (bounds: Vec<(usize, usize)>)
    requires
        from <= to <= chars@.len(),
    ensures
        bounds@.len() == words(chars@.subrange(from as int, to as int)).len(),
        forall|i: int|
            0 <= i < bounds@.len() ==> (#[trigger] bounds@[i]).0 <= bounds@[i].1 <= chars@.len()
                && chars@.subrange(bounds@[i].0 as int, bounds@[i].1 as int) == words(
                chars@.subrange(from as int, to as int),
            )[i],
{
    let ghost all = words(chars@.subrange(from as int, to as int));
    let mut bounds: Vec<(usize, usize)> = Vec::new();
    let mut at: usize = from;
    let mut more: bool = true;
    while more
        invariant
            from <= at <= to <= chars@.len(),
            all.len() == bounds@.len() + (if more {
                words(chars@.subrange(at as int, to as int)).len()
            } else {
                0
            }),
            forall|i: int|
                0 <= i < bounds@.len() ==> (#[trigger] bounds@[i]).0 <= bounds@[i].1
                    <= chars@.len() && chars@.subrange(bounds@[i].0 as int, bounds@[i].1 as int)
                    == all[i],
            more ==> forall|i: int|
                0 <= i < words(chars@.subrange(at as int, to as int)).len() ==> words(
                    chars@.subrange(at as int, to as int),
                )[i] == #[trigger] all[bounds@.len() + i],
        decreases to - at, more as int,
    {
        let ghost rest = chars@.subrange(at as int, to as int);
        let ghost done = bounds@;
        let mut lo: usize = at;
        while lo < to && is_white_exec(chars[lo])
            invariant
                at <= lo <= to <= chars@.len(),
                trim_start(rest) == trim_start(chars@.subrange(lo as int, to as int)),
            decreases to - lo,
        {
            assert(chars@.subrange(lo as int, to as int).skip(1) =~= chars@.subrange(
                lo + 1,
                to as int,
            ));
            lo = lo + 1;
        }
        let ghost body = chars@.subrange(lo as int, to as int);
        assert(trim_start(rest) == body);
        if lo == to {
            more = false;
            at = to;
        } else {
            let mut hi: usize = lo;
            while hi < to && !is_white_exec(chars[hi])
                invariant
                    lo <= hi <= to <= chars@.len(),
                    body == chars@.subrange(lo as int, to as int),
                    forall|k: int| 0 <= k < hi - lo ==> !is_white(body[k]),
                decreases to - hi,
            {
                assert(body[hi - lo] == chars@[hi as int]);
                hi = hi + 1;
            }
            proof {
                lemma_word_len_is(body, hi - lo);
                lemma_word_len(body);
                assert(body.take(hi - lo) =~= chars@.subrange(lo as int, hi as int));
                assert(body.skip(hi - lo) =~= chars@.subrange(hi as int, to as int));
                assert(words(rest)[0] == body.take(hi - lo));
                assert(words(rest)[0] == all[done.len() + 0int]);
            }
            bounds.push((lo, hi));
            proof {
                let tail = words(chars@.subrange(hi as int, to as int));
                assert forall|i: int| 0 <= i < tail.len() implies tail[i]
                    == #[trigger] all[bounds@.len() + i] by {
                    assert(words(rest)[i + 1] == tail[i]);
                    assert(words(rest)[i + 1] == all[done.len() + (i + 1)]);
                }
            }
            at = hi;
        }
    }
    bounds
}


pub proof fn lemma_words_blank(blank: char, rest: Seq<char>)
    requires
        is_white(blank),
    ensures
        words(seq![blank] + rest) == words(rest),
{
    assert((seq![blank] + rest).skip(1) =~= rest);
}

/// A word that white space follows is the first word.
pub proof fn lemma_words_cons(word: Seq<char>, blank: char, rest: Seq<char>)
    requires
        word.len() > 0,
        forall|k: int| 0 <= k < word.len() ==> !is_white(#[trigger] word[k]),
        is_white(blank),
    ensures
        words(word + seq![blank] + rest) == seq![word] + words(rest),
{
    let text = word + seq![blank] + rest;
    assert(!is_white(word[0]) && text[0] == word[0]);
    lemma_word_len_is(text, word.len() as int);
    assert(text.take(word.len() as int) =~= word);
    assert(text.skip(word.len() as int) =~= seq![blank] + rest);
    lemma_words_blank(blank, rest);
}

/// A text without white space is one word.
pub proof fn lemma_words_one(word: Seq<char>)
    requires
        word.len() > 0,
        forall|k: int| 0 <= k < word.len() ==> !is_white(#[trigger] word[k]),
    ensures
        words(word) == seq![word],
{
    assert(!is_white(word[0]));
    lemma_word_len_is(word, word.len() as int);
    assert(word.take(word.len() as int) =~= word);
    assert(word.skip(word.len() as int) =~= Seq::empty());
    assert(words(Seq::empty()) =~= Seq::empty());
    assert(words(word) =~= seq![word]);
}

/// A word is not empty and holds no white space; its characters are among those of the text.
pub proof fn lemma_words_content(text: Seq<char>)
    ensures
        forall|i: int, k: int|
            0 <= i < words(text).len() && 0 <= k < words(text)[i].len() ==> !is_white(
                #[trigger] words(text)[i][k],
            ) && text.contains(words(text)[i][k]),
        forall|i: int| 0 <= i < words(text).len() ==> (#[trigger] words(text)[i]).len() > 0,
    decreases text.len(),
{
    let rest = trim_start(text);
    lemma_trim_start(text);
    lemma_word_len(rest);
    if rest.len() > 0 {
        let n = word_len(rest);
        let tail = rest.skip(n);
        lemma_words_content(tail);
        assert forall|i: int, k: int|
            0 <= i < words(text).len() && 0 <= k < words(text)[i].len() implies !is_white(
            #[trigger] words(text)[i][k],
        ) && text.contains(words(text)[i][k]) by {
            let skipped = text.len() - rest.len();
            if i == 0 {
                assert(words(text)[i][k] == rest[k]);
                assert(rest[k] == text[skipped + k]);
            } else {
                assert(words(text)[i] == words(tail)[i - 1]);
                assert(tail.contains(words(tail)[i - 1][k]));
                let at = choose|at: int| 0 <= at < tail.len() && tail[at] == words(tail)[i - 1][k];
                assert(tail[at] == text[skipped + n + at]);
            }
        }
        assert forall|i: int| 0 <= i < words(text).len() implies (#[trigger] words(text)[i]).len()
            > 0 by {
            if i > 0 {
                assert(words(text)[i] == words(tail)[i - 1]);
            }
        }
    }
}

/// `parts` with `separator` between each two of them.
pub open spec fn join(parts: Seq<Seq<char>>, separator: Seq<char>) -> Seq<char>
    decreases parts.len(),
{
    if parts.len() == 0 {
        Seq::empty()
    } else if parts.len() == 1 {
        parts[0]
    } else {
        join(parts.drop_last(), separator) + separator + parts.last()
    }
}

pub proof fn lemma_join_cons(parts: Seq<Seq<char>>, separator: Seq<char>)
    requires
        parts.len() > 1,
    ensures
        join(parts, separator) == parts[0] + separator + join(parts.skip(1), separator),
    decreases parts.len(),
{
    if parts.len() == 2 {
        assert(parts.drop_last() =~= seq![parts[0]]);
        assert(parts.skip(1) =~= seq![parts[1]]);
        assert(join(seq![parts[0]], separator) == parts[0]);
        assert(join(seq![parts[1]], separator) == parts[1]);
        assert(join(parts, separator) =~= parts[0] + separator + parts[1]);
    } else {
        lemma_join_cons(parts.drop_last(), separator);
        assert(parts.drop_last().skip(1) =~= parts.skip(1).drop_last());
        assert(join(parts, separator) =~= parts[0] + separator + join(parts.skip(1), separator));
    }
}

/// Joins `parts`.
pub fn join_exec(parts: &[String], separator: &str) -> (text: String)
    ensures
        text@ == join(crate::text::texts(parts@), separator@),
{
    let ghost all = crate::text::texts(parts@);
    let mut text = String::new();
    for i in 0..parts.len()
        invariant
            all == crate::text::texts(parts@),
            text@ == join(all.take(i as int), separator@),
    {
        if i > 0 {
            text.append(separator);
        }
        text.append(parts[i].as_str());
        assert(all.take(i + 1).drop_last() =~= all.take(i as int));
        assert(text@ =~= join(all.take(i + 1), separator@));
    }
    assert(all.take(all.len() as int) =~= all);
    text
}

/// Words joined by one blank are read back as those words.
pub proof fn lemma_words_join(parts: Seq<Seq<char>>, blank: char)
    requires
        is_white(blank),
        forall|i: int| 0 <= i < parts.len() ==> (#[trigger] parts[i]).len() > 0,
        forall|i: int, k: int|
            0 <= i < parts.len() && 0 <= k < parts[i].len() ==> !is_white(#[trigger] parts[i][k]),
    ensures
        words(join(parts, seq![blank])) == parts,
    decreases parts.len(),
{
    if parts.len() == 0 {
        assert(words(Seq::empty()) =~= Seq::empty());
        assert(parts =~= Seq::empty());
    } else if parts.len() == 1 {
        lemma_words_one(parts[0]);
        assert(seq![parts[0]] =~= parts);
    } else {
        let rest = parts.skip(1);
        assert forall|i: int| 0 <= i < rest.len() implies (#[trigger] rest[i]).len() > 0 by {
            assert(rest[i] == parts[i + 1]);
        }
        assert forall|i: int, k: int| 0 <= i < rest.len() && 0 <= k < rest[i].len() implies !is_white(
            #[trigger] rest[i][k],
        ) by {
            assert(rest[i][k] == parts[i + 1][k]);
        }
        lemma_words_join(rest, blank);
        lemma_join_cons(parts, seq![blank]);
        lemma_words_cons(parts[0], blank, join(rest, seq![blank]));
        assert(seq![parts[0]] + rest =~= parts);
    }
}

// Laws.

/// White space are the characters of these codes, and no others.
pub proof fn white_space_is_that_of_unicode(c: char)
    ensures
        is_white(c) <==> (c == ' ' || c == '\t' || c == '\n' || c == '\r' || seq![
            0x0bu32, 0x0c, 0x85, 0xa0, 0x1680, 0x2000, 0x2001, 0x2002, 0x2003, 0x2004, 0x2005,
            0x2006, 0x2007, 0x2008, 0x2009, 0x200a, 0x2028, 0x2029, 0x202f, 0x205f, 0x3000,
        ].contains(c as u32)),
{
    let all = seq![
        0x0bu32, 0x0c, 0x85, 0xa0, 0x1680, 0x2000, 0x2001, 0x2002, 0x2003, 0x2004, 0x2005,
        0x2006, 0x2007, 0x2008, 0x2009, 0x200a, 0x2028, 0x2029, 0x202f, 0x205f, 0x3000,
    ];
    let code = c as u32;
    assert(all.len() == 21);
    assert(all[0] == 0x0b && all[1] == 0x0c && all[2] == 0x85 && all[3] == 0xa0 && all[4] == 0x1680);
    assert(all[5] == 0x2000 && all[6] == 0x2001 && all[7] == 0x2002 && all[8] == 0x2003);
    assert(all[9] == 0x2004 && all[10] == 0x2005 && all[11] == 0x2006 && all[12] == 0x2007);
    assert(all[13] == 0x2008 && all[14] == 0x2009 && all[15] == 0x200a && all[16] == 0x2028);
    assert(all[17] == 0x2029 && all[18] == 0x202f && all[19] == 0x205f && all[20] == 0x3000);
    assert('\t' as u32 == 9 && '\n' as u32 == 10 && '\r' as u32 == 13 && ' ' as u32 == 32);
}

/// Trimming takes white space away at both ends, all that is there, and nothing else.
pub proof fn trimming_takes_the_white_space_at_the_ends(text: Seq<char>)
    ensures
        exists|lo: int, hi: int| #[trigger]
            text.subrange(lo, hi) == trim(text) && 0 <= lo <= hi <= text.len() && (forall|k: int|
                0 <= k < lo ==> is_white(#[trigger] text[k])) && (forall|k: int|
                hi <= k < text.len() ==> is_white(#[trigger] text[k])) && (lo < hi ==> !is_white(
                text[lo],
            ) && !is_white(text[hi - 1])),
{
    let rest = trim_start(text);
    let lo = text.len() - rest.len();
    let hi = lo + trim_end(rest).len();
    lemma_trim_start(text);
    lemma_trim_end(rest);
    lemma_trimmed_start(text);
    lemma_trimmed_end(rest);
    assert(text.subrange(lo, hi) =~= trim(text));
    assert forall|k: int| hi <= k < text.len() implies is_white(#[trigger] text[k]) by {
        assert(rest[k - lo] == text[k]);
    }
    if lo < hi {
        assert(rest[0] == text[lo]);
        assert(trim_end(rest).last() == text[hi - 1]);
    }
}

proof fn lemma_trimmed_start(text: Seq<char>)
    ensures
        forall|k: int|
            0 <= k < text.len() - trim_start(text).len() ==> is_white(#[trigger] text[k]),
    decreases text.len(),
{
    if text.len() > 0 && is_white(text[0]) {
        lemma_trimmed_start(text.skip(1));
        assert forall|k: int| 0 <= k < text.len() - trim_start(text).len() implies is_white(
            #[trigger] text[k],
        ) by {
            if k > 0 {
                assert(text.skip(1)[k - 1] == text[k]);
            }
        }
    }
}

proof fn lemma_trimmed_end(text: Seq<char>)
    ensures
        forall|k: int| trim_end(text).len() <= k < text.len() ==> is_white(#[trigger] text[k]),
    decreases text.len(),
{
    if text.len() > 0 && is_white(text.last()) {
        lemma_trimmed_end(text.drop_last());
        assert forall|k: int| trim_end(text).len() <= k < text.len() implies is_white(
            #[trigger] text[k],
        ) by {
            if k < text.len() - 1 {
                assert(text.drop_last()[k] == text[k]);
            }
        }
    }
}

/// The letters `A` to `Z` become `a` to `z`, and no other character changes.
pub proof fn lower_case_changes_capital_letters_alone(text: Seq<char>, i: int)
    requires
        0 <= i < text.len(),
    ensures
        lower(text).len() == text.len(),
        'A' <= text[i] <= 'Z' ==> lower(text)[i] as u32 == text[i] as u32 + ('a' as u32 - 'A' as u32),
        !('A' <= text[i] <= 'Z') ==> lower(text)[i] == text[i],
{
    assert('a' as u32 == 97 && 'A' as u32 == 65 && 'Z' as u32 == 90);
}

/// A line reaches to the first line feed, and the carriage return before it belongs to its end.
/// What follows the last line feed is a line unless it is empty.
pub proof fn lines_are_parted_by_line_feeds(line: Seq<char>, rest: Seq<char>)
    requires
        forall|i: int| 0 <= i < line.len() ==> #[trigger] line[i] != '\n',
    ensures
        lines(line + seq!['\n'] + rest) == seq![
            if line.len() > 0 && line.last() == '\r' {
                line.drop_last()
            } else {
                line
            },
        ] + lines(rest),
        line.len() > 0 ==> lines(line) == seq![line],
        lines(Seq::<char>::empty()).len() == 0,
{
    let text = line + seq!['\n'] + rest;
    let end = line.len() as int;
    assert forall|k: int| 0 <= k < end implies text[k] != '\n' by {
        assert(text[k] == line[k]);
    }
    crate::text::lemma_find_is(text, '\n', 0, end);
    assert(after_first_line(text) =~= rest);
    if line.len() > 0 {
        assert(text[end - 1] == line[end - 1]);
        assert(text.take(end - 1) =~= line.drop_last());
        crate::text::lemma_find_is(line, '\n', 0, end);
        assert(lines(Seq::<char>::empty()) =~= Seq::empty());
        assert(lines(line) =~= seq![line]);
    }
    assert(text.take(end) =~= line);
}

/// Text is joined part by part, with the separator between each two parts and nowhere else.
pub proof fn parts_are_joined_one_by_one(parts: Seq<Seq<char>>, part: Seq<char>, separator: Seq<char>)
    ensures
        join(Seq::empty(), separator) == Seq::<char>::empty(),
        join(seq![part], separator) == part,
        parts.len() > 0 ==> join(parts.push(part), separator) == join(parts, separator) + separator
            + part,
{
    assert(parts.push(part).drop_last() =~= parts);
}

/// What is cut off the end of a text is that character alone, and all there is of it.
pub proof fn ends_are_cut_off_to_the_last(text: Seq<char>, c: char)
    ensures
        trim_end_char(text, c).len() <= text.len(),
        trim_end_char(text, c) == text.take(trim_end_char(text, c).len() as int),
        forall|k: int|
            trim_end_char(text, c).len() <= k < text.len() ==> #[trigger] text[k] == c,
        trim_end_char(text, c).len() > 0 ==> trim_end_char(text, c).last() != c,
    decreases text.len(),
{
    if text.len() > 0 && text.last() == c {
        ends_are_cut_off_to_the_last(text.drop_last(), c);
        let n = trim_end_char(text, c).len() as int;
        assert(text.drop_last().take(n) =~= text.take(n));
        assert forall|k: int| n <= k < text.len() implies #[trigger] text[k] == c by {
            if k < text.len() - 1 {
                assert(text.drop_last()[k] == text[k]);
            }
        }
    } else {
        assert(text.take(text.len() as int) =~= text);
    }
}

/// A beginning is cut off as often as it stands there.
pub proof fn beginnings_are_cut_off_to_the_last(part: Seq<char>, rest: Seq<char>)
    requires
        part.len() > 0,
    ensures
        trim_start_text(part + rest, part) == trim_start_text(rest, part),
        !begins_with(rest, part) ==> trim_start_text(rest, part) == rest,
{
    assert((part + rest).take(part.len() as int) =~= part);
    assert((part + rest).skip(part.len() as int) =~= rest);
}

/// The words on both sides of white space are the words of the whole.
pub proof fn words_are_parted_by_white_space(before: Seq<char>, blank: char, after: Seq<char>)
    requires
        is_white(blank),
    ensures
        words(before + seq![blank] + after) == words(before) + words(after),
    decreases before.len(),
{
    if before.len() == 0 {
        lemma_words_blank(blank, after);
        assert(before + seq![blank] + after =~= seq![blank] + after);
        assert(words(before) + words(after) =~= words(after));
    } else if is_white(before[0]) {
        let rest = before.skip(1);
        words_are_parted_by_white_space(rest, blank, after);
        lemma_words_blank(before[0], rest);
        assert(seq![before[0]] + rest =~= before);
        lemma_words_blank(before[0], rest + seq![blank] + after);
        assert(seq![before[0]] + (rest + seq![blank] + after) =~= before + seq![blank] + after);
    } else {
        let n = word_len(before);
        lemma_word_len(before);
        let word = before.take(n);
        assert forall|k: int| 0 <= k < word.len() implies !is_white(#[trigger] word[k]) by {
            assert(word[k] == before[k]);
        }
        if n == before.len() {
            assert(word =~= before);
            lemma_words_one(before);
            lemma_words_cons(before, blank, after);
        } else {
            let gap = before[n];
            let rest = before.skip(n + 1);
            words_are_parted_by_white_space(rest, blank, after);
            lemma_words_cons(word, gap, rest);
            assert(word + seq![gap] + rest =~= before);
            lemma_words_cons(word, gap, rest + seq![blank] + after);
            assert(word + seq![gap] + (rest + seq![blank] + after) =~= before + seq![blank]
                + after);
            assert(seq![word] + words(rest) + words(after) =~= seq![word] + (words(rest) + words(
                after,
            )));
        }
    }
}

/// A text has no words exactly where it is nothing but white space.
pub proof fn lemma_words_none(text: Seq<char>)
    ensures
        words(text).len() == 0 <==> forall|k: int| 0 <= k < text.len() ==> is_white(#[trigger] text[k]),
{
    lemma_trim_start(text);
    lemma_trimmed_start(text);
    let rest = trim_start(text);
    if rest.len() > 0 {
        let at = text.len() - rest.len();
        assert(text[at] == rest[0]);
    }
}

/// Joined parts and more joined parts are joined by the separator too.
pub proof fn lemma_join_concat(first: Seq<Seq<char>>, second: Seq<Seq<char>>, separator: Seq<char>)
    requires
        first.len() > 0,
        second.len() > 0,
    ensures
        join(first + second, separator) == join(first, separator) + separator + join(
            second,
            separator,
        ),
    decreases second.len(),
{
    let all = first + second;
    assert(all.drop_last() =~= first + second.drop_last());
    assert(all.last() == second.last());
    if second.len() == 1 {
        assert(first + second.drop_last() =~= first);
    } else {
        lemma_join_concat(first, second.drop_last(), separator);
        assert(join(first, separator) + separator + join(second.drop_last(), separator) + separator
            + second.last() =~= join(first, separator) + separator + (join(
            second.drop_last(),
            separator,
        ) + separator + second.last()));
    }
}

} // verus!
