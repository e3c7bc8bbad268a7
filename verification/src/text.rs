//! Text as a sequence of characters: the operations that the rest of the library is built on.
use vstd::prelude::*;
use vstd::utf8::{
    decode_utf8, encode_utf8, encode_utf8_decode_utf8, encode_utf8_valid_utf8, valid_utf8,
};

verus! {

/// `String::push` appends one character.
pub assume_specification[ String::push ](text: &mut String, ch: char)
    ensures
        final(text)@ == old(text)@.push(ch),
;

/// The texts of `strings`, one by one.
pub open spec fn texts(strings: Seq<String>) -> Seq<Seq<char>> {
    strings.map_values(|text: String| text@)
}

/// The text of an optional string.
pub open spec fn opt_text(text: Option<String>) -> Option<Seq<char>> {
    match text {
        Some(text) => Some(text@),
        None => None,
    }
}

/// The characters of `text`, in order.
pub fn chars_of(text: &str) -> (chars: Vec<char>)
    ensures
        chars@ == text@,
{
    let mut chars: Vec<char> = Vec::new();
    for c in it: text.chars()
        invariant
            chars@ =~= text@.take(it.index() as int),
            it.seq() == text@,
    {
        chars.push(c);
    }
    chars
}

/// The text between two positions.
pub fn text_between(chars: &Vec<char>, from: usize, to: usize) -> (text: String)
    requires
        from <= to <= chars@.len(),
    ensures
        text@ == chars@.subrange(from as int, to as int),
{
    let mut text = String::new();
    for i in from..to
        invariant
            from <= to <= chars@.len(),
            text@ =~= chars@.subrange(from as int, i as int),
    {
        text.push(chars[i]);
    }
    text
}

/// Whether two texts are the same.
pub fn same_text(left: &str, right: &str) -> (same: bool)
    ensures
        same == (left@ == right@),
{
    let a = left.as_bytes();
    let b = right.as_bytes();
    proof {
        encode_utf8_decode_utf8(left@);
        encode_utf8_decode_utf8(right@);
    }
    if a.len() != b.len() {
        return false;
    }
    for i in 0..a.len()
        invariant
            a@ == encode_utf8(left@),
            b@ == encode_utf8(right@),
            a@.len() == b@.len(),
            forall|k: int| 0 <= k < i ==> a@[k] == b@[k],
    {
        if a[i] != b[i] {
            return false;
        }
    }
    assert(a@ =~= b@);
    true
}

/// Whether an optional text is the same as another.
pub fn same_opt_text(left: &Option<String>, right: &Option<String>) -> (same: bool)
    ensures
        same == (opt_text(*left) == opt_text(*right)),
{
    match (left, right) {
        (Some(a), Some(b)) => same_text(a.as_str(), b.as_str()),
        (None, None) => true,
        _ => false,
    }
}

/// A copy of `strings`.
pub fn copy_texts(strings: &[String]) -> (copy: Vec<String>)
    ensures
        texts(copy@) == texts(strings@),
{
    let mut copy: Vec<String> = Vec::new();
    for i in 0..strings.len()
        invariant
            copy@.len() == i,
            forall|k: int| 0 <= k < i ==> (#[trigger] copy@[k])@ == strings@[k]@,
    {
        copy.push(strings[i].clone());
    }
    assert(texts(copy@) =~= texts(strings@));
    copy
}

/// Appends a copy of `more` to `strings`.
pub fn append_texts(strings: &mut Vec<String>, more: &[String])
    ensures
        texts(final(strings)@) == texts(old(strings)@) + texts(more@),
{
    let ghost before = strings@;
    for i in 0..more.len()
        invariant
            strings@.len() == before.len() + i,
            forall|k: int| 0 <= k < before.len() ==> (#[trigger] strings@[k]) == before[k],
            forall|k: int|
                before.len() <= k < before.len() + i ==> (#[trigger] strings@[k])@ == more@[k
                    - before.len()]@,
    {
        strings.push(more[i].clone());
    }
    assert(texts(strings@) =~= texts(before) + texts(more@));
}

/// The text that `{:?}` prints for a `str`: in quotes, with escapes.
pub uninterp spec fn debug_text(text: Seq<char>) -> Seq<char>;

/// Calls `format!` with `{:?}`, which depends on the text alone.
#[verifier::external_body]
pub(crate) fn debug_string(text: &str) -> (quoted: String)
    ensures
        quoted@ == debug_text(text@),
{
    format!("{text:?}")
}

/// The text that `String::from_utf8_lossy` reads out of bytes that are no UTF-8: each part that
/// is none is replaced by U+FFFD.
pub uninterp spec fn replaced_text(bytes: Seq<u8>) -> Seq<char>;

/// The text that bytes encode, with U+FFFD for what is no UTF-8.
pub open spec fn lossy_text(bytes: Seq<u8>) -> Seq<char> {
    if valid_utf8(bytes) {
        decode_utf8(bytes)
    } else {
        replaced_text(bytes)
    }
}

/// Calls `String::from_utf8_lossy`, which depends on the bytes alone, and gives the text that
/// they encode where they are valid UTF-8.
#[verifier::external_body]
pub(crate) fn lossy_string(bytes: &[u8]) -> (text: String)
    ensures
        text@ == (if valid_utf8(bytes@) {
            decode_utf8(bytes@)
        } else {
            replaced_text(bytes@)
        }),
{
    String::from_utf8_lossy(bytes).into_owned()
}

/// Text is read back from its bytes.
pub proof fn lemma_lossy_text(text: Seq<char>)
    ensures
        lossy_text(encode_utf8(text)) == text,
{
    encode_utf8_decode_utf8(text);
    encode_utf8_valid_utf8(text);
}

/// The text of the error with which `std::str::from_utf8` refuses bytes.
pub uninterp spec fn utf8_error(bytes: Seq<u8>) -> Seq<char>;

/// Calls `std::str::from_utf8`, which reads the text of bytes that are valid UTF-8 and refuses
/// all others. An error is given as the text that it prints.
#[verifier::external_body]
pub(crate) fn utf8_string(bytes: &[u8]) -> (text: Result<String, String>)
    ensures
        match text {
            Ok(text) => valid_utf8(bytes@) && text@ == decode_utf8(bytes@),
            Err(message) => !valid_utf8(bytes@) && message@ == utf8_error(bytes@),
        },
{
    std::str::from_utf8(bytes).map(|text| text.to_string()).map_err(|error| error.to_string())
}

/// Two texts, one after the other.
pub fn concat2(first: &str, second: &str) -> (text: String)
    ensures
        text@ == first@ + second@,
{
    let mut text = String::new();
    text.append(first);
    text.append(second);
    assert(text@ =~= first@ + second@);
    text
}

/// Three texts, one after the other.
pub fn concat3(first: &str, second: &str, third: &str) -> (text: String)
    ensures
        text@ == first@ + second@ + third@,
{
    let mut text = concat2(first, second);
    text.append(third);
    text
}

// Parts of a text.

/// Whether `text` begins with `prefix`.
pub open spec fn begins_with(text: Seq<char>, prefix: Seq<char>) -> bool {
    prefix.len() <= text.len() && text.take(prefix.len() as int) == prefix
}

/// The first position at or after `from` that holds `c`, or the length of `text`.
pub open spec fn find_from(text: Seq<char>, c: char, from: int) -> int
    decreases text.len() - from,
{
    if from < 0 || from >= text.len() {
        text.len() as int
    } else if text[from] == c {
        from
    } else {
        find_from(text, c, from + 1)
    }
}

/// The first position of `c` in `text`, or the length of `text`.
pub open spec fn find(text: Seq<char>, c: char) -> int {
    find_from(text, c, 0)
}

/// The last position of `c` in `text`, or -1.
pub open spec fn find_last(text: Seq<char>, c: char) -> int
    decreases text.len(),
{
    if text.len() == 0 {
        -1
    } else if text.last() == c {
        text.len() - 1
    } else {
        find_last(text.drop_last(), c)
    }
}

/// Whether `part` occurs in `text`.
pub open spec fn contains_text(text: Seq<char>, part: Seq<char>) -> bool {
    exists|i: int| occurs_at(text, part, i)
}

/// Whether `part` stands in `text` at position `i`.
pub open spec fn occurs_at(text: Seq<char>, part: Seq<char>, i: int) -> bool {
    0 <= i && i + part.len() <= text.len() && text.subrange(i, i + part.len()) == part
}

pub proof fn lemma_find(text: Seq<char>, c: char, from: int)
    requires
        0 <= from <= text.len(),
    ensures
        from <= find_from(text, c, from) <= text.len(),
        find_from(text, c, from) < text.len() ==> text[find_from(text, c, from)] == c,
        forall|k: int| from <= k < find_from(text, c, from) ==> text[k] != c,
    decreases text.len() - from,
{
    if from < text.len() && text[from] != c {
        lemma_find(text, c, from + 1);
    }
}

/// The position of the first `c` is the one that holds it and has none before.
pub proof fn lemma_find_is(text: Seq<char>, c: char, from: int, at: int)
    requires
        0 <= from <= at <= text.len(),
        at < text.len() ==> text[at] == c,
        forall|k: int| from <= k < at ==> text[k] != c,
    ensures
        find_from(text, c, from) == at,
    decreases at - from,
{
    if from < at {
        lemma_find_is(text, c, from + 1, at);
    }
}

pub proof fn lemma_find_last(text: Seq<char>, c: char)
    ensures
        -1 <= find_last(text, c) < text.len(),
        find_last(text, c) >= 0 ==> text[find_last(text, c)] == c,
        forall|k: int| find_last(text, c) < k < text.len() ==> text[k] != c,
    decreases text.len(),
{
    if text.len() > 0 && text.last() != c {
        lemma_find_last(text.drop_last(), c);
        assert forall|k: int| find_last(text, c) < k < text.len() implies text[k] != c by {
            if k < text.len() - 1 {
                assert(text.drop_last()[k] == text[k]);
            }
        }
    }
}

pub fn find_from_exec(chars: &Vec<char>, c: char, from: usize) -> (at: usize)
    requires
        from <= chars@.len(),
    ensures
        at == find_from(chars@, c, from as int),
        from <= at <= chars@.len(),
{
    let mut i: usize = from;
    while i < chars.len()
        invariant
            from <= i <= chars@.len(),
            find_from(chars@, c, from as int) == find_from(chars@, c, i as int),
        decreases chars@.len() - i,
    {
        if chars[i] == c {
            return i;
        }
        i = i + 1;
    }
    i
}

/// The last position of `c`, if there is one.
pub fn find_last_exec(chars: &Vec<char>, c: char) -> (at: Option<usize>)
    ensures
        match at {
            Some(at) => at == find_last(chars@, c) && at < chars@.len(),
            None => find_last(chars@, c) == -1,
        },
{
    let mut n: usize = chars.len();
    assert(chars@.take(n as int) =~= chars@);
    while n > 0
        invariant
            n <= chars@.len(),
            find_last(chars@, c) == find_last(chars@.take(n as int), c),
        decreases n,
    {
        n = n - 1;
        assert(chars@.take(n + 1).drop_last() =~= chars@.take(n as int));
        if chars[n] == c {
            return Some(n);
        }
    }
    None
}

/// Whether `text` holds `c`.
pub fn has_char(text: &str, c: char) -> (has: bool)
    ensures
        has == text@.contains(c),
{
    let chars = chars_of(text);
    let at = find_from_exec(&chars, c, 0);
    proof {
        lemma_find(chars@, c, 0);
    }
    if at < chars.len() {
        assert(text@[at as int] == c);
        true
    } else {
        false
    }
}

/// Whether `part` stands among `chars` at position `at`.
pub fn occurs_at_exec(chars: &Vec<char>, part: &Vec<char>, at: usize) -> (occurs: bool)
    requires
        at <= chars@.len(),
    ensures
        occurs == occurs_at(chars@, part@, at as int),
{
    if chars.len() - at < part.len() {
        return false;
    }
    for i in 0..part.len()
        invariant
            at + part.len() <= chars.len(),
            forall|k: int| 0 <= k < i ==> chars@[at + k] == part@[k],
    {
        if chars[at + i] != part[i] {
            assert(chars@.subrange(at as int, at + part@.len())[i as int] != part@[i as int]);
            return false;
        }
    }
    assert(chars@.subrange(at as int, at + part@.len()) =~= part@);
    true
}

/// Whether `text` begins with `prefix`.
pub fn has_prefix(text: &str, prefix: &str) -> (has: bool)
    ensures
        has == begins_with(text@, prefix@),
{
    let chars = chars_of(text);
    let part = chars_of(prefix);
    assert(text@.len() >= prefix@.len() ==> text@.take(prefix@.len() as int) =~= text@.subrange(
        0,
        prefix@.len() as int,
    ));
    occurs_at_exec(&chars, &part, 0)
}

/// Whether `part` occurs in `text`.
pub fn contains_exec(text: &str, part: &str) -> (has: bool)
    ensures
        has == contains_text(text@, part@),
{
    let chars = chars_of(text);
    let wanted = chars_of(part);
    let mut i: usize = 0;
    while i < chars.len()
        invariant
            chars@ == text@,
            wanted@ == part@,
            i <= chars@.len(),
            forall|k: int| 0 <= k < i ==> !occurs_at(text@, part@, k),
        decreases chars@.len() - i,
    {
        if occurs_at_exec(&chars, &wanted, i) {
            return true;
        }
        i = i + 1;
    }
    if occurs_at_exec(&chars, &wanted, i) {
        return true;
    }
    assert forall|k: int| !occurs_at(text@, part@, k) by {
        if 0 <= k && k + part@.len() <= text@.len() {
            assert(k <= i);
        }
    }
    false
}

// Laws.

/// A text begins with another exactly where it is that other text and something after it.
pub proof fn beginnings_are_followed_by_the_rest(prefix: Seq<char>, rest: Seq<char>, text: Seq<char>)
    ensures
        begins_with(prefix + rest, prefix),
        begins_with(text, prefix) ==> text == prefix + text.skip(prefix.len() as int),
{
    assert((prefix + rest).take(prefix.len() as int) =~= prefix);
    if begins_with(text, prefix) {
        assert(text =~= text.take(prefix.len() as int) + text.skip(prefix.len() as int));
    }
}

/// A text contains another exactly where that other text stands somewhere between what comes
/// before it and what comes after it.
pub proof fn contained_texts_stand_between_others(
    before: Seq<char>,
    part: Seq<char>,
    after: Seq<char>,
    text: Seq<char>,
)
    ensures
        contains_text(before + part + after, part),
        contains_text(text, part) ==> exists|a: Seq<char>, b: Seq<char>|
            text == #[trigger] (a + part + b),
{
    let whole = before + part + after;
    assert(whole.subrange(before.len() as int, (before.len() + part.len()) as int) =~= part);
    assert(occurs_at(whole, part, before.len() as int));
    if contains_text(text, part) {
        let i = choose|i: int| occurs_at(text, part, i);
        let a = text.take(i);
        let b = text.skip(i + part.len());
        assert(text =~= a + part + b);
    }
}

/// The texts of strings are theirs, one by one and in their order.
pub proof fn texts_are_those_of_the_strings(strings: Seq<String>, i: int)
    ensures
        texts(strings).len() == strings.len(),
        0 <= i < strings.len() ==> texts(strings)[i] == strings[i]@,
{
}

/// The text of an optional string is that of the string, where there is one.
pub proof fn optional_texts_are_those_of_the_strings(text: Option<String>)
    ensures
        text matches Some(string) ==> opt_text(text) == Some(string@),
        text is None ==> opt_text(text) is None,
{
}

} // verus!
