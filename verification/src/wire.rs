//! Heads of messages as bytes: lines that each end with a carriage return and a line feed, and an
//! empty line after them.
use crate::http::{blank_at, head_end, head_len, head_lines, lemma_head_end_is};
use crate::scan::{after_first_line, first_line, lines};
use crate::text::{lemma_find_is, lemma_lossy_text};
use vstd::prelude::*;
use vstd::utf8::{
    char_is_scalar, char_u32_cast, encode_scalar, encode_utf8, last_continuation_byte,
    leading_byte_width_1, leading_byte_width_2, leading_byte_width_3, leading_byte_width_4,
    second_last_continuation_byte, third_last_continuation_byte,
};

verus! {

/// The bytes of two texts, one after the other, are those of the first and then of the second.
pub proof fn lemma_encode_concat(first: Seq<char>, second: Seq<char>)
    ensures
        encode_utf8(first + second) == encode_utf8(first) + encode_utf8(second),
    decreases first.len(),
{
    if first.len() == 0 {
        assert(first + second =~= second);
    } else {
        lemma_encode_concat(first.drop_first(), second);
        assert((first + second).drop_first() =~= first.drop_first() + second);
    }
}

/// Whether `text` is a line that is not empty: it holds no line end.
pub open spec fn is_line(text: Seq<char>) -> bool {
    text.len() > 0 && forall|i: int|
        0 <= i < text.len() ==> #[trigger] text[i] != '\r' && text[i] != '\n'
}

/// Whether no line end stands in `text` at or after position `i`: what `is_line` says, one
/// character at a time.
pub open spec fn unbroken_from(text: Seq<char>, i: int) -> bool
    decreases text.len() - i,
{
    i < 0 || i >= text.len() || (text[i] != '\r' && text[i] != '\n' && unbroken_from(text, i + 1))
}

pub proof fn lemma_unbroken(text: Seq<char>, from: int)
    requires
        0 <= from,
        unbroken_from(text, from),
    ensures
        forall|i: int| from <= i < text.len() ==> #[trigger] text[i] != '\r' && text[i] != '\n',
    decreases text.len() - from,
{
    if from < text.len() {
        lemma_unbroken(text, from + 1);
    }
}

/// Whether bytes hold no line end.
pub open spec fn is_quiet(bytes: Seq<u8>) -> bool {
    forall|i: int| 0 <= i < bytes.len() ==> #[trigger] bytes[i] != 13 && bytes[i] != 10
}

proof fn lemma_scalar_quiet(scalar: u32)
    requires
        scalar != 13,
        scalar != 10,
        scalar < 0x110000,
    ensures
        is_quiet(encode_scalar(scalar)),
        encode_scalar(scalar).len() > 0,
{
    assert(scalar < 0x80 ==> leading_byte_width_1(scalar) != 13 && leading_byte_width_1(scalar)
        != 10) by (bit_vector)
        requires
            scalar != 13,
            scalar != 10,
    ;
    assert(scalar < 0x110000 ==> leading_byte_width_2(scalar) >= 0x80 && leading_byte_width_3(
        scalar,
    ) >= 0x80 && leading_byte_width_4(scalar) >= 0x80 && last_continuation_byte(scalar) >= 0x80
        && second_last_continuation_byte(scalar) >= 0x80 && third_last_continuation_byte(scalar)
        >= 0x80) by (bit_vector);
}

/// The bytes of a line hold no line end either.
pub proof fn lemma_line_quiet(text: Seq<char>)
    requires
        forall|i: int| 0 <= i < text.len() ==> #[trigger] text[i] != '\r' && text[i] != '\n',
    ensures
        is_quiet(encode_utf8(text)),
        text.len() > 0 ==> encode_utf8(text).len() > 0,
    decreases text.len(),
{
    if text.len() > 0 {
        assert(text[0] != '\r' && text[0] != '\n');
        char_is_scalar(text[0]);
        char_u32_cast(text[0], text[0] as u32);
        lemma_scalar_quiet(text[0] as u32);
        assert forall|i: int| 0 <= i < text.drop_first().len() implies #[trigger]
        text.drop_first()[i] != '\r' && text.drop_first()[i] != '\n' by {
            assert(text.drop_first()[i] == text[i + 1]);
        }
        lemma_line_quiet(text.drop_first());
    }
}

/// A line end.
pub proof fn lemma_crlf()
    ensures
        "\r\n"@ == seq!['\r', '\n'],
        encode_utf8("\r\n"@) == seq![13u8, 10u8],
{
    reveal_strlit("\r\n");
    assert("\r\n"@ =~= seq!['\r', '\n']);
    let text = seq!['\r', '\n'];
    reveal_with_fuel(encode_utf8, 3);
    assert(text.drop_first() =~= seq!['\n']);
    assert(seq!['\n'].drop_first() =~= Seq::<char>::empty());
    assert(leading_byte_width_1(13u32) == 13u8 && leading_byte_width_1(10u32) == 10u8)
        by (bit_vector);
    assert(encode_utf8(text) =~= seq![13u8, 10u8]);
}

/// A head of the given lines.
pub open spec fn head_of(lines: Seq<Seq<char>>) -> Seq<char>
    decreases lines.len(),
{
    if lines.len() == 0 {
        "\r\n"@
    } else {
        lines[0] + "\r\n"@ + head_of(lines.skip(1))
    }
}

/// Whether each of `lines` is a line.
pub open spec fn are_lines(lines: Seq<Seq<char>>) -> bool {
    forall|i: int| 0 <= i < lines.len() ==> is_line(#[trigger] lines[i])
}

/// The empty line is the first place where two line ends follow each other.
proof fn lemma_head_blank(all: Seq<Seq<char>>, rest: Seq<u8>)
    requires
        all.len() > 0,
        are_lines(all),
    ensures
        encode_utf8(head_of(all)).len() >= 4,
        blank_at(encode_utf8(head_of(all)) + rest, encode_utf8(head_of(all)).len() - 4),
        forall|k: int|
            0 <= k < encode_utf8(head_of(all)).len() - 4 ==> !blank_at(
                encode_utf8(head_of(all)) + rest,
                k,
            ),
        encode_utf8(head_of(all))[0] != 13,
    decreases all.len(),
{
    let line = all[0];
    let tail = all.skip(1);
    let a = encode_utf8(line);
    let b = encode_utf8(head_of(tail));
    let bytes = encode_utf8(head_of(all)) + rest;
    let n = a.len() as int;
    assert(is_line(line));
    lemma_line_quiet(line);
    lemma_crlf();
    lemma_encode_concat(line + "\r\n"@, head_of(tail));
    lemma_encode_concat(line, "\r\n"@);
    assert(encode_utf8(head_of(all)) =~= a + seq![13u8, 10u8] + b);
    assert(bytes =~= a + seq![13u8, 10u8] + (b + rest));
    assert forall|k: int| 0 <= k < n implies !blank_at(bytes, k) by {
        assert(bytes[k] == a[k]);
    }
    assert(bytes[n] == 13 && bytes[n + 1] == 10);
    assert(!blank_at(bytes, n + 1));
    if tail.len() == 0 {
        assert(b =~= seq![13u8, 10u8]);
        assert(bytes[n + 2] == b[0] && bytes[n + 3] == b[1]);
    } else {
        assert forall|i: int| 0 <= i < tail.len() implies is_line(#[trigger] tail[i]) by {
            assert(tail[i] == all[i + 1]);
        }
        lemma_head_blank(tail, rest);
        assert(bytes[n + 2] == b[0]);
        assert(!blank_at(bytes, n));
        let shift = n + 2;
        assert forall|k: int| shift <= k implies blank_at(bytes, k) == blank_at(
            b + rest,
            k - shift,
        ) by {
            if k + 4 <= bytes.len() {
                assert(bytes[k] == (b + rest)[k - shift]);
                assert(bytes[k + 1] == (b + rest)[k - shift + 1]);
                assert(bytes[k + 2] == (b + rest)[k - shift + 2]);
                assert(bytes[k + 3] == (b + rest)[k - shift + 3]);
            }
        }
        assert forall|k: int| 0 <= k < encode_utf8(head_of(all)).len() - 4 implies !blank_at(
            bytes,
            k,
        ) by {
            if k >= shift {
                assert(!blank_at(b + rest, k - shift));
            }
        }
    }
    assert(encode_utf8(head_of(all))[0] == a[0]);
}

/// The first line of a text ends with the first line feed.
pub proof fn lemma_first_line(line: Seq<char>, rest: Seq<char>)
    requires
        forall|i: int| 0 <= i < line.len() ==> #[trigger] line[i] != '\n',
    ensures
        lines(line + "\r\n"@ + rest) == seq![line] + lines(rest),
{
    lemma_crlf();
    let text = line + "\r\n"@ + rest;
    let end = line.len() + 1int;
    assert(text[end] == '\n' && text[end - 1] == '\r');
    assert forall|k: int| 0 <= k < end implies text[k] != '\n' by {
        if k < line.len() {
            assert(text[k] == line[k]);
        }
    }
    lemma_find_is(text, '\n', 0, end);
    assert(first_line(text) =~= line);
    assert(after_first_line(text) =~= rest);
}

/// The lines of a head are those that it was made of, and an empty one.
pub proof fn lemma_head_lines_of(all: Seq<Seq<char>>)
    requires
        are_lines(all),
    ensures
        lines(head_of(all)) == all.push(Seq::empty()),
    decreases all.len(),
{
    if all.len() == 0 {
        let none = Seq::<char>::empty();
        lemma_first_line(none, none);
        assert(none + "\r\n"@ + none =~= "\r\n"@);
        assert(lines(none) =~= Seq::empty());
        assert(lines(head_of(all)) =~= all.push(none));
    } else {
        let tail = all.skip(1);
        assert(is_line(all[0]));
        assert forall|i: int| 0 <= i < tail.len() implies is_line(#[trigger] tail[i]) by {
            assert(tail[i] == all[i + 1]);
        }
        lemma_head_lines_of(tail);
        lemma_first_line(all[0], head_of(tail));
        assert(lines(head_of(all)) =~= all.push(Seq::empty()));
    }
}

/// A head is found in the bytes that it and what follows it make up, and its lines are read back.
pub proof fn lemma_head_found(all: Seq<Seq<char>>, rest: Seq<u8>)
    requires
        all.len() > 0,
        are_lines(all),
    ensures
        head_end(encode_utf8(head_of(all)) + rest) == Some(encode_utf8(head_of(all)).len() as int),
        head_len(encode_utf8(head_of(all)) + rest) == encode_utf8(head_of(all)).len(),
        (encode_utf8(head_of(all)) + rest).take(encode_utf8(head_of(all)).len() as int)
            == encode_utf8(head_of(all)),
        (encode_utf8(head_of(all)) + rest).skip(encode_utf8(head_of(all)).len() as int) == rest,
        head_lines(encode_utf8(head_of(all)) + rest) == all.push(Seq::empty()),
{
    let head = encode_utf8(head_of(all));
    let bytes = head + rest;
    lemma_head_blank(all, rest);
    lemma_head_end_is(bytes, head.len() - 4);
    assert(bytes.take(head.len() as int) =~= head);
    assert(bytes.skip(head.len() as int) =~= rest);
    lemma_lossy_text(head_of(all));
    lemma_head_lines_of(all);
}

} // verus!
