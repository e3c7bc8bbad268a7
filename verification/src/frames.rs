//! Messages on a byte stream: each stands on a line of its own, or follows a head that tells its
//! length.
use crate::decimal::{
    decimal, decimal_exec, is_digit, lemma_decimal_value, parse_usize, unsigned_value, usize_error,
};
use crate::scan::{
    is_white, lower, lower_char, same_lower, trim, trim_between, trim_end, trim_exec, trim_start,
};
use crate::text::{
    begins_with, chars_of, concat3, find, find_from_exec, lemma_find, lemma_find_is, text_between,
    utf8_error, utf8_string,
};
use crate::wire::{are_lines, head_of, is_line, lemma_crlf, lemma_encode_concat, lemma_line_quiet};
use vstd::prelude::*;
use vstd::slice::slice_subrange;
use vstd::utf8::{
    decode_utf8, encode_utf8, encode_utf8_decode_utf8, encode_utf8_valid_utf8,
    leading_byte_width_1, valid_utf8,
};

verus! {

// Lines of a stream.

/// The position after the first line feed at or after `at`, if there is one.
pub open spec fn line_end(input: Seq<u8>, at: int) -> Option<int>
    decreases input.len() - at,
{
    if at < 0 || at >= input.len() {
        None
    } else if input[at] == 10 {
        Some(at + 1)
    } else {
        line_end(input, at + 1)
    }
}

/// What is read of a stream from a position on, where one line is asked for.
pub enum LineView {
    /// The line has not come yet.
    NeedMore,
    /// The stream has ended.
    End,
    /// The line is no text.
    Bad,
    /// The line with its end, and the position after it.
    Line(Seq<char>, int),
}

/// The line at position `at`. `ended` says that nothing follows `input`.
pub open spec fn line_at(input: Seq<u8>, at: int, ended: bool) -> LineView {
    match line_end(input, at) {
        Some(end) => if valid_utf8(input.subrange(at, end)) {
            LineView::Line(decode_utf8(input.subrange(at, end)), end)
        } else {
            LineView::Bad
        },
        None => if !ended {
            LineView::NeedMore
        } else if at >= input.len() {
            LineView::End
        } else if valid_utf8(input.skip(at)) {
            LineView::Line(decode_utf8(input.skip(at)), input.len() as int)
        } else {
            LineView::Bad
        },
    }
}

enum Line {
    NeedMore,
    End,
    Bad,
    Line(String, usize),
}

impl Line {
    spec fn view(&self) -> LineView {
        match self {
            Line::NeedMore => LineView::NeedMore,
            Line::End => LineView::End,
            Line::Bad => LineView::Bad,
            Line::Line(text, end) => LineView::Line(text@, *end as int),
        }
    }
}

proof fn lemma_line_end(input: Seq<u8>, at: int)
    requires
        0 <= at,
    ensures
        match line_end(input, at) {
            Some(end) => at < end <= input.len() && input[end - 1] == 10 && forall|k: int|
                at <= k < end - 1 ==> input[k] != 10,
            None => forall|k: int| at <= k < input.len() ==> input[k] != 10,
        },
    decreases input.len() - at,
{
    if at < input.len() && input[at] != 10 {
        lemma_line_end(input, at + 1);
    }
}

proof fn lemma_line_end_is(input: Seq<u8>, at: int, end: int)
    requires
        0 <= at < end <= input.len(),
        input[end - 1] == 10,
        forall|k: int| at <= k < end - 1 ==> input[k] != 10,
    ensures
        line_end(input, at) == Some(end),
{
    lemma_line_end(input, at);
}

fn read_line(input: &[u8], at: usize, ended: bool) -> (line: Line)
    requires
        at <= input@.len(),
    ensures
        line.view() == line_at(input@, at as int, ended),
        line matches Line::Line(_, end) ==> at < end <= input@.len(),
{
    let mut i: usize = at;
    while i < input.len() && input[i] != 10
        invariant
            at <= i <= input@.len(),
            line_end(input@, at as int) == line_end(input@, i as int),
        decreases input@.len() - i,
    {
        i = i + 1;
    }
    let end: usize = if i < input.len() {
        i + 1
    } else {
        if !ended {
            return Line::NeedMore;
        }
        if at == input.len() {
            return Line::End;
        }
        input.len()
    };
    let bytes = slice_subrange(input, at, end);
    assert(i >= input@.len() ==> input@.subrange(at as int, end as int) =~= input@.skip(at as int));
    match utf8_string(bytes) {
        Ok(text) => Line::Line(text, end),
        Err(_) => Line::Bad,
    }
}

/// `text` without the carriage returns and line feeds at its end.
pub open spec fn trim_breaks(text: Seq<char>) -> Seq<char>
    decreases text.len(),
{
    if text.len() > 0 && (text.last() == '\r' || text.last() == '\n') {
        trim_breaks(text.drop_last())
    } else {
        text
    }
}

fn trim_breaks_exec(text: &str) -> (trimmed: String)
    ensures
        trimmed@ == trim_breaks(text@),
{
    let chars = chars_of(text);
    let mut n: usize = chars.len();
    assert(chars@.subrange(0, n as int) =~= text@);
    while n > 0 && (chars[n - 1] == '\r' || chars[n - 1] == '\n')
        invariant
            n <= chars@.len(),
            trim_breaks(text@) == trim_breaks(chars@.subrange(0, n as int)),
        decreases n,
    {
        assert(chars@.subrange(0, n as int).drop_last() =~= chars@.subrange(0, n - 1));
        n = n - 1;
    }
    text_between(&chars, 0, n)
}

// Heads.

/// The length that a line tells, if it is a header that tells one, or why it tells none.
pub open spec fn told_length(header: Seq<char>) -> Option<Result<nat, Seq<char>>> {
    if begins_with(lower(header), "content-length:"@) {
        let value = trim(header.skip(find(header, ':') + 1));
        match unsigned_value(value) {
            Some(length) if length <= usize::MAX => Some(Ok(length)),
            _ => Some(Err(usize_error(value, usize::BITS as nat))),
        }
    } else {
        None
    }
}

proof fn lemma_length_name()
    ensures
        "content-length:"@.len() == 15,
        "content-length:"@[14] == ':',
        lower("content-length:"@) == "content-length:"@,
        forall|i: int| 0 <= i < 14 ==> #[trigger] "content-length:"@[i] != ':',
{
    reveal_strlit("content-length:");
    assert("content-length:"@ =~= seq![
        'c', 'o', 'n', 't', 'e', 'n', 't', '-', 'l', 'e', 'n', 'g', 't', 'h', ':',
    ]);
    assert(lower("content-length:"@) =~= "content-length:"@);
}

pub fn parse_content_length(header: &str) -> (length: Result<Option<usize>, String>)
    ensures
        match length {
            Ok(None) => told_length(header@) is None,
            Ok(Some(length)) => told_length(header@) == Some(
                Ok::<nat, Seq<char>>(length as nat),
            ),
            Err(message) => told_length(header@) == Some(Err::<nat, Seq<char>>(message@)),
        },
{
    let chars = chars_of(header);
    let name = chars_of("content-length:");
    proof {
        lemma_length_name();
        if chars@.len() >= 15 {
            assert(lower(chars@).take(15) =~= lower(chars@.subrange(0, 15)));
        }
    }
    if chars.len() < name.len() || !same_lower(&chars, 0, name.len(), &name) {
        return Ok(None);
    }
    let colon = find_from_exec(&chars, ':', 0);
    proof {
        lemma_find(chars@, ':', 0);
        assert(lower(chars@)[14] == ':') by {
            assert(lower(chars@).take(15)[14] == "content-length:"@[14]);
        }
        assert(chars@[14] == ':');
    }
    let (lo, hi) = trim_between(&chars, colon + 1, chars.len());
    assert(chars@.skip(colon + 1) =~= chars@.subrange(colon + 1, chars@.len() as int));
    let value = text_between(&chars, lo, hi);
    match parse_usize(value.as_str()) {
        Ok(length) => Ok(Some(length)),
        Err(message) => Err(message),
    }
}

/// What is read of a stream where the rest of a head is asked for.
pub enum HeadView {
    NeedMore,
    Bad,
    /// The position after the head.
    Done(int),
}

/// The rest of a head at position `at`: it ends with a blank line, or with the stream.
pub open spec fn head_at(input: Seq<u8>, at: int, ended: bool) -> HeadView
    decreases input.len() - at,
    via head_at_decreases
{
    if at < 0 {
        HeadView::Bad
    } else {
        match line_at(input, at, ended) {
            LineView::NeedMore => HeadView::NeedMore,
            LineView::End => HeadView::Done(at),
            LineView::Bad => HeadView::Bad,
            LineView::Line(text, end) => if trim(text).len() == 0 {
                HeadView::Done(end)
            } else {
                head_at(input, end, ended)
            },
        }
    }
}

#[via_fn]
proof fn head_at_decreases(input: Seq<u8>, at: int, ended: bool) {
    if at >= 0 {
        lemma_line_end(input, at);
    }
}

enum Head {
    NeedMore,
    Bad,
    Done(usize),
}

impl Head {
    spec fn view(&self) -> HeadView {
        match self {
            Head::NeedMore => HeadView::NeedMore,
            Head::Bad => HeadView::Bad,
            Head::Done(end) => HeadView::Done(*end as int),
        }
    }
}

fn read_headers(input: &[u8], start: usize, ended: bool) -> (head: Head)
    requires
        start <= input@.len(),
    ensures
        head.view() == head_at(input@, start as int, ended),
        head matches Head::Done(end) ==> start <= end <= input@.len(),
{
    let mut at: usize = start;
    loop
        invariant
            start <= at <= input@.len(),
            head_at(input@, start as int, ended) == head_at(input@, at as int, ended),
        decreases input@.len() - at,
    {
        match read_line(input, at, ended) {
            Line::NeedMore => {
                return Head::NeedMore;
            },
            Line::End => {
                return Head::Done(at);
            },
            Line::Bad => {
                return Head::Bad;
            },
            Line::Line(text, end) => {
                let blank = trim_exec(text.as_str());
                if blank.as_str().is_empty() {
                    return Head::Done(end);
                }
                at = end;
            },
        }
    }
}

// Messages.

/// What is read of a stream where a message is asked for.
#[derive(Debug)]
pub enum Reading {
    /// The message has not come yet.
    NeedMore,
    /// The stream has ended.
    End,
    /// The stream holds no message.
    Invalid(String),
    /// The stream has ended within a message.
    CutShort(String),
    /// A message, and how many bytes it took with what stood before it.
    Message(String, usize),
}

pub enum ReadingView {
    NeedMore,
    End,
    Invalid(Seq<char>),
    CutShort(Seq<char>),
    Message(Seq<char>, int),
}

impl View for Reading {
    type V = ReadingView;

    open spec fn view(&self) -> ReadingView {
        match self {
            Reading::NeedMore => ReadingView::NeedMore,
            Reading::End => ReadingView::End,
            Reading::Invalid(message) => ReadingView::Invalid(message@),
            Reading::CutShort(message) => ReadingView::CutShort(message@),
            Reading::Message(text, used) => ReadingView::Message(text@, *used as int),
        }
    }
}

/// The message of a known length at position `at`.
pub open spec fn payload_at(input: Seq<u8>, at: int, length: nat, ended: bool) -> ReadingView {
    if length <= input.len() - at {
        let payload = input.subrange(at, at + length);
        if valid_utf8(payload) {
            ReadingView::Message(decode_utf8(payload), at + length)
        } else {
            ReadingView::Invalid(utf8_error(payload))
        }
    } else if ended {
        ReadingView::CutShort("failed to fill whole buffer"@)
    } else {
        ReadingView::NeedMore
    }
}

/// The message at position `at`: empty lines are passed over; a line that tells a length begins a
/// head, after which so many bytes are the message; any other line is a message itself.
pub open spec fn message_at(input: Seq<u8>, at: int, ended: bool) -> ReadingView
    decreases input.len() - at,
    via message_at_decreases
{
    if at < 0 {
        ReadingView::NeedMore
    } else {
        match line_at(input, at, ended) {
            LineView::NeedMore => ReadingView::NeedMore,
            LineView::End => ReadingView::End,
            LineView::Bad => ReadingView::Invalid("stream did not contain valid UTF-8"@),
            LineView::Line(text, end) => {
                let first = trim_breaks(text);
                if first.len() == 0 {
                    message_at(input, end, ended)
                } else {
                    match told_length(first) {
                        None => ReadingView::Message(first, end),
                        Some(Err(message)) => ReadingView::Invalid(message),
                        Some(Ok(length)) => match head_at(input, end, ended) {
                            HeadView::NeedMore => ReadingView::NeedMore,
                            HeadView::Bad => ReadingView::Invalid(
                                "stream did not contain valid UTF-8"@,
                            ),
                            HeadView::Done(start) => payload_at(input, start, length, ended),
                        },
                    }
                }
            },
        }
    }
}

#[via_fn]
proof fn message_at_decreases(input: Seq<u8>, at: int, ended: bool) {
    if at >= 0 {
        lemma_line_end(input, at);
    }
}

/// What a stream begins with. `ended` says that nothing follows `input`.
pub open spec fn next_message(input: Seq<u8>, ended: bool) -> ReadingView {
    message_at(input, 0, ended)
}

fn read_payload(input: &[u8], start: usize, length: usize, ended: bool) -> (reading: Reading)
    requires
        start <= input@.len(),
    ensures
        reading@ == payload_at(input@, start as int, length as nat, ended),
{
    if length <= input.len() - start {
        let payload = slice_subrange(input, start, start + length);
        match utf8_string(payload) {
            Ok(text) => Reading::Message(text, start + length),
            Err(message) => Reading::Invalid(message),
        }
    } else if ended {
        Reading::CutShort("failed to fill whole buffer".to_string())
    } else {
        Reading::NeedMore
    }
}

/// Reads the message that a stream begins with. `ended` says that nothing follows `input`.
pub fn read_next_message(input: &[u8], ended: bool) -> (reading: Reading)
    ensures
        reading@ == next_message(input@, ended),
{
    let mut at: usize = 0;
    loop
        invariant
            at <= input@.len(),
            next_message(input@, ended) == message_at(input@, at as int, ended),
        decreases input@.len() - at,
    {
        let (text, end) = match read_line(input, at, ended) {
            Line::NeedMore => {
                return Reading::NeedMore;
            },
            Line::End => {
                return Reading::End;
            },
            Line::Bad => {
                return Reading::Invalid("stream did not contain valid UTF-8".to_string());
            },
            Line::Line(text, end) => (text, end),
        };
        let first = trim_breaks_exec(text.as_str());
        if first.as_str().is_empty() {
            at = end;
        } else {
            return match parse_content_length(first.as_str()) {
                Err(message) => Reading::Invalid(message),
                Ok(None) => Reading::Message(first, end),
                Ok(Some(length)) => match read_headers(input, end, ended) {
                    Head::NeedMore => Reading::NeedMore,
                    Head::Bad => Reading::Invalid("stream did not contain valid UTF-8".to_string()),
                    Head::Done(start) => read_payload(input, start, length, ended),
                },
            };
        }
    }
}

/// A message with the head that tells its length.
pub open spec fn frame_text(body: Seq<char>) -> Seq<char> {
    "Content-Length: "@ + decimal(encode_utf8(body).len()) + "\r\n"@ + "\r\n"@ + body
}

pub fn frame(body: &str) -> (text: String)
    ensures
        text@ == frame_text(body@),
{
    let length = decimal_exec(body.as_bytes().len() as u64);
    let mut text = concat3("Content-Length: ", length.as_str(), "\r\n");
    text.append("\r\n");
    text.append(body);
    text
}

// Laws.

proof fn lemma_line_extends(input: Seq<u8>, more: Seq<u8>, at: int, ended: bool)
    requires
        0 <= at,
        line_at(input, at, false) !is NeedMore,
    ensures
        line_at(input + more, at, ended) == line_at(input, at, false),
{
    lemma_line_end(input, at);
    let end = line_end(input, at)->0;
    let whole = input + more;
    assert(whole[end - 1] == input[end - 1]);
    assert forall|k: int| at <= k < end - 1 implies whole[k] != 10 by {
        assert(whole[k] == input[k]);
    }
    lemma_line_end_is(whole, at, end);
    assert(whole.subrange(at, end) =~= input.subrange(at, end));
}

proof fn lemma_head_extends(input: Seq<u8>, more: Seq<u8>, at: int, ended: bool)
    requires
        0 <= at,
        head_at(input, at, false) !is NeedMore,
    ensures
        head_at(input + more, at, ended) == head_at(input, at, false),
        head_at(input, at, false) matches HeadView::Done(start) ==> at <= start <= input.len(),
    decreases input.len() - at,
{
    lemma_line_extends(input, more, at, ended);
    lemma_line_end(input, at);
    if let LineView::Line(text, end) = line_at(input, at, false) {
        if trim(text).len() > 0 {
            lemma_head_extends(input, more, end, ended);
        }
    }
}

proof fn lemma_message_extends(input: Seq<u8>, more: Seq<u8>, at: int, ended: bool)
    requires
        0 <= at,
        message_at(input, at, false) !is NeedMore,
    ensures
        message_at(input + more, at, ended) == message_at(input, at, false),
    decreases input.len() - at,
{
    lemma_line_extends(input, more, at, ended);
    lemma_line_end(input, at);
    if let LineView::Line(text, end) = line_at(input, at, false) {
        let first = trim_breaks(text);
        if first.len() == 0 {
            lemma_message_extends(input, more, end, ended);
        } else if let Some(Ok(length)) = told_length(first) {
            lemma_head_extends(input, more, end, ended);
            if let HeadView::Done(start) = head_at(input, end, false) {
                assert((input + more).subrange(start, start + length) =~= input.subrange(
                    start,
                    start + length,
                ));
            }
        }
    }
}

/// What was read of a stream is read of it also when more has come: neither a message nor an
/// error depends on how the stream was cut into pieces.
pub proof fn readings_do_not_depend_on_what_follows(input: Seq<u8>, more: Seq<u8>, ended: bool)
    requires
        next_message(input, false) !is NeedMore,
    ensures
        next_message(input + more, ended) == next_message(input, false),
{
    lemma_message_extends(input, more, 0, ended);
}

proof fn lemma_frame_header(length: nat)
    requires
        length <= usize::MAX,
    ensures
        told_length("Content-Length: "@ + decimal(length)) == Some(Ok::<nat, Seq<char>>(length)),
        trim_breaks("Content-Length: "@ + decimal(length) + "\r\n"@) == "Content-Length: "@
            + decimal(length),
        is_line("Content-Length: "@ + decimal(length)),
{
    let name = "Content-Length: "@;
    let digits = decimal(length);
    let header = name + digits;
    reveal_strlit("Content-Length: ");
    let spelled = seq![
        'C', 'o', 'n', 't', 'e', 'n', 't', '-', 'L', 'e', 'n', 'g', 't', 'h', ':', ' ',
    ];
    assert(name =~= spelled);
    lemma_length_name();
    lemma_decimal_value(length);
    reveal_strlit("content-length:");
    assert(lower_char('C') == 'c' && lower_char('L') == 'l');
    assert(lower(header).take(15) =~= "content-length:"@) by {
        assert forall|i: int| 0 <= i < 15 implies lower(header).take(15)[i]
            == "content-length:"@[i] by {
            assert(lower(header)[i] == lower_char(spelled[i]));
        }
    }
    assert(header[14] == ':');
    assert forall|k: int| 0 <= k < 14 implies header[k] != ':' by {
        assert(header[k] == spelled[k]);
    }
    lemma_find_is(header, ':', 0, 14);
    assert(header.skip(15) =~= seq![' '] + digits);
    assert((seq![' '] + digits).skip(1) =~= digits);
    assert(is_digit(digits[0]) && is_digit(digits[digits.len() - 1]));
    assert(trim_start(digits) == digits);
    assert(trim_end(digits) == digits);
    assert(trim(header.skip(15)) == digits);
    lemma_crlf();
    let line = header + "\r\n"@;
    assert(line.last() == '\n');
    assert(line.drop_last().last() == '\r');
    assert(line.drop_last().drop_last() =~= header);
    assert(header.last() == digits[digits.len() - 1]);
    assert(trim_breaks(header) == header);
    assert(trim_breaks(line.drop_last()) == header);
    assert forall|i: int| 0 <= i < header.len() implies #[trigger] header[i] != '\r' && header[i]
        != '\n' by {
        if i < 16 {
            assert(header[i] == spelled[i]);
        } else {
            assert(header[i] == digits[i - 16]);
            assert(is_digit(digits[i - 16]));
        }
    }
}

/// A message is read back out of its frame, whatever follows it.
pub proof fn frames_are_read_back(body: Seq<char>, rest: Seq<u8>, ended: bool)
    requires
        encode_utf8(body).len() <= usize::MAX,
    ensures
        next_message(encode_utf8(frame_text(body)) + rest, ended) == ReadingView::Message(
            body,
            encode_utf8(frame_text(body)).len() as int,
        ),
{
    let payload = encode_utf8(body);
    let length = payload.len();
    let header = "Content-Length: "@ + decimal(length);
    let first = header + "\r\n"@;
    let a = encode_utf8(header);
    let input = encode_utf8(frame_text(body)) + rest;
    lemma_frame_header(length);
    lemma_crlf();
    lemma_line_quiet(header);
    lemma_encode_concat(first + "\r\n"@, body);
    lemma_encode_concat(first, "\r\n"@);
    lemma_encode_concat(header, "\r\n"@);
    let b = seq![13u8, 10u8];
    let n = a.len() as int;
    assert(input =~= a + b + b + payload + rest);
    // The first line.
    assert forall|k: int| 0 <= k < n + 1 implies input[k] != 10 by {
        if k < n {
            assert(input[k] == a[k]);
        }
    }
    assert(input[n + 1] == 10);
    lemma_line_end_is(input, 0, n + 2);
    assert(input.subrange(0, n + 2) =~= encode_utf8(first));
    encode_utf8_valid_utf8(first);
    encode_utf8_decode_utf8(first);
    // The blank line.
    assert(input[n + 2] == 13 && input[n + 3] == 10);
    lemma_line_end_is(input, n + 2, n + 4);
    assert(input.subrange(n + 2, n + 4) =~= encode_utf8("\r\n"@));
    encode_utf8_valid_utf8("\r\n"@);
    encode_utf8_decode_utf8("\r\n"@);
    assert(is_white('\r') && is_white('\n'));
    assert(trim_start("\r\n"@) =~= Seq::empty()) by {
        assert("\r\n"@.skip(1) =~= seq!['\n']);
        assert(seq!['\n'].skip(1) =~= Seq::<char>::empty());
        reveal_with_fuel(trim_start, 3);
    }
    assert(trim("\r\n"@).len() == 0);
    assert(head_at(input, n + 2, ended) == HeadView::Done(n + 4));
    // The message.
    assert(input.subrange(n + 4, n + 4 + length) =~= payload);
    encode_utf8_valid_utf8(body);
    encode_utf8_decode_utf8(body);
    assert(encode_utf8(frame_text(body)).len() == n + 4 + length);
}

/// The messages of a stream that has ended, up to the first that cannot be read.
pub open spec fn all_messages(input: Seq<u8>) -> Seq<Seq<char>>
    decreases input.len(),
{
    match next_message(input, true) {
        ReadingView::Message(text, used) => if 0 < used <= input.len() {
            seq![text] + all_messages(input.skip(used))
        } else {
            seq![text]
        },
        _ => Seq::empty(),
    }
}

/// The frames of messages, one after the other.
pub open spec fn frames_of(bodies: Seq<Seq<char>>) -> Seq<u8>
    decreases bodies.len(),
{
    if bodies.len() == 0 {
        Seq::empty()
    } else {
        encode_utf8(frame_text(bodies[0])) + frames_of(bodies.skip(1))
    }
}

/// Messages that are sent in frames are read back one by one, in their order, and nothing else is.
pub proof fn framed_streams_are_read_back(bodies: Seq<Seq<char>>)
    requires
        forall|i: int|
            0 <= i < bodies.len() ==> encode_utf8(#[trigger] bodies[i]).len() <= usize::MAX,
    ensures
        all_messages(frames_of(bodies)) == bodies,
    decreases bodies.len(),
{
    if bodies.len() == 0 {
        assert(all_messages(frames_of(bodies)) =~= bodies);
    } else {
        let frame = encode_utf8(frame_text(bodies[0]));
        let rest = frames_of(bodies.skip(1));
        frames_are_read_back(bodies[0], rest, true);
        assert(frame.len() > 0) by {
            let length = encode_utf8(bodies[0]).len();
            lemma_crlf();
            lemma_encode_concat(
                "Content-Length: "@ + decimal(length) + "\r\n"@ + "\r\n"@,
                bodies[0],
            );
            lemma_encode_concat("Content-Length: "@ + decimal(length) + "\r\n"@, "\r\n"@);
        }
        assert((frame + rest).skip(frame.len() as int) =~= rest);
        assert forall|i: int| 0 <= i < bodies.skip(1).len() implies encode_utf8(
            #[trigger] bodies.skip(1)[i],
        ).len() <= usize::MAX by {
            assert(bodies.skip(1)[i] == bodies[i + 1]);
        }
        framed_streams_are_read_back(bodies.skip(1));
        assert(all_messages(frames_of(bodies)) =~= bodies);
    }
}

proof fn lemma_blank_line()
    ensures
        trim("\r\n"@).len() == 0,
{
    lemma_crlf();
    assert(is_white('\r') && is_white('\n'));
    assert(trim_start("\r\n"@) =~= Seq::empty()) by {
        assert("\r\n"@.skip(1) =~= seq!['\n']);
        assert(seq!['\n'].skip(1) =~= Seq::<char>::empty());
        reveal_with_fuel(trim_start, 3);
    }
}

/// A line with its end is read where it stands.
proof fn lemma_line_read(before: Seq<u8>, line: Seq<char>, rest: Seq<u8>, ended: bool)
    requires
        forall|i: int| 0 <= i < line.len() ==> #[trigger] line[i] != '\r' && line[i] != '\n',
    ensures
        ({
            let taken = encode_utf8(line + "\r\n"@);
            let at = before.len() as int;
            &&& taken == encode_utf8(line) + seq![13u8, 10u8]
            &&& line_at(before + taken + rest, at, ended) == LineView::Line(
                line + "\r\n"@,
                at + taken.len(),
            )
        }),
{
    let a = encode_utf8(line);
    let taken = encode_utf8(line + "\r\n"@);
    let at = before.len() as int;
    let n = a.len() as int;
    lemma_crlf();
    lemma_line_quiet(line);
    lemma_encode_concat(line, "\r\n"@);
    let input = before + taken + rest;
    assert forall|k: int| at <= k < at + n + 1 implies input[k] != 10 by {
        assert(input[k] == taken[k - at]);
        if k < at + n {
            assert(taken[k - at] == a[k - at]);
        }
    }
    assert(input[at + n + 1] == taken[n + 1]);
    lemma_line_end_is(input, at, at + n + 2);
    assert(input.subrange(at, at + n + 2) =~= taken);
    encode_utf8_valid_utf8(line + "\r\n"@);
    encode_utf8_decode_utf8(line + "\r\n"@);
}

/// The rest of a head is read to its empty line.
proof fn lemma_head_read(before: Seq<u8>, all: Seq<Seq<char>>, rest: Seq<u8>, ended: bool)
    requires
        are_lines(all),
        forall|i: int| 0 <= i < all.len() ==> trim(#[trigger] all[i] + "\r\n"@).len() > 0,
    ensures
        head_at(before + encode_utf8(head_of(all)) + rest, before.len() as int, ended)
            == HeadView::Done((before.len() + encode_utf8(head_of(all)).len()) as int),
    decreases all.len(),
{
    let none = Seq::<char>::empty();
    let bytes = encode_utf8(head_of(all));
    let input = before + bytes + rest;
    if all.len() == 0 {
        lemma_line_read(before, none, rest, ended);
        assert(none + "\r\n"@ =~= "\r\n"@);
        lemma_blank_line();
    } else {
        let line = all[0] + "\r\n"@;
        let tail = all.skip(1);
        assert(is_line(all[0]));
        lemma_encode_concat(line, head_of(tail));
        let first = encode_utf8(line);
        let others = encode_utf8(head_of(tail));
        lemma_line_read(before, all[0], others + rest, ended);
        assert(input =~= before + first + (others + rest));
        assert forall|i: int| 0 <= i < tail.len() implies is_line(#[trigger] tail[i]) && trim(
            tail[i] + "\r\n"@,
        ).len() > 0 by {
            assert(tail[i] == all[i + 1]);
        }
        lemma_head_read(before + first, tail, rest, ended);
        assert(input =~= before + first + others + rest);
    }
}

/// The bytes after a head are the message, as many of them as the head tells, whatever other lines
/// stand in the head. Where they have not all come, more is needed, or the stream was cut short.
/// Bytes that are no text are no message.
pub proof fn messages_are_as_long_as_told(
    length: nat,
    all: Seq<Seq<char>>,
    payload: Seq<u8>,
    ended: bool,
)
    requires
        length <= usize::MAX,
        are_lines(all),
        forall|i: int| 0 <= i < all.len() ==> trim(#[trigger] all[i] + "\r\n"@).len() > 0,
    ensures
        ({
            let head = encode_utf8(
                "Content-Length: "@ + decimal(length) + "\r\n"@ + head_of(all),
            );
            let reading = next_message(head + payload, ended);
            let message = payload.take(length as int);
            &&& payload.len() >= length && valid_utf8(message) ==> reading == ReadingView::Message(
                decode_utf8(message),
                (head.len() + length) as int,
            )
            &&& payload.len() >= length && !valid_utf8(message) ==> reading
                == ReadingView::Invalid(utf8_error(message))
            &&& payload.len() < length && ended ==> reading == ReadingView::CutShort(
                "failed to fill whole buffer"@,
            )
            &&& payload.len() < length && !ended ==> reading is NeedMore
        }),
{
    let header = "Content-Length: "@ + decimal(length);
    let none = Seq::<u8>::empty();
    let first = encode_utf8(header + "\r\n"@);
    let others = encode_utf8(head_of(all));
    let head = encode_utf8(header + "\r\n"@ + head_of(all));
    let input = head + payload;
    lemma_frame_header(length);
    lemma_encode_concat(header + "\r\n"@, head_of(all));
    lemma_line_read(none, header, others + payload, ended);
    assert(none + first + (others + payload) =~= input);
    lemma_head_read(first, all, payload, ended);
    assert(first + others + payload =~= input);
    if payload.len() >= length {
        assert(input.subrange(head.len() as int, (head.len() + length) as int) =~= payload.take(
            length as int,
        ));
    }
}

/// A line that tells no length is a message by itself, without the carriage return and the line
/// feed that end it. The last line of a stream needs no end, but until the stream has ended more of
/// it may come.
pub proof fn lines_are_messages(body: Seq<char>, rest: Seq<u8>, ended: bool)
    requires
        is_line(body),
        told_length(body) is None,
    ensures
        ({
            let bytes = encode_utf8(body);
            &&& next_message(bytes + seq![10u8] + rest, ended) == ReadingView::Message(
                body,
                (bytes.len() + 1) as int,
            )
            &&& next_message(bytes + seq![13u8, 10u8] + rest, ended) == ReadingView::Message(
                body,
                (bytes.len() + 2) as int,
            )
            &&& next_message(bytes, true) == ReadingView::Message(body, bytes.len() as int)
            &&& next_message(bytes, false) is NeedMore
            &&& next_message(Seq::<u8>::empty(), true) is End
            &&& next_message(Seq::<u8>::empty(), false) is NeedMore
        }),
{
    let bytes = encode_utf8(body);
    let none = Seq::<u8>::empty();
    let n = bytes.len() as int;
    lemma_line_quiet(body);
    lemma_crlf();
    assert(trim_breaks(body) == body) by {
        assert(body.last() == body[body.len() - 1]);
    }
    // Ended by a line feed.
    let feed = seq!['\n'];
    assert(feed.drop_first() =~= Seq::<char>::empty());
    reveal_with_fuel(encode_utf8, 3);
    assert(leading_byte_width_1(10u32) == 10u8) by (bit_vector);
    assert(encode_utf8(feed) =~= seq![10u8]);
    lemma_encode_concat(body, feed);
    let one = bytes + seq![10u8] + rest;
    assert forall|k: int| 0 <= k < n implies one[k] != 10 by {
        assert(one[k] == bytes[k]);
    }
    assert(one[n] == 10);
    lemma_line_end_is(one, 0, n + 1);
    assert(one.subrange(0, n + 1) =~= encode_utf8(body + feed));
    encode_utf8_valid_utf8(body + feed);
    encode_utf8_decode_utf8(body + feed);
    assert((body + feed).last() == '\n');
    assert((body + feed).drop_last() =~= body);
    assert(trim_breaks(body + feed) == body);
    // Ended by a carriage return and a line feed.
    lemma_line_read(none, body, rest, ended);
    let two = bytes + seq![13u8, 10u8] + rest;
    assert(none + encode_utf8(body + "\r\n"@) + rest =~= two);
    let line = body + "\r\n"@;
    assert(line.last() == '\n');
    assert(line.drop_last().last() == '\r');
    assert(line.drop_last().drop_last() =~= body);
    assert(trim_breaks(line.drop_last()) == body);
    assert(trim_breaks(line) == body);
    // Ended by the stream.
    lemma_line_end(bytes, 0);
    assert(bytes.skip(0) =~= bytes);
    encode_utf8_valid_utf8(body);
    encode_utf8_decode_utf8(body);
}

/// A header tells a length by its name, in whatever case it is written, and by the number after
/// the colon, in whatever white space it stands. No other line tells one.
pub proof fn lengths_are_told_by_their_header(
    name: Seq<char>,
    value: Seq<char>,
    other: Seq<char>,
)
    requires
        !name.contains(':'),
    ensures
        ({
            let header = name + seq![':'] + value;
            let number = unsigned_value(trim(value));
            &&& lower(name) != "content-length"@ ==> told_length(header) is None
            &&& lower(name) == "content-length"@ ==> told_length(header) == Some(
                if number is Some && number->0 <= usize::MAX {
                    Ok::<nat, Seq<char>>(number->0)
                } else {
                    Err::<nat, Seq<char>>(usize_error(trim(value), usize::BITS as nat))
                },
            )
        }),
        !other.contains(':') ==> told_length(other) is None,
{
    let header = name + seq![':'] + value;
    let at = name.len() as int;
    lemma_length_name();
    reveal_strlit("content-length");
    reveal_strlit("content-length:");
    assert("content-length:"@.take(14) =~= "content-length"@);
    assert forall|k: int| 0 <= k < at implies header[k] != ':' by {
        assert(header[k] == name[k]);
        assert(name.contains(name[k]));
    }
    assert(header[at] == ':');
    lemma_find_is(header, ':', 0, at);
    assert(header.skip(at + 1) =~= value);
    if begins_with(lower(header), "content-length:"@) {
        assert(lower(header).take(15)[14] == ':');
        assert(header[14] == ':');
        assert forall|k: int| 0 <= k < 14 implies header[k] != ':' by {
            assert(lower(header).take(15)[k] == "content-length:"@[k]);
            assert("content-length:"@[k] != ':');
            assert(lower(header)[k] == lower_char(header[k]));
        }
        lemma_find_is(header, ':', 0, 14);
        assert(at == 14);
        assert(lower(name) =~= lower(header).take(15).take(14));
    }
    if lower(name) == "content-length"@ {
        assert(lower(name).len() == name.len());
        assert(lower(header).take(15) =~= lower(name) + seq![lower_char(':')]);
        assert("content-length:"@ =~= "content-length"@ + seq![':']);
    }
    if begins_with(lower(other), "content-length:"@) {
        assert(lower(other).take(15)[14] == ':');
        assert(lower(other)[14] == lower_char(other[14]));
        assert(other[14] == ':');
        assert(other.contains(other[14]));
    }
}

/// What a reading is where the stream was read from a later position.
pub open spec fn moved(reading: ReadingView, by: int) -> ReadingView {
    match reading {
        ReadingView::Message(text, used) => ReadingView::Message(text, used + by),
        other => other,
    }
}

proof fn lemma_line_moved(before: Seq<u8>, input: Seq<u8>, at: int, ended: bool)
    requires
        0 <= at <= input.len(),
    ensures
        line_at(before + input, before.len() + at, ended) == match line_at(input, at, ended) {
            LineView::Line(text, end) => LineView::Line(text, before.len() + end),
            other => other,
        },
        line_at(input, at, ended) matches LineView::Line(_, end) ==> at < end <= input.len(),
{
    let whole = before + input;
    let n = before.len() as int;
    lemma_line_end(input, at);
    lemma_line_end(whole, n + at);
    match line_end(input, at) {
        Some(end) => {
            assert(whole[n + end - 1] == input[end - 1]);
            assert forall|k: int| n + at <= k < n + end - 1 implies whole[k] != 10 by {
                assert(whole[k] == input[k - n]);
            }
            lemma_line_end_is(whole, n + at, n + end);
            assert(whole.subrange(n + at, n + end) =~= input.subrange(at, end));
        },
        None => {
            if let Some(end) = line_end(whole, n + at) {
                assert(whole[end - 1] == input[end - 1 - n]);
            }
            assert(whole.skip(n + at) =~= input.skip(at));
        },
    }
}

proof fn lemma_head_moved(before: Seq<u8>, input: Seq<u8>, at: int, ended: bool)
    requires
        0 <= at <= input.len(),
    ensures
        head_at(before + input, before.len() + at, ended) == match head_at(input, at, ended) {
            HeadView::Done(end) => HeadView::Done(before.len() + end),
            other => other,
        },
        head_at(input, at, ended) matches HeadView::Done(end) ==> at <= end <= input.len(),
    decreases input.len() - at,
{
    lemma_line_moved(before, input, at, ended);
    if let LineView::Line(text, end) = line_at(input, at, ended) {
        if trim(text).len() > 0 {
            lemma_head_moved(before, input, end, ended);
        }
    }
}

proof fn lemma_message_moved(before: Seq<u8>, input: Seq<u8>, at: int, ended: bool)
    requires
        0 <= at <= input.len(),
    ensures
        message_at(before + input, before.len() + at, ended) == moved(
            message_at(input, at, ended),
            before.len() as int,
        ),
    decreases input.len() - at,
{
    let n = before.len() as int;
    lemma_line_moved(before, input, at, ended);
    if let LineView::Line(text, end) = line_at(input, at, ended) {
        let first = trim_breaks(text);
        if first.len() == 0 {
            lemma_message_moved(before, input, end, ended);
        } else if let Some(Ok(length)) = told_length(first) {
            lemma_head_moved(before, input, end, ended);
            if let HeadView::Done(start) = head_at(input, end, ended) {
                if length <= input.len() - start {
                    assert((before + input).subrange(n + start, n + start + length)
                        =~= input.subrange(start, start + length));
                }
            }
        }
    }
}

/// An empty line before a message is passed over.
pub proof fn empty_lines_are_passed_over(input: Seq<u8>, ended: bool)
    ensures
        next_message(seq![13u8, 10u8] + input, ended) == moved(next_message(input, ended), 2),
{
    let none = Seq::<char>::empty();
    let before = seq![13u8, 10u8];
    lemma_crlf();
    lemma_line_read(Seq::empty(), none, input, ended);
    assert(none + "\r\n"@ =~= "\r\n"@);
    assert(Seq::<u8>::empty() + encode_utf8("\r\n"@) + input =~= before + input);
    assert("\r\n"@.last() == '\n');
    assert("\r\n"@.drop_last() =~= seq!['\r']);
    assert(seq!['\r'].last() == '\r');
    assert(seq!['\r'].drop_last() =~= none);
    assert(trim_breaks(none) == none);
    assert(trim_breaks(seq!['\r']) == none);
    assert(trim_breaks("\r\n"@) == none);
    lemma_message_moved(before, input, 0, ended);
}

} // verus!
