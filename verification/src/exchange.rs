//! What one side of the bridge writes, the other reads back.
use crate::bridge::{is_admitted, paths_lead_to_their_command, BridgeRouteView, CommandRequestView};
use crate::decimal::{decimal, is_digit, lemma_decimal_value};
use crate::http::{
    body_start, body_target, content_length, header_content, header_in, header_line, header_value,
    headers_are_names_and_contents, http_response, http_url, is_header, is_local, length_in, request_head, request_line,
    request_method, request_path, request_route, request_text, response_head, response_text,
    status_line, the_first_header_counts, url_parts, ContentType, HttpResponseView, HttpStatus, HttpUrlView,
};
use crate::phone::{job_request, url_of, PhoneJobView, PhoneStageView};
use crate::scan::{
    is_white, lemma_words_cons, lemma_words_one, lower, lower_char, trim, trim_end_char, words,
};
use crate::text::{
    begins_with, find, lemma_find, lemma_find_is, lemma_find_last, lemma_lossy_text, lossy_text,
};
use crate::web::{web_route, WebRouteView};
use crate::wire::{
    are_lines, head_of, is_line, lemma_encode_concat, lemma_first_line, lemma_head_found,
    lemma_head_lines_of, lemma_unbroken, unbroken_from,
};
use vstd::prelude::*;
use vstd::utf8::encode_utf8;

verus! {

/// A text without white space that is not empty.
pub open spec fn is_word(text: Seq<char>) -> bool {
    text.len() > 0 && forall|k: int| 0 <= k < text.len() ==> !is_white(#[trigger] text[k])
}

proof fn lemma_word_is_line(text: Seq<char>)
    requires
        is_word(text),
    ensures
        is_line(text),
{
    assert forall|i: int| 0 <= i < text.len() implies #[trigger] text[i] != '\r' && text[i]
        != '\n' by {
        assert(!is_white(text[i]));
    }
}

proof fn lemma_decimal_is_word(number: nat)
    ensures
        is_word(decimal(number)),
        is_line(decimal(number)),
{
    lemma_decimal_value(number);
    assert forall|k: int| 0 <= k < decimal(number).len() implies !is_white(
        #[trigger] decimal(number)[k],
    ) by {
        assert(is_digit(decimal(number)[k]));
    }
    lemma_word_is_line(decimal(number));
}

/// Text without white space at its ends is trimmed to itself, also after a blank.
proof fn lemma_trim_after_blank(text: Seq<char>)
    requires
        trim(text) == text,
    ensures
        trim(seq![' '] + text) == text,
{
    assert((seq![' '] + text).skip(1) =~= text);
}

proof fn lemma_trim_word(text: Seq<char>)
    requires
        is_word(text),
    ensures
        trim(text) == text,
{
    assert(!is_white(text[0]) && !is_white(text[text.len() - 1]));
}

/// A header line is read back.
proof fn lemma_header_read_back(name: Seq<char>, value: Seq<char>)
    requires
        forall|i: int| 0 <= i < name.len() ==> #[trigger] name[i] != ':',
    ensures
        find(header_line(name, value), ':') == name.len(),
        find(header_line(name, value), ':') < header_line(name, value).len(),
        header_line(name, value).take(name.len() as int) == name,
        trim(value) == value ==> header_content(header_line(name, value)) == value,
{
    reveal_strlit(": ");
    let line = header_line(name, value);
    assert(line[name.len() as int] == ':');
    assert forall|k: int| 0 <= k < name.len() implies line[k] != ':' by {
        assert(line[k] == name[k]);
    }
    lemma_find_is(line, ':', 0, name.len() as int);
    assert(line.take(name.len() as int) =~= name);
    assert(line.skip(name.len() + 1int) =~= seq![' '] + value);
    if trim(value) == value {
        lemma_trim_after_blank(value);
    }
}

proof fn lemma_content_length_name()
    ensures
        is_line("Content-Length"@),
        forall|i: int| 0 <= i < "Content-Length"@.len() ==> #[trigger] "Content-Length"@[i] != ':',
        lower("Content-Length"@) == lower("content-length"@),
{
    reveal_strlit("Content-Length");
    reveal_strlit("content-length");
    let a = seq!['C', 'o', 'n', 't', 'e', 'n', 't', '-', 'L', 'e', 'n', 'g', 't', 'h'];
    let b = seq!['c', 'o', 'n', 't', 'e', 'n', 't', '-', 'l', 'e', 'n', 'g', 't', 'h'];
    assert("Content-Length"@ =~= a);
    assert("content-length"@ =~= b);
    assert(lower_char('C') == 'c' && lower_char('L') == 'l');
    assert(lower(a) =~= lower(b));
}

proof fn lemma_unbroken_line(text: Seq<char>)
    requires
        text.len() > 0,
        unbroken_from(text, 0),
    ensures
        is_line(text),
{
    lemma_unbroken(text, 0);
}

proof fn lemma_version_word()
    ensures
        is_word("HTTP/1.1"@),
        is_line("HTTP/1.1"@),
        " "@ == seq![' '],
        is_line(" "@),
        is_white(' '),
{
    reveal_strlit("HTTP/1.1");
    reveal_strlit(" ");
    assert("HTTP/1.1"@ =~= seq!['H', 'T', 'T', 'P', '/', '1', '.', '1']);
    assert(" "@ =~= seq![' ']);
    lemma_word_is_line("HTTP/1.1"@);
}

proof fn lemma_fixed_lines()
    ensures
        is_line("Content-Type"@),
        is_line("Host"@),
        is_line(": "@),
        is_line("Cache-Control: no-store"@),
        is_line("Connection: close"@),
        is_line("application/json"@),
        is_line("Accept"@),
{
    reveal_with_fuel(unbroken_from, 40);
    reveal_strlit("Content-Type");
    lemma_unbroken_line("Content-Type"@);
    reveal_strlit("Host");
    lemma_unbroken_line("Host"@);
    reveal_strlit(": ");
    lemma_unbroken_line(": "@);
    reveal_strlit("Cache-Control: no-store");
    lemma_unbroken_line("Cache-Control: no-store"@);
    reveal_strlit("Connection: close");
    lemma_unbroken_line("Connection: close"@);
    reveal_strlit("application/json");
    lemma_unbroken_line("application/json"@);
    reveal_strlit("Accept");
    lemma_unbroken_line("Accept"@);
}

proof fn lemma_reason_is_line(status: HttpStatus)
    ensures
        is_line(status.reason_view()),
{
    reveal_with_fuel(unbroken_from, 20);
    reveal_strlit("OK");
    reveal_strlit("Accepted");
    reveal_strlit("No Content");
    reveal_strlit("Forbidden");
    reveal_strlit("Not Found");
    reveal_strlit("Method Not Allowed");
    reveal_strlit("Conflict");
    lemma_unbroken_line(status.reason_view());
}

proof fn lemma_type_is_line(content_type: ContentType)
    ensures
        is_line(content_type.text_view()),
{
    reveal_with_fuel(unbroken_from, 41);
    reveal_strlit("text/html; charset=utf-8");
    reveal_strlit("text/javascript; charset=utf-8");
    reveal_strlit("text/css; charset=utf-8");
    reveal_strlit("text/plain; charset=utf-8");
    reveal_strlit("application/json; charset=utf-8");
    reveal_strlit("application/vnd.android.package-archive");
    lemma_unbroken_line(content_type.text_view());
}

/// Five lines with their ends, and an empty one, are a head.
proof fn lemma_head_of_five(
    a: Seq<char>,
    b: Seq<char>,
    c: Seq<char>,
    d: Seq<char>,
    e: Seq<char>,
    n: Seq<char>,
)
    requires
        n == "\r\n"@,
    ensures
        head_of(seq![a, b, c, d, e]) == a + n + b + n + c + n + d + n + e + n + n,
{
    let last = Seq::<Seq<char>>::empty();
    assert(seq![e].skip(1) =~= last);
    assert(seq![d, e].skip(1) =~= seq![e]);
    assert(seq![c, d, e].skip(1) =~= seq![d, e]);
    assert(seq![b, c, d, e].skip(1) =~= seq![c, d, e]);
    assert(seq![a, b, c, d, e].skip(1) =~= seq![b, c, d, e]);
    reveal_with_fuel(head_of, 6);
    lemma_five_in_a_row(a + n, b + n, c + n, d + n, e + n + n);
    assert(a + n + b + n =~= a + n + (b + n));
    assert(a + n + b + n + c + n =~= a + n + b + n + (c + n));
    assert(a + n + b + n + c + n + d + n =~= a + n + b + n + c + n + (d + n));
    assert(a + n + b + n + c + n + d + n + e + n + n =~= a + n + b + n + c + n + d + n + (e + n
        + n));
}

proof fn lemma_five_in_a_row(
    a: Seq<char>,
    b: Seq<char>,
    c: Seq<char>,
    d: Seq<char>,
    e: Seq<char>,
)
    ensures
        a + (b + (c + (d + e))) == a + b + c + d + e,
{
    assert(a + (b + (c + (d + e))) =~= a + b + (c + (d + e)));
    assert(a + b + (c + (d + e)) =~= a + b + c + (d + e));
    assert(a + b + c + (d + e) =~= a + b + c + d + e);
}

/// The lines of the head of a response.
pub open spec fn response_lines(status: HttpStatus, content_type: ContentType, length: nat) -> Seq<
    Seq<char>,
> {
    seq![
        status_line(status),
        header_line("Content-Type"@, content_type.text_view()),
        header_line("Content-Length"@, decimal(length)),
        "Cache-Control: no-store"@,
        "Connection: close"@,
    ]
}

proof fn lemma_response_lines(status: HttpStatus, content_type: ContentType, length: nat)
    ensures
        are_lines(response_lines(status, content_type, length)),
        head_of(response_lines(status, content_type, length)) == response_head(
            status,
            content_type,
            length,
        ),
{
    lemma_head_of_five(
        status_line(status),
        header_line("Content-Type"@, content_type.text_view()),
        header_line("Content-Length"@, decimal(length)),
        "Cache-Control: no-store"@,
        "Connection: close"@,
        "\r\n"@,
    );
    lemma_version_word();
    lemma_fixed_lines();
    lemma_reason_is_line(status);
    lemma_type_is_line(content_type);
    lemma_content_length_name();
    lemma_decimal_is_word(status.code_view());
    lemma_decimal_is_word(length);
    assert(is_line(status_line(status)));
    assert(is_line(header_line("Content-Type"@, content_type.text_view())));
    assert(is_line(header_line("Content-Length"@, decimal(length))));
}

/// A response is read back by the side that gets it: its status, and its body unless it was sent
/// without one.
pub proof fn responses_are_read_back(response: HttpResponseView)
    ensures
        http_response(encode_utf8(response_text(response))) == Ok::<(int, Seq<char>), Seq<char>>(
            (response.status.code_view() as int, if response.headers_only {
                Seq::empty()
            } else {
                response.body
            }),
        ),
{
    let length = encode_utf8(response.body).len();
    let all = response_lines(response.status, response.content_type, length);
    let head = response_head(response.status, response.content_type, length);
    let sent = if response.headers_only {
        Seq::<char>::empty()
    } else {
        response.body
    };
    let code = decimal(response.status.code_view());
    let reason = response.status.reason_view();
    lemma_response_lines(response.status, response.content_type, length);
    lemma_head_found(all, encode_utf8(sent));
    lemma_encode_concat(head, sent);
    assert(response_text(response) =~= head + sent);
    lemma_lossy_text(head);
    lemma_lossy_text(sent);
    lemma_head_lines_of(all);
    lemma_version_word();
    lemma_decimal_is_word(response.status.code_view());
    lemma_words_cons("HTTP/1.1"@, ' ', code + " "@ + reason);
    lemma_words_cons(code, ' ', reason);
    assert(status_line(response.status) == "HTTP/1.1"@ + seq![' '] + (code + " "@ + reason));
    assert(words(all[0])[1] == code);
    lemma_decimal_value(response.status.code_view());
}

/// The lines of the head of a request.
pub open spec fn request_lines(
    method: Seq<char>,
    path: Seq<char>,
    host: Seq<char>,
    length: nat,
) -> Seq<Seq<char>> {
    seq![
        request_line(method, path),
        header_line("Host"@, host),
        header_line("Content-Type"@, "application/json"@),
        header_line("Accept"@, "application/json"@),
        header_line("Content-Length"@, decimal(length)),
        "Connection: close"@,
    ]
}

proof fn lemma_head_of_six(
    a: Seq<char>,
    b: Seq<char>,
    c: Seq<char>,
    d: Seq<char>,
    e: Seq<char>,
    f: Seq<char>,
    n: Seq<char>,
)
    requires
        n == "\r\n"@,
    ensures
        head_of(seq![a, b, c, d, e, f]) == a + n + b + n + c + n + d + n + e + n + f + n + n,
{
    lemma_head_of_five(b, c, d, e, f, n);
    assert(seq![a, b, c, d, e, f].skip(1) =~= seq![b, c, d, e, f]);
    let p = a + n;
    assert(p + (b + n + c + n + d + n + e + n + f + n + n) =~= p + (b + n + c + n + d + n + e + n
        + f + n) + n);
    assert(p + (b + n + c + n + d + n + e + n + f + n) =~= p + (b + n + c + n + d + n + e + n + f)
        + n);
    assert(p + (b + n + c + n + d + n + e + n + f) =~= p + (b + n + c + n + d + n + e + n) + f);
    assert(p + (b + n + c + n + d + n + e + n) =~= p + (b + n + c + n + d + n + e) + n);
    assert(p + (b + n + c + n + d + n + e) =~= p + (b + n + c + n + d + n) + e);
    assert(p + (b + n + c + n + d + n) =~= p + (b + n + c + n + d) + n);
    assert(p + (b + n + c + n + d) =~= p + (b + n + c + n) + d);
    assert(p + (b + n + c + n) =~= p + (b + n + c) + n);
    assert(p + (b + n + c) =~= p + (b + n) + c);
    assert(p + (b + n) =~= p + b + n);
}

/// What a request may name: words for the method and the path, no colon in the method, and no
/// line end in the host.
pub open spec fn is_request(method: Seq<char>, path: Seq<char>, host: Seq<char>) -> bool {
    &&& is_word(method)
    &&& forall|i: int| 0 <= i < method.len() ==> #[trigger] method[i] != ':'
    &&& is_word(path)
    &&& host.len() == 0 || is_line(host)
}

proof fn lemma_request_lines(method: Seq<char>, path: Seq<char>, host: Seq<char>, length: nat)
    requires
        is_request(method, path, host),
    ensures
        are_lines(request_lines(method, path, host, length)),
        head_of(request_lines(method, path, host, length)) == request_head(
            method,
            path,
            host,
            length,
        ),
{
    lemma_head_of_six(
        request_line(method, path),
        header_line("Host"@, host),
        header_line("Content-Type"@, "application/json"@),
        header_line("Accept"@, "application/json"@),
        header_line("Content-Length"@, decimal(length)),
        "Connection: close"@,
        "\r\n"@,
    );
    lemma_word_is_line(method);
    lemma_word_is_line(path);
    lemma_version_word();
    lemma_fixed_lines();
    lemma_content_length_name();
    lemma_decimal_is_word(length);
    assert(is_line(request_line(method, path)));
    assert(is_line(header_line("Host"@, host)));
    assert(is_line(header_line("Content-Type"@, "application/json"@)));
    assert(is_line(header_line("Accept"@, "application/json"@)));
    assert(is_line(header_line("Content-Length"@, decimal(length))));
}

/// A request reaches the method and the path that it was made for, whatever part of its body
/// comes with its head.
pub proof fn requests_reach_their_path(
    method: Seq<char>,
    path: Seq<char>,
    host: Seq<char>,
    length: nat,
    part: Seq<char>,
)
    requires
        is_request(method, path, host),
    ensures
        request_method(encode_utf8(request_head(method, path, host, length) + part)) == method,
        request_path(encode_utf8(request_head(method, path, host, length) + part)) == path,
{
    let all = request_lines(method, path, host, length);
    let text = request_head(method, path, host, length) + part;
    lemma_request_lines(method, path, host, length);
    lemma_lossy_text(text);
    assert(text =~= all[0] + "\r\n"@ + (head_of(all.skip(1)) + part));
    assert(is_line(all[0]));
    lemma_first_line(all[0], head_of(all.skip(1)) + part);
    lemma_version_word();
    lemma_words_cons(method, ' ', path + " "@ + "HTTP/1.1"@);
    lemma_words_cons(path, ' ', "HTTP/1.1"@);
    lemma_words_one("HTTP/1.1"@);
    assert(request_line(method, path) == method + seq![' '] + (path + " "@ + "HTTP/1.1"@));
    assert(words(all[0]) =~= seq![method, path, "HTTP/1.1"@]);
}

/// The first line of a request is no header.
proof fn lemma_request_line_is_no_header(
    method: Seq<char>,
    path: Seq<char>,
    name: Seq<char>,
)
    requires
        is_word(method),
        forall|i: int| 0 <= i < method.len() ==> #[trigger] method[i] != ':',
        forall|i: int| 0 <= i < name.len() ==> #[trigger] name[i] != ' ',
    ensures
        !is_header(request_line(method, path), name),
{
    let line = request_line(method, path);
    let colon = find(line, ':');
    let at = method.len() as int;
    lemma_version_word();
    lemma_find(line, ':', 0);
    assert(line[at] == ' ');
    if is_header(line, name) {
        if colon <= at {
            if colon < at {
                assert(line[colon] == method[colon]);
            }
            assert(false);
        }
        assert(lower(line.take(colon)).len() == colon && lower(name).len() == name.len());
        assert(lower(line.take(colon))[at] == lower_char(' '));
        assert(lower(name)[at] == lower_char(name[at]));
        assert(lower_char(name[at]) == ' ');
        assert(name[at] == ' ');
    }
}

proof fn lemma_header_names()
    ensures
        "Host"@.len() == 4,
        "Content-Type"@.len() == 12,
        "Accept"@.len() == 6,
        "Content-Length"@.len() == 14,
        "content-length"@.len() == 14,
        "host"@.len() == 4,
        lower("Host"@) == lower("host"@),
        forall|i: int| 0 <= i < "Host"@.len() ==> #[trigger] "Host"@[i] != ':',
        forall|i: int| 0 <= i < "Content-Type"@.len() ==> #[trigger] "Content-Type"@[i] != ':',
        forall|i: int| 0 <= i < "Accept"@.len() ==> #[trigger] "Accept"@[i] != ':',
        forall|i: int| 0 <= i < "host"@.len() ==> #[trigger] "host"@[i] != ' ',
        forall|i: int| 0 <= i < "content-length"@.len() ==> #[trigger] "content-length"@[i] != ' ',
{
    reveal_strlit("Host");
    reveal_strlit("host");
    reveal_strlit("Content-Type");
    reveal_strlit("Accept");
    reveal_strlit("Content-Length");
    reveal_strlit("content-length");
    assert("Host"@ =~= seq!['H', 'o', 's', 't']);
    assert("host"@ =~= seq!['h', 'o', 's', 't']);
    assert("Content-Type"@ =~= seq!['C', 'o', 'n', 't', 'e', 'n', 't', '-', 'T', 'y', 'p', 'e']);
    assert("Accept"@ =~= seq!['A', 'c', 'c', 'e', 'p', 't']);
    assert("content-length"@ =~= seq![
        'c', 'o', 'n', 't', 'e', 'n', 't', '-', 'l', 'e', 'n', 'g', 't', 'h',
    ]);
    assert(lower_char('H') == 'h');
    assert(lower("Host"@) =~= lower("host"@));
}

/// The host that a request names is found among its headers.
pub proof fn requests_name_their_host(
    method: Seq<char>,
    path: Seq<char>,
    host: Seq<char>,
    length: nat,
    rest: Seq<u8>,
)
    requires
        is_request(method, path, host),
        trim(host) == host,
    ensures
        header_value(encode_utf8(request_head(method, path, host, length)) + rest, "host"@) == Some(
            host,
        ),
{
    let all = request_lines(method, path, host, length);
    let found = all.push(Seq::empty());
    lemma_request_lines(method, path, host, length);
    lemma_head_found(all, rest);
    lemma_header_names();
    lemma_request_line_is_no_header(method, path, "host"@);
    lemma_header_read_back("Host"@, host);
    assert(found[0] == request_line(method, path));
    assert(found.skip(1)[0] == header_line("Host"@, host));
    assert(is_header(header_line("Host"@, host), "host"@));
    assert(header_in(found.skip(1), "host"@) == Some(host));
    assert(header_in(found, "host"@) == Some(host));
}

/// The length that a request announces is that of its body.
proof fn lemma_request_length(
    method: Seq<char>,
    path: Seq<char>,
    host: Seq<char>,
    length: nat,
    rest: Seq<u8>,
)
    requires
        is_request(method, path, host),
        length <= usize::MAX,
    ensures
        content_length(encode_utf8(request_head(method, path, host, length)) + rest) == length,
{
    let all = request_lines(method, path, host, length);
    let found = all.push(Seq::empty());
    lemma_request_lines(method, path, host, length);
    lemma_head_found(all, rest);
    lemma_header_names();
    lemma_content_length_name();
    lemma_request_line_is_no_header(method, path, "content-length"@);
    lemma_header_read_back("Host"@, host);
    lemma_header_read_back("Content-Type"@, "application/json"@);
    lemma_header_read_back("Accept"@, "application/json"@);
    lemma_decimal_is_word(length);
    lemma_trim_word(decimal(length));
    lemma_decimal_value(length);
    lemma_header_read_back("Content-Length"@, decimal(length));
    assert(lower("Host"@).len() != lower("content-length"@).len());
    assert(lower("Content-Type"@).len() != lower("content-length"@).len());
    assert(lower("Accept"@).len() != lower("content-length"@).len());
    let after1 = found.skip(1);
    let after2 = after1.skip(1);
    let after3 = after2.skip(1);
    let after4 = after3.skip(1);
    assert(found[0] == request_line(method, path));
    assert(after1[0] == header_line("Host"@, host));
    assert(after2[0] == header_line("Content-Type"@, "application/json"@));
    assert(after3[0] == header_line("Accept"@, "application/json"@));
    assert(after4[0] == header_line("Content-Length"@, decimal(length)));
    assert(length_in(after4) == Some(length));
    assert(length_in(after3) == Some(length));
    assert(length_in(after2) == Some(length));
    assert(length_in(after1) == Some(length));
}

/// The body of a request is read back, whatever part of it comes with the head: what is taken in
/// with the head and what comes `later` are the body, and its announced length.
pub proof fn request_bodies_are_read_back(
    method: Seq<char>,
    path: Seq<char>,
    host: Seq<char>,
    body: Seq<char>,
    initial: Seq<u8>,
    later: Seq<u8>,
    max: nat,
)
    requires
        is_request(method, path, host),
        encode_utf8(body).len() <= max,
        encode_utf8(body).len() <= usize::MAX,
        initial + later == encode_utf8(request_text(method, path, host, body)),
        initial.len() >= encode_utf8(
            request_head(method, path, host, encode_utf8(body).len()),
        ).len(),
    ensures
        body_target(initial, max) == encode_utf8(body).len(),
        body_start(initial, max) + later == encode_utf8(body),
        lossy_text(body_start(initial, max) + later) == body,
{
    let length = encode_utf8(body).len();
    let head = encode_utf8(request_head(method, path, host, length));
    let part = initial.skip(head.len() as int);
    let whole = initial + later;
    lemma_encode_concat(request_head(method, path, host, length), body);
    assert(whole == head + encode_utf8(body));
    assert(initial =~= head + part) by {
        assert forall|i: int| 0 <= i < head.len() implies initial[i] == head[i] by {
            assert(initial[i] == whole[i]);
        }
    }
    assert(part + later =~= encode_utf8(body)) by {
        assert((part + later).len() == length);
        assert forall|i: int| 0 <= i < length implies (part + later)[i] == encode_utf8(body)[i] by {
            assert((part + later)[i] == whole[head.len() + i]);
        }
    }
    lemma_request_length(method, path, host, length, part);
    lemma_request_lines(method, path, host, length);
    lemma_head_found(request_lines(method, path, host, length), part);
    lemma_lossy_text(body);
}

// From the command line to the bridge.

/// An authority that a URL can hold: no white space, no slash, and a host.
pub open spec fn is_authority(authority: Seq<char>) -> bool {
    &&& is_word(authority)
    &&& forall|i: int| 0 <= i < authority.len() ==> #[trigger] authority[i] != '/'
    &&& url_parts(authority).host.len() > 0
}

/// The host that an authority names.
pub open spec fn authority_host(authority: Seq<char>) -> Seq<char> {
    url_parts(authority).host
}

/// A path below a URL without a path is the path that is asked for.
proof fn lemma_url_below(authority: Seq<char>, path: Seq<char>)
    requires
        is_authority(authority),
        path.len() > 0,
        path[0] == '/',
    ensures
        http_url(url_of("http://"@ + authority, path)) == Ok::<HttpUrlView, Seq<char>>(
            HttpUrlView {
                host: authority_host(authority),
                port: url_parts(authority).port,
                path,
            },
        ),
{
    let base = "http://"@ + authority;
    assert(base.last() == authority[authority.len() - 1]);
    assert(trim_end_char(base, '/') == base);
    let url = base + path;
    let n = "http://"@.len() as int;
    let at = authority.len() as int;
    assert(url.take(n) =~= "http://"@);
    let rest = url.skip(n);
    assert(rest =~= authority + path);
    assert(rest[at] == path[0]);
    assert forall|k: int| 0 <= k < at implies rest[k] != '/' by {
        assert(rest[k] == authority[k]);
    }
    lemma_find_is(rest, '/', 0, at);
    lemma_find_is(authority, '/', 0, at);
    assert(rest.take(at) =~= authority);
    assert(authority.take(at) =~= authority);
    assert(rest.skip(at) =~= path);
}

proof fn lemma_authority_host(authority: Seq<char>)
    requires
        is_authority(authority),
    ensures
        is_word(authority_host(authority)),
        is_line(authority_host(authority)),
        trim(authority_host(authority)) == authority_host(authority),
{
    let host = authority_host(authority);
    lemma_find_is(authority, '/', 0, authority.len() as int);
    assert(authority.take(authority.len() as int) =~= authority);
    lemma_find_last(authority, ':');
    assert forall|k: int| 0 <= k < host.len() implies !is_white(#[trigger] host[k]) by {
        assert(host[k] == authority[k]);
    }
    lemma_word_is_line(host);
    lemma_trim_word(host);
}

proof fn lemma_bridge_words()
    ensures
        is_word("POST"@),
        is_word("GET"@),
        forall|i: int| 0 <= i < "POST"@.len() ==> #[trigger] "POST"@[i] != ':',
        forall|i: int| 0 <= i < "GET"@.len() ==> #[trigger] "GET"@[i] != ':',
        "POST"@ != "GET"@,
        "POST"@ != "HEAD"@,
{
    reveal_strlit("POST");
    reveal_strlit("GET");
    reveal_strlit("HEAD");
    assert("POST"@ =~= seq!['P', 'O', 'S', 'T']);
    assert("GET"@ =~= seq!['G', 'E', 'T']);
    assert("HEAD"@[0] == 'H');
}

proof fn lemma_bridge_paths()
    ensures
        is_word("/bridge/commands"@),
        "/bridge/commands"@[0] == '/',
        forall|i: int| 0 <= i < "/bridge/commands"@.len() ==> #[trigger] "/bridge/commands"@[i] != '?',
        begins_with("/bridge/commands"@, "/bridge/"@),
        "/bridge/commands"@ != "/bridge/client/session"@,
        "/bridge/commands"@ != "/client-log"@,
        is_word("/bridge/commands/result/"@),
        "/bridge/commands/result/"@[0] == '/',
        forall|i: int|
            0 <= i < "/bridge/commands/result/"@.len() ==> #[trigger] "/bridge/commands/result/"@[i]
                != '?',
        begins_with("/bridge/commands/result/"@, "/bridge/"@),
{
    reveal_strlit("/bridge/commands");
    reveal_strlit("/bridge/client/session");
    reveal_strlit("/client-log");
    reveal_strlit("/bridge/");
    reveal_strlit("/bridge/commands/result/");
    assert("/bridge/"@ =~= seq!['/', 'b', 'r', 'i', 'd', 'g', 'e', '/']);
    assert("/bridge/commands"@ =~= seq![
        '/', 'b', 'r', 'i', 'd', 'g', 'e', '/', 'c', 'o', 'm', 'm', 'a', 'n', 'd', 's',
    ]);
    assert("/bridge/commands/result/"@ =~= seq![
        '/', 'b', 'r', 'i', 'd', 'g', 'e', '/', 'c', 'o', 'm', 'm', 'a', 'n', 'd', 's', '/', 'r',
        'e', 's', 'u', 'l', 't', '/',
    ]);
    assert("/bridge/commands"@.take(8) =~= "/bridge/"@);
    assert("/bridge/commands/result/"@.take(8) =~= "/bridge/"@);
    assert("/bridge/client/session"@[9] == 'l');
    assert("/client-log"@[1] == 'c');
}

/// What a command line sends to hand a command over reaches the queue of the bridge at its URL,
/// whatever part of the command comes with the head.
pub proof fn commands_reach_the_bridge(
    authority: Seq<char>,
    payload: Seq<char>,
    part: Seq<char>,
    rest: Seq<char>,
)
    requires
        is_authority(authority),
        payload == part + rest,
    ensures
        ({
            let job = PhoneJobView {
                url: "http://"@ + authority,
                payload,
                stage: PhoneStageView::Enqueue,
            };
            let sent = job_request(job)->Ok_0;
            let head = request_head(
                "POST"@,
                "/bridge/commands"@,
                authority_host(authority),
                encode_utf8(payload).len(),
            );
            let initial = encode_utf8(head + part);
            &&& job_request(job) is Ok
            &&& sent.host == authority_host(authority)
            &&& sent.text == head + part + rest
            &&& web_route(request_method(initial), request_route(initial)) == WebRouteView::Bridge(
                BridgeRouteView::Enqueue,
            )
        }),
{
    let host = authority_host(authority);
    let path = "/bridge/commands"@;
    let length = encode_utf8(payload).len();
    let head = request_head("POST"@, path, host, length);
    lemma_bridge_words();
    lemma_bridge_paths();
    lemma_url_below(authority, path);
    lemma_authority_host(authority);
    requests_reach_their_path("POST"@, path, host, length, part);
    lemma_find_is(path, '?', 0, path.len() as int);
    assert(path.take(path.len() as int) =~= path);
    assert(head + payload =~= head + part + rest);
}

/// What a command line sends to ask for a result reaches the result of the command with that id.
pub proof fn polls_reach_their_result(authority: Seq<char>, payload: Seq<char>, number: nat)
    requires
        is_authority(authority),
    ensures
        ({
            let job = PhoneJobView {
                url: "http://"@ + authority,
                payload,
                stage: PhoneStageView::Poll(decimal(number)),
            };
            let initial = encode_utf8(job_request(job)->Ok_0.text);
            &&& job_request(job) is Ok
            &&& web_route(request_method(initial), request_route(initial)) == WebRouteView::Bridge(
                BridgeRouteView::GetResult(decimal(number)),
            )
        }),
{
    let host = authority_host(authority);
    let id = decimal(number);
    let prefix = "/bridge/commands/result/"@;
    let path = prefix + id;
    let none = Seq::<char>::empty();
    lemma_bridge_words();
    lemma_bridge_paths();
    lemma_decimal_is_word(number);
    lemma_decimal_value(number);
    assert(path[0] == prefix[0]);
    assert forall|k: int| 0 <= k < path.len() implies !is_white(#[trigger] path[k]) by {
        if k < prefix.len() {
            assert(path[k] == prefix[k]);
        } else {
            assert(path[k] == id[k - prefix.len()]);
        }
    }
    assert forall|k: int| 0 <= k < path.len() implies path[k] != '?' by {
        if k < prefix.len() {
            assert(path[k] == prefix[k]);
        } else {
            assert(is_digit(id[k - prefix.len()]));
        }
    }
    lemma_url_below(authority, path);
    lemma_authority_host(authority);
    requests_reach_their_path("GET"@, path, host, encode_utf8(none).len(), none);
    lemma_find_is(path, '?', 0, path.len() as int);
    assert(path.take(path.len() as int) =~= path);
    paths_lead_to_their_command(number, none, 0);
    reveal_strlit("/bridge/");
    assert(path.take(8) =~= prefix.take(8));
}

/// A command line that reaches the bridge by the address of this machine may send files.
pub proof fn local_urls_may_send_files(
    authority: Seq<char>,
    length: nat,
    rest: Seq<u8>,
    request: CommandRequestView,
)
    requires
        is_authority(authority),
        is_local(Some(authority_host(authority))),
    ensures
        is_admitted(
            encode_utf8(
                request_head("POST"@, "/bridge/commands"@, authority_host(authority), length),
            ) + rest,
            request,
        ),
{
    lemma_bridge_words();
    lemma_bridge_paths();
    lemma_authority_host(authority);
    requests_name_their_host(
        "POST"@,
        "/bridge/commands"@,
        authority_host(authority),
        length,
        rest,
    );
}

// Headers that tell of a message.

/// A header is found by its name, and no other name finds it.
proof fn lemma_found_by_name(line: Seq<char>, written: Seq<char>, value: Seq<char>, name: Seq<char>)
    requires
        line == header_line(written, value),
        !written.contains(':'),
        trim(value) == value,
    ensures
        is_header(line, name) <==> lower(written) == lower(name),
        header_content(line) == value,
{
    reveal_strlit(": ");
    assert(line =~= written + seq![':'] + (seq![' '] + value));
    headers_are_names_and_contents(written, seq![' '] + value, name, Seq::empty());
    lemma_trim_after_blank(value);
}

/// A line whose first word ends before any colon is no header.
proof fn lemma_words_are_no_header(word: Seq<char>, rest: Seq<char>, name: Seq<char>)
    requires
        !word.contains(':'),
        !name.contains(' '),
    ensures
        !is_header(word + seq![' '] + rest, name),
{
    let line = word + seq![' '] + rest;
    let at = word.len() as int;
    let colon = find(line, ':');
    lemma_find(line, ':', 0);
    assert(line[at] == ' ');
    if is_header(line, name) {
        if colon <= at {
            if colon < at {
                assert(line[colon] == word[colon]);
                assert(word.contains(word[colon]));
            }
            assert(false);
        }
        assert(lower(line.take(colon)).len() == colon && lower(name).len() == name.len());
        assert(lower(line.take(colon))[at] == lower_char(' '));
        assert(lower(name)[at] == lower_char(name[at]));
        assert(name[at] == ' ');
        assert(name.contains(name[at]));
    }
}

/// The names of the headers, as they are written and as they are asked for.
proof fn lemma_told_names()
    ensures
        "Host"@.len() == 4 && !"Host"@.contains(':'),
        "Content-Type"@.len() == 12 && !"Content-Type"@.contains(':'),
        "Accept"@.len() == 6 && !"Accept"@.contains(':'),
        "Content-Length"@.len() == 14 && !"Content-Length"@.contains(':'),
        "Cache-Control"@.len() == 13 && !"Cache-Control"@.contains(':'),
        "Connection"@.len() == 10 && !"Connection"@.contains(':'),
        "content-type"@.len() == 12 && !"content-type"@.contains(' '),
        "accept"@.len() == 6 && !"accept"@.contains(' '),
        "content-length"@.len() == 14 && !"content-length"@.contains(' '),
        "cache-control"@.len() == 13 && !"cache-control"@.contains(' '),
        "connection"@.len() == 10 && !"connection"@.contains(' '),
        lower("Content-Type"@) == lower("content-type"@),
        lower("Accept"@) == lower("accept"@),
        lower("Content-Length"@) == lower("content-length"@),
        lower("Cache-Control"@) == lower("cache-control"@),
        lower("Connection"@) == lower("connection"@),
        header_line("Cache-Control"@, "no-store"@) == "Cache-Control: no-store"@,
        header_line("Connection"@, "close"@) == "Connection: close"@,
        trim("no-store"@) == "no-store"@,
        trim("close"@) == "close"@,
        trim("application/json"@) == "application/json"@,
{
    reveal_strlit("Host");
    reveal_strlit("Content-Type");
    reveal_strlit("Accept");
    reveal_strlit("Content-Length");
    reveal_strlit("Cache-Control");
    reveal_strlit("Connection");
    reveal_strlit("content-type");
    reveal_strlit("accept");
    reveal_strlit("content-length");
    reveal_strlit("cache-control");
    reveal_strlit("connection");
    reveal_strlit(": ");
    reveal_strlit("no-store");
    reveal_strlit("close");
    reveal_strlit("application/json");
    reveal_strlit("Cache-Control: no-store");
    reveal_strlit("Connection: close");
    assert("Host"@ =~= seq!['H', 'o', 's', 't']);
    assert("Content-Type"@ =~= seq!['C', 'o', 'n', 't', 'e', 'n', 't', '-', 'T', 'y', 'p', 'e']);
    assert("content-type"@ =~= seq!['c', 'o', 'n', 't', 'e', 'n', 't', '-', 't', 'y', 'p', 'e']);
    assert("Accept"@ =~= seq!['A', 'c', 'c', 'e', 'p', 't']);
    assert("accept"@ =~= seq!['a', 'c', 'c', 'e', 'p', 't']);
    lemma_content_length_name();
    assert("content-length"@ =~= seq![
        'c', 'o', 'n', 't', 'e', 'n', 't', '-', 'l', 'e', 'n', 'g', 't', 'h',
    ]);
    assert("Cache-Control"@ =~= seq![
        'C', 'a', 'c', 'h', 'e', '-', 'C', 'o', 'n', 't', 'r', 'o', 'l',
    ]);
    assert("cache-control"@ =~= seq![
        'c', 'a', 'c', 'h', 'e', '-', 'c', 'o', 'n', 't', 'r', 'o', 'l',
    ]);
    assert("Connection"@ =~= seq!['C', 'o', 'n', 'n', 'e', 'c', 't', 'i', 'o', 'n']);
    assert("connection"@ =~= seq!['c', 'o', 'n', 'n', 'e', 'c', 't', 'i', 'o', 'n']);
    assert(lower_char('C') == 'c' && lower_char('T') == 't' && lower_char('A') == 'a');
    assert(lower("Content-Type"@) =~= lower("content-type"@));
    assert(lower("Accept"@) =~= lower("accept"@));
    assert(lower("Cache-Control"@) =~= lower("cache-control"@));
    assert(lower("Connection"@) =~= lower("connection"@));
    assert(header_line("Cache-Control"@, "no-store"@) =~= "Cache-Control: no-store"@);
    assert(header_line("Connection"@, "close"@) =~= "Connection: close"@);
    assert(!is_white("no-store"@[0]) && !is_white("no-store"@[7]));
    assert(!is_white("close"@[0]) && !is_white("close"@[4]));
    assert(!is_white("application/json"@[0]) && !is_white("application/json"@[15]));
}

proof fn lemma_type_is_trimmed(content_type: ContentType)
    ensures
        trim(content_type.text_view()) == content_type.text_view(),
{
    let text = content_type.text_view();
    reveal_strlit("text/html; charset=utf-8");
    reveal_strlit("text/javascript; charset=utf-8");
    reveal_strlit("text/css; charset=utf-8");
    reveal_strlit("text/plain; charset=utf-8");
    reveal_strlit("application/json; charset=utf-8");
    reveal_strlit("application/vnd.android.package-archive");
    assert(!is_white(text[0]) && !is_white(text[text.len() - 1]));
}

/// A response tells the type and the length of what it holds, in bytes, also where only its head
/// is sent. It says that it is not to be stored, and that nothing follows it.
pub proof fn responses_tell_what_they_hold(response: HttpResponseView)
    ensures
        ({
            let sent = encode_utf8(response_text(response));
            &&& header_value(sent, "content-type"@) == Some(response.content_type.text_view())
            &&& header_value(sent, "content-length"@) == Some(
                decimal(encode_utf8(response.body).len()),
            )
            &&& header_value(sent, "cache-control"@) == Some("no-store"@)
            &&& header_value(sent, "connection"@) == Some("close"@)
        }),
{
    let length = encode_utf8(response.body).len();
    let all = response_lines(response.status, response.content_type, length);
    let head = response_head(response.status, response.content_type, length);
    let sent = if response.headers_only {
        Seq::<char>::empty()
    } else {
        response.body
    };
    let found = all.push(Seq::empty());
    let kind = response.content_type.text_view();
    let digits = decimal(length);
    lemma_response_lines(response.status, response.content_type, length);
    lemma_head_found(all, encode_utf8(sent));
    lemma_encode_concat(head, sent);
    assert(response_text(response) =~= head + sent);
    lemma_told_names();
    lemma_type_is_trimmed(response.content_type);
    lemma_decimal_is_word(length);
    lemma_trim_word(digits);
    lemma_version_word();
    reveal_strlit("HTTP/1.1");
    assert("HTTP/1.1"@ =~= seq!['H', 'T', 'T', 'P', '/', '1', '.', '1']);
    let told = decimal(response.status.code_view()) + " "@ + response.status.reason_view();
    let names = seq!["content-type"@, "content-length"@, "cache-control"@, "connection"@];
    assert forall|i: int| 0 <= i < 4 implies header_in(found, #[trigger] names[i]) == Some(
        header_content(found[i + 1]),
    ) by {
        let name = names[i];
        assert(lower(name).len() == name.len());
        assert(lower("Content-Type"@).len() == 12);
        assert(lower("Content-Length"@).len() == 14);
        assert(lower("Cache-Control"@).len() == 13);
        assert(lower("Connection"@).len() == 10);
        lemma_words_are_no_header("HTTP/1.1"@, told, name);
        lemma_found_by_name(found[1], "Content-Type"@, kind, name);
        lemma_found_by_name(found[2], "Content-Length"@, digits, name);
        lemma_found_by_name(found[3], "Cache-Control"@, "no-store"@, name);
        lemma_found_by_name(found[4], "Connection"@, "close"@, name);
        assert(found[0] == "HTTP/1.1"@ + seq![' '] + told);
        the_first_header_counts(found, name, i + 1);
    }
    lemma_found_by_name(found[1], "Content-Type"@, kind, "content-type"@);
    lemma_found_by_name(found[2], "Content-Length"@, digits, "content-length"@);
    lemma_found_by_name(found[3], "Cache-Control"@, "no-store"@, "cache-control"@);
    lemma_found_by_name(found[4], "Connection"@, "close"@, "connection"@);
    assert(names[0] == "content-type"@ && names[1] == "content-length"@);
    assert(names[2] == "cache-control"@ && names[3] == "connection"@);
}

/// A request tells that it holds JSON and asks for JSON, how long its body is, and that nothing
/// follows it.
pub proof fn requests_tell_what_they_hold(
    method: Seq<char>,
    path: Seq<char>,
    host: Seq<char>,
    length: nat,
    rest: Seq<u8>,
)
    requires
        is_request(method, path, host),
        trim(host) == host,
    ensures
        ({
            let sent = encode_utf8(request_head(method, path, host, length)) + rest;
            &&& header_value(sent, "content-type"@) == Some("application/json"@)
            &&& header_value(sent, "accept"@) == Some("application/json"@)
            &&& header_value(sent, "content-length"@) == Some(decimal(length))
            &&& header_value(sent, "connection"@) == Some("close"@)
        }),
{
    let all = request_lines(method, path, host, length);
    let found = all.push(Seq::empty());
    let digits = decimal(length);
    let json = "application/json"@;
    lemma_request_lines(method, path, host, length);
    lemma_head_found(all, rest);
    lemma_told_names();
    lemma_decimal_is_word(length);
    lemma_trim_word(digits);
    lemma_version_word();
    assert(!method.contains(':'));
    let told = path + " "@ + "HTTP/1.1"@;
    let names = seq!["content-type"@, "accept"@, "content-length"@, "connection"@];
    assert forall|i: int| 0 <= i < 4 implies header_in(found, #[trigger] names[i]) == Some(
        header_content(found[i + 2]),
    ) by {
        let name = names[i];
        assert(lower(name).len() == name.len());
        assert(lower("Host"@).len() == 4);
        assert(lower("Content-Type"@).len() == 12);
        assert(lower("Accept"@).len() == 6);
        assert(lower("Content-Length"@).len() == 14);
        assert(lower("Connection"@).len() == 10);
        lemma_words_are_no_header(method, told, name);
        lemma_found_by_name(found[1], "Host"@, host, name);
        lemma_found_by_name(found[2], "Content-Type"@, json, name);
        lemma_found_by_name(found[3], "Accept"@, json, name);
        lemma_found_by_name(found[4], "Content-Length"@, digits, name);
        lemma_found_by_name(found[5], "Connection"@, "close"@, name);
        assert(found[0] == method + seq![' '] + told);
        the_first_header_counts(found, name, i + 2);
    }
    lemma_found_by_name(found[2], "Content-Type"@, json, "content-type"@);
    lemma_found_by_name(found[3], "Accept"@, json, "accept"@);
    lemma_found_by_name(found[4], "Content-Length"@, digits, "content-length"@);
    lemma_found_by_name(found[5], "Connection"@, "close"@, "connection"@);
    assert(names[0] == "content-type"@ && names[1] == "accept"@);
    assert(names[2] == "content-length"@ && names[3] == "connection"@);
}

} // verus!
