//! HTTP as the browser bridge speaks it: heads and bodies of requests and responses, and the
//! URLs that lead to them.
use crate::decimal::{
    decimal, decimal_exec, is_digit, lemma_decimal_value, parse_u16, parse_usize, u16_error,
    unsigned_value,
};
use crate::scan::{line_bounds, lines, lower, same_lower, trim, trim_between, word_bounds, words};
use crate::text::{
    begins_with, chars_of, concat3, find, find_from_exec, find_last, find_last_exec, has_char,
    has_prefix, lemma_find, lemma_find_is, lemma_find_last, lossy_string, lossy_text, same_text, text_between,
};
use vstd::prelude::*;
use vstd::slice::slice_subrange;
use vstd::utf8::encode_utf8;

verus! {

pub const DEFAULT_WEB_BIND_HOST: &'static str = "127.0.0.1";

pub const DEFAULT_WEB_PORT: u16 = 8080;

// Heads.

/// Whether two line ends follow each other at position `i`, as they do at the end of a head.
pub open spec fn blank_at(bytes: Seq<u8>, i: int) -> bool {
    &&& 0 <= i && i + 4 <= bytes.len()
    &&& bytes[i] == 13 && bytes[i + 1] == 10 && bytes[i + 2] == 13 && bytes[i + 3] == 10
}

/// Where the first head ends of those that end at or after `from`.
pub open spec fn head_end_from(bytes: Seq<u8>, from: int) -> Option<int>
    decreases bytes.len() - from,
{
    if from < 0 || from + 4 > bytes.len() {
        None
    } else if blank_at(bytes, from) {
        Some(from + 4)
    } else {
        head_end_from(bytes, from + 1)
    }
}

/// Where the head ends that `bytes` begin with, its empty line included.
pub open spec fn head_end(bytes: Seq<u8>) -> Option<int> {
    head_end_from(bytes, 0)
}

/// The length of the head that `bytes` begin with: all of them where its end is not among them.
pub open spec fn head_len(bytes: Seq<u8>) -> int {
    match head_end(bytes) {
        Some(end) => end,
        None => bytes.len() as int,
    }
}

pub proof fn lemma_head_end(bytes: Seq<u8>, from: int)
    requires
        0 <= from,
    ensures
        match head_end_from(bytes, from) {
            Some(end) => {
                &&& from + 4 <= end <= bytes.len()
                &&& blank_at(bytes, end - 4)
                &&& forall|k: int| from <= k < end - 4 ==> !blank_at(bytes, k)
            },
            None => forall|k: int| from <= k ==> !blank_at(bytes, k),
        },
    decreases bytes.len() - from,
{
    if from + 4 <= bytes.len() && !blank_at(bytes, from) {
        lemma_head_end(bytes, from + 1);
    }
}

/// The head ends with the first empty line.
pub proof fn lemma_head_end_is(bytes: Seq<u8>, at: int)
    requires
        blank_at(bytes, at),
        forall|k: int| 0 <= k < at ==> !blank_at(bytes, k),
    ensures
        head_end(bytes) == Some(at + 4),
{
    lemma_head_end(bytes, 0);
}

fn head_end_exec(bytes: &[u8]) -> (end: Option<usize>)
    ensures
        match end {
            Some(end) => head_end(bytes@) == Some(end as int) && 4 <= end <= bytes@.len(),
            None => head_end(bytes@) is None,
        },
{
    let mut i: usize = 0;
    while i < bytes.len() && bytes.len() - i >= 4
        invariant
            i <= bytes@.len(),
            head_end(bytes@) == head_end_from(bytes@, i as int),
        decreases bytes@.len() - i,
    {
        if bytes[i] == 13 && bytes[i + 1] == 10 && bytes[i + 2] == 13 && bytes[i + 3] == 10 {
            return Some(i + 4);
        }
        i = i + 1;
    }
    None
}

fn head_len_exec(bytes: &[u8]) -> (len: usize)
    ensures
        len == head_len(bytes@),
        len <= bytes@.len(),
{
    match head_end_exec(bytes) {
        Some(end) => end,
        None => bytes.len(),
    }
}

/// The lines of the head that `bytes` begin with.
pub open spec fn head_lines(bytes: Seq<u8>) -> Seq<Seq<char>> {
    lines(lossy_text(bytes.take(head_len(bytes))))
}

/// The name of a header line, if it has a colon.
pub open spec fn is_header(line: Seq<char>, name: Seq<char>) -> bool {
    find(line, ':') < line.len() && lower(line.take(find(line, ':'))) == lower(name)
}

/// What follows the colon of a header line, without blanks around it.
pub open spec fn header_content(line: Seq<char>) -> Seq<char> {
    trim(line.skip(find(line, ':') + 1))
}

/// The content of the first of `lines` that is a header of the given name.
pub open spec fn header_in(lines: Seq<Seq<char>>, name: Seq<char>) -> Option<Seq<char>>
    decreases lines.len(),
{
    if lines.len() == 0 {
        None
    } else if is_header(lines[0], name) {
        Some(header_content(lines[0]))
    } else {
        header_in(lines.skip(1), name)
    }
}

/// The content of the header of the given name, upper and lower case of ASCII being the same.
pub open spec fn header_value(initial: Seq<u8>, name: Seq<char>) -> Option<Seq<char>> {
    header_in(head_lines(initial), name)
}

/// The length that a line announces: it must be a header for it, and hold a number that fits.
pub open spec fn announced_length(line: Seq<char>) -> Option<nat> {
    if is_header(line, "content-length"@) {
        match unsigned_value(header_content(line)) {
            Some(length) if length <= usize::MAX => Some(length),
            _ => None,
        }
    } else {
        None
    }
}

/// The length that the first line announces which announces one.
pub open spec fn length_in(lines: Seq<Seq<char>>) -> Option<nat>
    decreases lines.len(),
{
    if lines.len() == 0 {
        None
    } else if announced_length(lines[0]) is Some {
        announced_length(lines[0])
    } else {
        length_in(lines.skip(1))
    }
}

/// The length that the head announces for the body, or zero.
pub open spec fn content_length(initial: Seq<u8>) -> nat {
    match length_in(head_lines(initial)) {
        Some(length) => length,
        None => 0,
    }
}

/// The position of the colon, if the line between two positions is a header of the given name.
fn header_at(chars: &Vec<char>, from: usize, to: usize, name: &Vec<char>) -> (colon: Option<usize>)
    requires
        from <= to <= chars@.len(),
    ensures
        match colon {
            Some(colon) => {
                &&& is_header(chars@.subrange(from as int, to as int), name@)
                &&& from <= colon < to
                &&& colon - from == find(chars@.subrange(from as int, to as int), ':')
            },
            None => !is_header(chars@.subrange(from as int, to as int), name@),
        },
{
    let ghost line = chars@.subrange(from as int, to as int);
    let colon = find_from_exec(chars, ':', from);
    proof {
        lemma_find(chars@, ':', from as int);
    }
    if colon >= to {
        proof {
            lemma_find_is(line, ':', 0, to - from);
        }
        return None;
    }
    proof {
        lemma_find_is(line, ':', 0, colon - from);
        assert(line.take(colon - from) =~= chars@.subrange(from as int, colon as int));
    }
    if same_lower(chars, from, colon, name) {
        Some(colon)
    } else {
        None
    }
}

/// The content of a header line whose colon is known.
fn header_content_exec(chars: &Vec<char>, from: usize, colon: usize, to: usize) -> (content: String)
    requires
        from <= colon < to <= chars@.len(),
        colon - from == find(chars@.subrange(from as int, to as int), ':'),
    ensures
        content@ == header_content(chars@.subrange(from as int, to as int)),
{
    let (lo, hi) = trim_between(chars, colon + 1, to);
    assert(chars@.subrange(from as int, to as int).skip(colon - from + 1) =~= chars@.subrange(
        colon + 1,
        to as int,
    ));
    text_between(chars, lo, hi)
}

/// The characters of the head that `initial` begins with.
fn head_chars(initial: &[u8]) -> (chars: Vec<char>)
    ensures
        chars@ == lossy_text(initial@.take(head_len(initial@))),
{
    let end = head_len_exec(initial);
    let head = slice_subrange(initial, 0, end);
    assert(head@ =~= initial@.take(end as int));
    chars_of(lossy_string(head).as_str())
}

pub fn http_header_value(initial: &[u8], header_name: &str) -> (value: Option<String>)
    ensures
        match value {
            Some(value) => header_value(initial@, header_name@) == Some(value@),
            None => header_value(initial@, header_name@) is None,
        },
{
    let chars = head_chars(initial);
    let name = chars_of(header_name);
    let bounds = line_bounds(&chars);
    let ghost all = lines(chars@);
    assert(all.skip(0) =~= all);
    for i in 0..bounds.len()
        invariant
            all == lines(chars@),
            all == head_lines(initial@),
            name@ == header_name@,
            bounds@.len() == all.len(),
            forall|k: int|
                0 <= k < bounds@.len() ==> (#[trigger] bounds@[k]).0 <= bounds@[k].1
                    <= chars@.len() && chars@.subrange(bounds@[k].0 as int, bounds@[k].1 as int)
                    == all[k],
            header_in(all, name@) == header_in(all.skip(i as int), name@),
    {
        let (from, to) = bounds[i];
        assert(chars@.subrange(from as int, to as int) == all[i as int]);
        assert(all.skip(i as int)[0] == all[i as int]);
        assert(all.skip(i as int).skip(1) =~= all.skip(i + 1));
        if let Some(colon) = header_at(&chars, from, to, &name) {
            return Some(header_content_exec(&chars, from, colon, to));
        }
    }
    None
}

/// The length that the head announces for the body, or zero.
pub fn content_length_exec(initial: &[u8]) -> (length: usize)
    ensures
        length == content_length(initial@),
{
    let chars = head_chars(initial);
    let name = chars_of("content-length");
    let bounds = line_bounds(&chars);
    let ghost all = lines(chars@);
    assert(all.skip(0) =~= all);
    for i in 0..bounds.len()
        invariant
            all == lines(chars@),
            all == head_lines(initial@),
            name@ == "content-length"@,
            bounds@.len() == all.len(),
            forall|k: int|
                0 <= k < bounds@.len() ==> (#[trigger] bounds@[k]).0 <= bounds@[k].1
                    <= chars@.len() && chars@.subrange(bounds@[k].0 as int, bounds@[k].1 as int)
                    == all[k],
            length_in(all) == length_in(all.skip(i as int)),
    {
        let (from, to) = bounds[i];
        assert(chars@.subrange(from as int, to as int) == all[i as int]);
        assert(all.skip(i as int)[0] == all[i as int]);
        assert(all.skip(i as int).skip(1) =~= all.skip(i + 1));
        if let Some(colon) = header_at(&chars, from, to, &name) {
            let content = header_content_exec(&chars, from, colon, to);
            if let Ok(length) = parse_usize(content.as_str()) {
                return length;
            }
        }
    }
    0
}

// Bodies.

/// How many bytes of a body are read, at most `max` of them.
pub open spec fn body_target(initial: Seq<u8>, max: nat) -> nat {
    if content_length(initial) <= max {
        content_length(initial)
    } else {
        max
    }
}

/// The part of a body that came with the head.
pub open spec fn body_start(initial: Seq<u8>, max: nat) -> Seq<u8> {
    let rest = initial.skip(head_len(initial));
    if rest.len() <= body_target(initial, max) {
        rest
    } else {
        rest.take(body_target(initial, max) as int)
    }
}

/// A body that is being read.
pub struct BodyReader {
    pub target: usize,
    pub body: Vec<u8>,
}

impl BodyReader {
    /// No more is read than was announced.
    pub open spec fn wf(&self) -> bool {
        self.body@.len() <= self.target
    }

    /// All that was announced is there.
    pub open spec fn is_complete(&self) -> bool {
        self.body@.len() == self.target
    }

    /// Begins with the bytes that came with the head.
    pub fn new(initial: &[u8], max: usize) -> (reader: BodyReader)
        ensures
            reader.wf(),
            reader.target == body_target(initial@, max as nat),
            reader.body@ == body_start(initial@, max as nat),
    {
        let length = content_length_exec(initial);
        let target = if length <= max {
            length
        } else {
            max
        };
        let start = head_len_exec(initial);
        let end = if initial.len() - start <= target {
            initial.len()
        } else {
            start + target
        };
        let mut reader = BodyReader { target, body: Vec::new() };
        let part = slice_subrange(initial, start, end);
        reader.body.extend_from_slice(part);
        assert(reader.body@ =~= body_start(initial@, max as nat));
        reader
    }

    /// How many bytes to ask for next: none where the body is complete.
    pub fn wanted(&self) -> (count: usize)
        requires
            self.wf(),
        ensures
            count <= self.target - self.body@.len(),
            count == (if self.target - self.body@.len() <= 4096 {
                self.target - self.body@.len()
            } else {
                4096
            }),
            count == 0 <==> self.is_complete(),
    {
        let remaining = self.target - self.body.len();
        if remaining <= 4096 {
            remaining
        } else {
            4096
        }
    }

    /// Takes in bytes that were read.
    pub fn feed(&mut self, chunk: &[u8])
        requires
            old(self).wf(),
            chunk@.len() <= old(self).target - old(self).body@.len(),
        ensures
            final(self).wf(),
            final(self).target == old(self).target,
            final(self).body@ == old(self).body@ + chunk@,
    {
        self.body.extend_from_slice(chunk);
        assert(self.body@ =~= old(self).body@ + chunk@);
    }

    /// The text of what was read.
    pub fn finish(&self) -> (text: String)
        ensures
            text@ == lossy_text(self.body@),
    {
        lossy_string(self.body.as_slice())
    }
}

/// `readers` are the states that a reader goes through while `chunks` are fed to it one after the
/// other, none of them longer than what is still missing.
pub open spec fn is_fed(readers: Seq<BodyReader>, chunks: Seq<Seq<u8>>) -> bool {
    &&& readers.len() == chunks.len() + 1
    &&& forall|i: int|
        #![trigger chunks[i]]
        0 <= i < chunks.len() ==> {
            &&& chunks[i].len() <= readers[i].target - readers[i].body@.len()
            &&& readers[i + 1].target == readers[i].target
            &&& readers[i + 1].body@ == readers[i].body@ + chunks[i]
        }
}

/// However a body comes in, it is what came with the head and then all that was fed, in its order.
/// It never grows beyond what was announced, and it is complete exactly when it is so long.
pub proof fn bodies_are_put_together(
    initial: Seq<u8>,
    max: nat,
    readers: Seq<BodyReader>,
    chunks: Seq<Seq<u8>>,
)
    requires
        is_fed(readers, chunks),
        readers[0].target == body_target(initial, max),
        readers[0].body@ == body_start(initial, max),
    ensures
        readers.last().body@ == body_start(initial, max) + chunks.flatten(),
        readers.last().target == body_target(initial, max),
        readers.last().wf(),
        readers.last().is_complete() <==> (body_start(initial, max) + chunks.flatten()).len()
            == body_target(initial, max),
    decreases chunks.len(),
{
    if chunks.len() == 0 {
        assert(body_start(initial, max) + chunks.flatten() =~= body_start(initial, max));
    } else {
        let n = chunks.len() - 1;
        let before = chunks.drop_last();
        assert forall|i: int| #![trigger before[i]] 0 <= i < before.len() implies {
            &&& before[i].len() <= readers.drop_last()[i].target - readers.drop_last()[i].body@.len()
            &&& readers.drop_last()[i + 1].target == readers.drop_last()[i].target
            &&& readers.drop_last()[i + 1].body@ == readers.drop_last()[i].body@ + before[i]
        } by {
            assert(before[i] == chunks[i]);
        }
        bodies_are_put_together(initial, max, readers.drop_last(), before);
        assert(readers.drop_last().last() == readers[n]);
        assert(before.push(chunks[n]) =~= chunks);
        before.lemma_flatten_push(chunks[n]);
        assert(body_start(initial, max) + before.flatten() + chunks[n] =~= body_start(initial, max)
            + chunks.flatten());
    }
}

// Requests.

/// The words of the first line of a request.
pub open spec fn request_words(initial: Seq<u8>) -> Seq<Seq<char>> {
    let text = lossy_text(initial);
    if lines(text).len() == 0 {
        Seq::empty()
    } else {
        words(lines(text)[0])
    }
}

/// The method of a request, or nothing.
pub open spec fn request_method(initial: Seq<u8>) -> Seq<char> {
    if request_words(initial).len() > 0 {
        request_words(initial)[0]
    } else {
        Seq::empty()
    }
}

/// What a request is for, with its query: the root where it says nothing.
pub open spec fn request_path(initial: Seq<u8>) -> Seq<char> {
    if request_words(initial).len() > 1 {
        request_words(initial)[1]
    } else {
        "/"@
    }
}

/// What a request is for, without its query.
pub open spec fn request_route(initial: Seq<u8>) -> Seq<char> {
    request_path(initial).take(find(request_path(initial), '?'))
}

/// The method of a request, and what it is for.
pub struct WebRequest {
    pub method: String,
    pub route_path: String,
}

pub fn read_web_request(initial: &[u8]) -> (request: WebRequest)
    ensures
        request.method@ == request_method(initial@),
        request.route_path@ == request_route(initial@),
{
    let chars = chars_of(lossy_string(initial).as_str());
    let bounds = line_bounds(&chars);
    let mut method = String::new();
    let mut path = "/".to_string();
    if bounds.len() > 0 {
        let (from, to) = bounds[0];
        let found = word_bounds(&chars, from, to);
        if found.len() > 0 {
            let (a, b) = found[0];
            method = text_between(&chars, a, b);
        }
        if found.len() > 1 {
            let (a, b) = found[1];
            path = text_between(&chars, a, b);
        }
    }
    assert(method@ =~= request_method(initial@));
    let path_chars = chars_of(path.as_str());
    let end = find_from_exec(&path_chars, '?', 0);
    assert(path_chars@.take(end as int) =~= path_chars@.subrange(0, end as int));
    WebRequest { method, route_path: text_between(&path_chars, 0, end) }
}

/// The host without its port: what stands in brackets, or what stands before the first colon.
pub open spec fn host_name(host: Seq<char>) -> Seq<char> {
    if host.len() > 0 && host[0] == '[' && find(host.skip(1), ']') < host.skip(1).len() {
        host.skip(1).take(find(host.skip(1), ']'))
    } else {
        host.take(find(host, ':'))
    }
}

/// Whether a host is this machine.
pub open spec fn is_local(host: Option<Seq<char>>) -> bool {
    match host {
        Some(host) => {
            let name = host_name(host);
            name == "127.0.0.1"@ || name == "localhost"@ || name == "::1"@
        },
        None => false,
    }
}

pub fn is_local_http_host(host: Option<&str>) -> (local: bool)
    ensures
        local == is_local(crate::adb::opt_str(host)),
{
    let host = match host {
        Some(host) => host,
        None => {
            return false;
        },
    };
    let chars = chars_of(host);
    let mut name: Option<String> = None;
    if chars.len() > 0 && chars[0] == '[' {
        let end = find_from_exec(&chars, ']', 1);
        proof {
            lemma_find(chars@, ']', 1);
            lemma_find_is(chars@.skip(1), ']', 0, end - 1);
        }
        if end < chars.len() {
            assert(chars@.skip(1).take(end - 1) =~= chars@.subrange(1, end as int));
            name = Some(text_between(&chars, 1, end));
        }
    }
    let name = match name {
        Some(name) => name,
        None => {
            let end = find_from_exec(&chars, ':', 0);
            assert(chars@.take(end as int) =~= chars@.subrange(0, end as int));
            text_between(&chars, 0, end)
        },
    };
    same_text(name.as_str(), "127.0.0.1") || same_text(name.as_str(), "localhost") || same_text(
        name.as_str(),
        "::1",
    )
}

// URLs.

/// What the library reads out of the URL of a bridge.
#[derive(Debug)]
pub struct ParsedHttpUrl {
    pub host: String,
    pub port: u16,
    pub path: String,
}

pub struct HttpUrlView {
    pub host: Seq<char>,
    pub port: int,
    pub path: Seq<char>,
}

impl View for ParsedHttpUrl {
    type V = HttpUrlView;

    open spec fn view(&self) -> HttpUrlView {
        HttpUrlView { host: self.host@, port: self.port as int, path: self.path@ }
    }
}

/// The port that `text` names, or the usual one.
pub open spec fn port_or_default(text: Seq<char>) -> int {
    match unsigned_value(text) {
        Some(port) if port <= u16::MAX => port as int,
        _ => DEFAULT_WEB_PORT as int,
    }
}

/// The parts of the URL that stand after its scheme: the host up to the last colon before the
/// first slash, the port after that colon, and the path from the first slash on.
pub open spec fn url_parts(rest: Seq<char>) -> HttpUrlView {
    let slash = find(rest, '/');
    let authority = rest.take(slash);
    let colon = find_last(authority, ':');
    HttpUrlView {
        host: if colon < 0 {
            authority
        } else {
            authority.take(colon)
        },
        port: if colon < 0 {
            DEFAULT_WEB_PORT as int
        } else {
            port_or_default(authority.skip(colon + 1))
        },
        path: if slash == rest.len() {
            "/"@
        } else {
            rest.skip(slash)
        },
    }
}

/// The parts of a URL, or why the bridge cannot be reached by it.
pub open spec fn http_url(url: Seq<char>) -> Result<HttpUrlView, Seq<char>> {
    if !begins_with(url, "http://"@) {
        Err("phone bridge only supports http:// URLs"@)
    } else {
        let parts = url_parts(url.skip("http://"@.len() as int));
        if parts.host.len() == 0 {
            Err("phone bridge URL host must not be empty"@)
        } else {
            Ok(parts)
        }
    }
}

pub fn parse_http_url(url: &str) -> (parsed: Result<ParsedHttpUrl, String>)
    ensures
        match parsed {
            Ok(parts) => http_url(url@) == Ok::<HttpUrlView, Seq<char>>(parts@),
            Err(message) => http_url(url@) == Err::<HttpUrlView, Seq<char>>(message@),
        },
{
    if !has_prefix(url, "http://") {
        return Err("phone bridge only supports http:// URLs".to_string());
    }
    let chars = chars_of(url);
    let start: usize = chars_of("http://").len();
    let ghost rest = url@.skip(start as int);
    let slash = find_from_exec(&chars, '/', start);
    proof {
        lemma_find(chars@, '/', start as int);
        lemma_find_is(rest, '/', 0, slash - start);
    }
    let authority_text = text_between(&chars, start, slash);
    let authority = chars_of(authority_text.as_str());
    assert(authority@ =~= rest.take(slash - start));
    let (host, port) = match find_last_exec(&authority, ':') {
        None => (authority_text, DEFAULT_WEB_PORT),
        Some(colon) => {
            let port_text = text_between(&authority, colon + 1, authority.len());
            assert(port_text@ =~= authority@.skip(colon + 1));
            let port = match parse_u16(port_text.as_str()) {
                Ok(port) => port,
                Err(_) => DEFAULT_WEB_PORT,
            };
            assert(authority@.take(colon as int) =~= authority@.subrange(0, colon as int));
            (text_between(&authority, 0, colon), port)
        },
    };
    let path = if slash == chars.len() {
        "/".to_string()
    } else {
        let path = text_between(&chars, slash, chars.len());
        assert(path@ =~= rest.skip(slash - start));
        path
    };
    if host.as_str().is_empty() {
        return Err("phone bridge URL host must not be empty".to_string());
    }
    Ok(ParsedHttpUrl { host, port, path })
}

/// The host that a browser on this machine reaches: a wildcard is the loopback address, and an
/// address with colons stands in brackets.
pub open spec fn browser_host(bind_host: Seq<char>) -> Seq<char> {
    let host = if bind_host == "0.0.0.0"@ || bind_host == "::"@ {
        DEFAULT_WEB_BIND_HOST@
    } else {
        bind_host
    };
    if host.contains(':') && !(host.len() > 0 && host[0] == '[') {
        "["@ + host + "]"@
    } else {
        host
    }
}

pub fn web_url(bind_host: &str, port: u16) -> (url: String)
    ensures
        url@ == "http://"@ + browser_host(bind_host@) + ":"@ + decimal(port as nat) + "/"@,
{
    let host = if same_text(bind_host, "0.0.0.0") || same_text(bind_host, "::") {
        DEFAULT_WEB_BIND_HOST.to_string()
    } else {
        bind_host.to_string()
    };
    let bracket = has_prefix(host.as_str(), "[");
    proof {
        reveal_strlit("[");
        assert("["@ =~= seq!['[']);
        if host@.len() > 0 {
            assert(host@.take(1) =~= seq![host@[0]]);
            assert(begins_with(host@, "["@) == (host@[0] == '[')) by {
                if seq![host@[0]] == seq!['['] {
                    assert(seq![host@[0]][0] == '[');
                }
            }
        }
    }
    let host = if has_char(host.as_str(), ':') && !bracket {
        concat3("[", host.as_str(), "]")
    } else {
        host
    };
    let mut url = concat3("http://", host.as_str(), ":");
    url.append(decimal_exec(port as u64).as_str());
    url.append("/");
    url
}

/// The first line of a request.
pub open spec fn request_line(method: Seq<char>, path: Seq<char>) -> Seq<char> {
    method + " "@ + (path + " "@ + "HTTP/1.1"@)
}

/// A header line.
pub open spec fn header_line(name: Seq<char>, value: Seq<char>) -> Seq<char> {
    name + ": "@ + value
}

/// The head of a request for a bridge.
pub open spec fn request_head(
    method: Seq<char>,
    path: Seq<char>,
    host: Seq<char>,
    length: nat,
) -> Seq<char> {
    request_line(method, path) + "\r\n"@ + header_line("Host"@, host) + "\r\n"@
        + header_line("Content-Type"@, "application/json"@) + "\r\n"@ + header_line(
        "Accept"@,
        "application/json"@,
    ) + "\r\n"@ + header_line("Content-Length"@, decimal(length)) + "\r\n"@
        + "Connection: close"@ + "\r\n"@ + "\r\n"@
}

/// A request for a bridge.
pub open spec fn request_text(
    method: Seq<char>,
    path: Seq<char>,
    host: Seq<char>,
    body: Seq<char>,
) -> Seq<char> {
    request_head(method, path, host, encode_utf8(body).len()) + body
}

pub fn http_request(method: &str, url: &ParsedHttpUrl, body: &str) -> (text: String)
    ensures
        text@ == request_text(method@, url.path@, url.host@, body@),
{
    let target = concat3(url.path.as_str(), " ", "HTTP/1.1");
    let mut text = concat3(method, " ", target.as_str());
    text.append("\r\n");
    text.append(concat3("Host", ": ", url.host.as_str()).as_str());
    text.append("\r\n");
    text.append(concat3("Content-Type", ": ", "application/json").as_str());
    text.append("\r\n");
    text.append(concat3("Accept", ": ", "application/json").as_str());
    text.append("\r\n");
    let length = decimal_exec(body.as_bytes().len() as u64);
    text.append(concat3("Content-Length", ": ", length.as_str()).as_str());
    text.append("\r\n");
    text.append("Connection: close");
    text.append("\r\n");
    text.append("\r\n");
    text.append(body);
    text
}

// Responses.

/// The word of a head that holds the status.
pub open spec fn status_word(head: Seq<char>) -> Option<Seq<char>> {
    if lines(head).len() > 0 && words(lines(head)[0]).len() > 1 {
        Some(words(lines(head)[0])[1])
    } else {
        None
    }
}

/// The status and the body of a response, or why it is none.
pub open spec fn http_response(response: Seq<u8>) -> Result<(int, Seq<char>), Seq<char>> {
    match head_end(response) {
        None => Err("invalid HTTP response: missing header terminator"@),
        Some(end) => match status_word(lossy_text(response.take(end))) {
            None => Err("invalid HTTP response: missing status code"@),
            Some(word) => match unsigned_value(word) {
                Some(status) if status <= u16::MAX => Ok(
                    (status as int, lossy_text(response.skip(end))),
                ),
                _ => Err(u16_error(word)),
            },
        },
    }
}

pub fn parse_http_response(response: &[u8]) -> (parsed: Result<(u16, String), String>)
    ensures
        match parsed {
            Ok((status, body)) => http_response(response@) == Ok::<(int, Seq<char>), Seq<char>>(
                (status as int, body@),
            ),
            Err(message) => http_response(response@) == Err::<(int, Seq<char>), Seq<char>>(
                message@,
            ),
        },
{
    let end = match head_end_exec(response) {
        Some(end) => end,
        None => {
            return Err("invalid HTTP response: missing header terminator".to_string());
        },
    };
    let head = slice_subrange(response, 0, end);
    assert(head@ =~= response@.take(end as int));
    let chars = chars_of(lossy_string(head).as_str());
    let bounds = line_bounds(&chars);
    if bounds.len() == 0 {
        return Err("invalid HTTP response: missing status code".to_string());
    }
    let (from, to) = bounds[0];
    let found = word_bounds(&chars, from, to);
    if found.len() < 2 {
        return Err("invalid HTTP response: missing status code".to_string());
    }
    let (a, b) = found[1];
    let status = match parse_u16(text_between(&chars, a, b).as_str()) {
        Ok(status) => status,
        Err(message) => {
            return Err(message);
        },
    };
    let rest = slice_subrange(response, end, response.len());
    assert(rest@ =~= response@.skip(end as int));
    Ok((status, lossy_string(rest)))
}

/// The statuses that the connector answers with.
#[derive(Clone, Copy, Debug, Eq, PartialEq, Structural)]
pub enum HttpStatus {
    Okay,
    Accepted,
    NoContent,
    Forbidden,
    NotFound,
    MethodNotAllowed,
    Conflict,
}

impl HttpStatus {
    pub open spec fn code_view(self) -> nat {
        match self {
            HttpStatus::Okay => 200,
            HttpStatus::Accepted => 202,
            HttpStatus::NoContent => 204,
            HttpStatus::Forbidden => 403,
            HttpStatus::NotFound => 404,
            HttpStatus::MethodNotAllowed => 405,
            HttpStatus::Conflict => 409,
        }
    }

    pub open spec fn reason_view(self) -> Seq<char> {
        match self {
            HttpStatus::Okay => "OK"@,
            HttpStatus::Accepted => "Accepted"@,
            HttpStatus::NoContent => "No Content"@,
            HttpStatus::Forbidden => "Forbidden"@,
            HttpStatus::NotFound => "Not Found"@,
            HttpStatus::MethodNotAllowed => "Method Not Allowed"@,
            HttpStatus::Conflict => "Conflict"@,
        }
    }

    pub fn code(self) -> (code: u16)
        ensures
            code == self.code_view(),
    {
        match self {
            HttpStatus::Okay => 200,
            HttpStatus::Accepted => 202,
            HttpStatus::NoContent => 204,
            HttpStatus::Forbidden => 403,
            HttpStatus::NotFound => 404,
            HttpStatus::MethodNotAllowed => 405,
            HttpStatus::Conflict => 409,
        }
    }

    pub fn reason(self) -> (reason: &'static str)
        ensures
            reason@ == self.reason_view(),
    {
        match self {
            HttpStatus::Okay => "OK",
            HttpStatus::Accepted => "Accepted",
            HttpStatus::NoContent => "No Content",
            HttpStatus::Forbidden => "Forbidden",
            HttpStatus::NotFound => "Not Found",
            HttpStatus::MethodNotAllowed => "Method Not Allowed",
            HttpStatus::Conflict => "Conflict",
        }
    }
}

/// The types of what the connector serves.
#[derive(Clone, Copy, Debug, Eq, PartialEq, Structural)]
pub enum ContentType {
    Html,
    Javascript,
    Css,
    Plain,
    Json,
    Apk,
}

impl ContentType {
    pub open spec fn text_view(self) -> Seq<char> {
        match self {
            ContentType::Html => "text/html; charset=utf-8"@,
            ContentType::Javascript => "text/javascript; charset=utf-8"@,
            ContentType::Css => "text/css; charset=utf-8"@,
            ContentType::Plain => "text/plain; charset=utf-8"@,
            ContentType::Json => "application/json; charset=utf-8"@,
            ContentType::Apk => "application/vnd.android.package-archive"@,
        }
    }

    pub fn text(self) -> (text: &'static str)
        ensures
            text@ == self.text_view(),
    {
        match self {
            ContentType::Html => "text/html; charset=utf-8",
            ContentType::Javascript => "text/javascript; charset=utf-8",
            ContentType::Css => "text/css; charset=utf-8",
            ContentType::Plain => "text/plain; charset=utf-8",
            ContentType::Json => "application/json; charset=utf-8",
            ContentType::Apk => "application/vnd.android.package-archive",
        }
    }
}

/// The first line of a response.
pub open spec fn status_line(status: HttpStatus) -> Seq<char> {
    "HTTP/1.1"@ + " "@ + (decimal(status.code_view()) + " "@ + status.reason_view())
}

/// The head of a response.
pub open spec fn response_head(status: HttpStatus, content_type: ContentType, length: nat) -> Seq<
    char,
> {
    status_line(status) + "\r\n"@ + header_line("Content-Type"@, content_type.text_view())
        + "\r\n"@ + header_line("Content-Length"@, decimal(length)) + "\r\n"@
        + "Cache-Control: no-store"@ + "\r\n"@ + "Connection: close"@ + "\r\n"@ + "\r\n"@
}

pub fn http_response_head(status: HttpStatus, content_type: ContentType, length: u64) -> (text:
    String)
    ensures
        text@ == response_head(status, content_type, length as nat),
{
    let code = decimal_exec(status.code() as u64);
    let outcome = concat3(code.as_str(), " ", status.reason());
    let mut text = concat3("HTTP/1.1", " ", outcome.as_str());
    text.append("\r\n");
    text.append(concat3("Content-Type", ": ", content_type.text()).as_str());
    text.append("\r\n");
    text.append(concat3("Content-Length", ": ", decimal_exec(length).as_str()).as_str());
    text.append("\r\n");
    text.append("Cache-Control: no-store");
    text.append("\r\n");
    text.append("Connection: close");
    text.append("\r\n");
    text.append("\r\n");
    text
}

/// A response with a text for a body.
#[derive(Debug)]
pub struct HttpResponse {
    pub status: HttpStatus,
    pub content_type: ContentType,
    pub body: String,
    pub headers_only: bool,
}

pub struct HttpResponseView {
    pub status: HttpStatus,
    pub content_type: ContentType,
    pub body: Seq<char>,
    pub headers_only: bool,
}

impl View for HttpResponse {
    type V = HttpResponseView;

    open spec fn view(&self) -> HttpResponseView {
        HttpResponseView {
            status: self.status,
            content_type: self.content_type,
            body: self.body@,
            headers_only: self.headers_only,
        }
    }
}

/// What is sent as a response.
pub open spec fn response_text(response: HttpResponseView) -> Seq<char> {
    let head = response_head(
        response.status,
        response.content_type,
        encode_utf8(response.body).len(),
    );
    if response.headers_only {
        head
    } else {
        head + response.body
    }
}

impl HttpResponse {
    /// What is sent.
    pub fn text(&self) -> (text: String)
        ensures
            text@ == response_text(self@),
    {
        let length = self.body.as_str().as_bytes().len();
        let mut text = http_response_head(self.status, self.content_type, length as u64);
        if !self.headers_only {
            text.append(self.body.as_str());
        }
        text
    }
}

// Laws.

/// A header is a name, a colon and a content, and the case of the ASCII letters of the name does
/// not count. The content goes without the white space around it, and may hold colons.
pub proof fn headers_are_names_and_contents(
    written: Seq<char>,
    content: Seq<char>,
    name: Seq<char>,
    other: Seq<char>,
)
    requires
        !written.contains(':'),
        !other.contains(':'),
    ensures
        ({
            let line = written + seq![':'] + content;
            &&& is_header(line, name) <==> lower(written) == lower(name)
            &&& header_content(line) == trim(content)
            &&& !is_header(other, name)
        }),
{
    let line = written + seq![':'] + content;
    let at = written.len() as int;
    assert forall|k: int| 0 <= k < at implies line[k] != ':' by {
        assert(line[k] == written[k]);
        assert(written.contains(written[k]));
    }
    lemma_find_is(line, ':', 0, at);
    assert(line.take(at) =~= written);
    assert(line.skip(at + 1) =~= content);
    assert forall|k: int| 0 <= k < other.len() implies other[k] != ':' by {
        assert(other.contains(other[k]));
    }
    lemma_find_is(other, ':', 0, other.len() as int);
}

/// The first header of a name counts.
pub proof fn the_first_header_counts(lines: Seq<Seq<char>>, name: Seq<char>, at: int)
    requires
        0 <= at <= lines.len(),
        forall|k: int| 0 <= k < at ==> !is_header(#[trigger] lines[k], name),
        at < lines.len() ==> is_header(lines[at], name),
    ensures
        header_in(lines, name) == (if at < lines.len() {
            Some(header_content(lines[at]))
        } else {
            None
        }),
    decreases at,
{
    if at > 0 {
        assert(!is_header(lines[0], name));
        let rest = lines.skip(1);
        assert forall|k: int| 0 <= k < at - 1 implies !is_header(#[trigger] rest[k], name) by {
            assert(rest[k] == lines[k + 1]);
        }
        the_first_header_counts(rest, name, at - 1);
    }
}

/// Whether a line announces the length of a body: it is a header of that name, and holds a number
/// that a machine can count to.
pub open spec fn announces_length(line: Seq<char>) -> bool {
    is_header(line, "content-length"@) && unsigned_value(header_content(line)) is Some
        && unsigned_value(header_content(line))->0 <= usize::MAX
}

/// The first length counts that is announced and can be read.
pub proof fn the_first_length_counts(lines: Seq<Seq<char>>, at: int)
    requires
        0 <= at <= lines.len(),
        forall|k: int| 0 <= k < at ==> !announces_length(#[trigger] lines[k]),
        at < lines.len() ==> announces_length(lines[at]),
    ensures
        length_in(lines) == (if at < lines.len() {
            unsigned_value(header_content(lines[at]))
        } else {
            None
        }),
    decreases at,
{
    if at > 0 {
        assert(!announces_length(lines[0]));
        let rest = lines.skip(1);
        assert forall|k: int| 0 <= k < at - 1 implies !announces_length(#[trigger] rest[k]) by {
            assert(rest[k] == lines[k + 1]);
        }
        the_first_length_counts(rest, at - 1);
    }
}

/// A body is as long as was announced, but no longer than is allowed, and without an announcement
/// it is empty. It begins with what follows the head.
pub proof fn bodies_are_as_long_as_announced(initial: Seq<u8>, max: nat)
    ensures
        body_target(initial, max) <= max,
        body_target(initial, max) <= content_length(initial),
        body_target(initial, max) == max || body_target(initial, max) == content_length(initial),
        length_in(head_lines(initial)) is None ==> body_target(initial, max) == 0,
        length_in(head_lines(initial)) matches Some(length) ==> content_length(initial) == length,
        ({
            let rest = initial.skip(head_len(initial));
            let start = body_start(initial, max);
            &&& start.len() <= rest.len() ==> start == rest.take(start.len() as int)
            &&& start.len() <= body_target(initial, max)
            &&& start.len() < body_target(initial, max) ==> start == rest
        }),
        head_len(initial) <= initial.len(),
{
    lemma_head_end(initial, 0);
    let rest = initial.skip(head_len(initial));
    assert(rest.take(rest.len() as int) =~= rest);
}

/// What a request is for goes without its query.
pub proof fn queries_do_not_count(initial: Seq<u8>, path: Seq<char>, query: Seq<char>)
    requires
        !path.contains('?'),
    ensures
        request_path(initial) == path ==> request_route(initial) == path,
        request_path(initial) == path + seq!['?'] + query ==> request_route(initial) == path,
{
    let whole = path + seq!['?'] + query;
    let at = path.len() as int;
    assert forall|k: int| 0 <= k < at implies path[k] != '?' && whole[k] != '?' by {
        assert(whole[k] == path[k]);
        assert(path.contains(path[k]));
    }
    lemma_find_is(whole, '?', 0, at);
    lemma_find_is(path, '?', 0, at);
    assert(whole.take(at) =~= path);
    assert(path.take(at) =~= path);
}

/// A request that says nothing is for the root, and without a method.
pub proof fn requests_name_their_method_first(initial: Seq<u8>)
    ensures
        ({
            let found = request_words(initial);
            &&& found.len() > 0 ==> request_method(initial) == found[0]
            &&& found.len() == 0 ==> request_method(initial).len() == 0
            &&& found.len() > 1 ==> request_path(initial) == found[1]
            &&& found.len() <= 1 ==> request_path(initial) == seq!['/']
            &&& lines(lossy_text(initial)).len() > 0 ==> found == words(lines(lossy_text(initial))[0])
            &&& lines(lossy_text(initial)).len() == 0 ==> found.len() == 0
        }),
{
    reveal_strlit("/");
    assert("/"@ =~= seq!['/']);
}

/// A host is this machine by one of three names, with a port behind it or without. An address with
/// colons stands in brackets.
pub proof fn this_machine_has_three_names(name: Seq<char>, port: Seq<char>)
    ensures
        !is_local(None),
        !name.contains(':') && !(name.len() > 0 && name[0] == '[') ==> {
            let local = name == "127.0.0.1"@ || name == "localhost"@;
            &&& is_local(Some(name)) <==> local
            &&& is_local(Some(name + seq![':'] + port)) <==> local
        },
        !name.contains(']') ==> (is_local(Some(seq!['['] + name + seq![']'] + port)) <==> name
            == "127.0.0.1"@ || name == "localhost"@ || name == "::1"@),
{
    reveal_strlit("::1");
    assert("::1"@[0] == ':');
    if !name.contains(':') && !(name.len() > 0 && name[0] == '[') {
        let whole = name + seq![':'] + port;
        let at = name.len() as int;
        assert forall|k: int| 0 <= k < at implies name[k] != ':' && whole[k] != ':' by {
            assert(whole[k] == name[k]);
            assert(name.contains(name[k]));
        }
        lemma_find_is(name, ':', 0, at);
        lemma_find_is(whole, ':', 0, at);
        assert(name.take(at) =~= name);
        assert(whole.take(at) =~= name);
        assert(whole.len() > 0 && whole[0] == '[' ==> name.len() > 0 && name[0] == '[');
        assert(name != "::1"@) by {
            if name == "::1"@ {
                assert(name[0] == ':');
            }
        }
    }
    if !name.contains(']') {
        let whole = seq!['['] + name + seq![']'] + port;
        let inner = whole.skip(1);
        let at = name.len() as int;
        assert(inner[at] == ']');
        assert forall|k: int| 0 <= k < at implies inner[k] != ']' by {
            assert(inner[k] == name[k]);
            assert(name.contains(name[k]));
        }
        lemma_find_is(inner, ']', 0, at);
        assert(inner.take(at) =~= name);
        assert(whole[0] == '[');
    }
}

/// A URL leads to the host, the port and the path that it is made of. Without a port it leads to
/// port 8080, and without a path to the root.
pub proof fn urls_lead_to_what_they_are_made_of(
    host: Seq<char>,
    port: nat,
    path: Seq<char>,
    word: Seq<char>,
)
    requires
        host.len() > 0,
        !host.contains('/'),
        port <= 65535,
        path.len() > 0,
        path[0] == '/',
        !word.contains('/'),
        !word.contains(':'),
    ensures
        ({
            let parts = |port: int, path: Seq<char>| Ok::<HttpUrlView, Seq<char>>(
                HttpUrlView { host, port, path },
            );
            let told = "http://"@ + (host + (seq![':'] + decimal(port)));
            let odd = "http://"@ + (host + (seq![':'] + word));
            let bare = "http://"@ + host;
            &&& http_url(told + path) == parts(port as int, path)
            &&& http_url(told) == parts(port as int, seq!['/'])
            &&& unsigned_value(word) is None || unsigned_value(word)->0 > 65535 ==> http_url(
                odd + path,
            ) == parts(8080, path)
            &&& !host.contains(':') ==> http_url(bare + path) == parts(8080, path) && http_url(bare)
                == parts(8080, seq!['/'])
        }),
{
    let none = Seq::<char>::empty();
    let digits = decimal(port);
    lemma_decimal_value(port);
    assert(!digits.contains('/') && !digits.contains(':')) by {
        assert forall|i: int| 0 <= i < digits.len() implies digits[i] != '/' && digits[i] != ':' by {
            assert(is_digit(digits[i]));
        }
    }
    lemma_url_of_parts(host, digits, path);
    lemma_url_of_parts(host, digits, none);
    lemma_url_of_parts(host, word, path);
    let told = "http://"@ + (host + (seq![':'] + digits));
    assert(told + none =~= told);
    reveal_strlit("/");
    assert("/"@ =~= seq!['/']);
    if !host.contains(':') {
        lemma_url_of_host(host, path);
        lemma_url_of_host(host, none);
        assert("http://"@ + host + none =~= "http://"@ + host);
    }
}

proof fn lemma_url_of_host(host: Seq<char>, path: Seq<char>)
    requires
        host.len() > 0,
        !host.contains('/'),
        !host.contains(':'),
        path.len() > 0 ==> path[0] == '/',
    ensures
        http_url("http://"@ + host + path) == Ok::<HttpUrlView, Seq<char>>(
            HttpUrlView {
                host,
                port: 8080,
                path: if path.len() == 0 {
                    "/"@
                } else {
                    path
                },
            },
        ),
{
    let url = "http://"@ + host + path;
    let n = "http://"@.len() as int;
    let rest = host + path;
    let at = host.len() as int;
    assert(url.take(n) =~= "http://"@);
    assert(url.skip(n) =~= rest);
    assert forall|k: int| 0 <= k < at implies rest[k] != '/' by {
        assert(rest[k] == host[k]);
        assert(host.contains(host[k]));
    }
    lemma_find_is(rest, '/', 0, at);
    assert(rest.take(at) =~= host);
    assert(rest.skip(at) =~= path);
    lemma_find_last(host, ':');
    let colon = find_last(host, ':');
    if colon >= 0 {
        assert(host.contains(host[colon]));
    }
}

proof fn lemma_url_of_parts(host: Seq<char>, word: Seq<char>, path: Seq<char>)
    requires
        host.len() > 0,
        !host.contains('/'),
        !word.contains('/'),
        !word.contains(':'),
        path.len() > 0 ==> path[0] == '/',
    ensures
        http_url("http://"@ + (host + (seq![':'] + word)) + path) == Ok::<HttpUrlView, Seq<char>>(
            HttpUrlView {
                host,
                port: port_or_default(word),
                path: if path.len() == 0 {
                    "/"@
                } else {
                    path
                },
            },
        ),
{
    let authority = host + (seq![':'] + word);
    let url = "http://"@ + authority + path;
    let n = "http://"@.len() as int;
    let rest = authority + path;
    let at = authority.len() as int;
    let colon = host.len() as int;
    assert(url.take(n) =~= "http://"@);
    assert(url.skip(n) =~= rest);
    assert(authority[colon] == ':');
    assert forall|k: int| 0 <= k < at implies rest[k] != '/' by {
        assert(rest[k] == authority[k]);
        if k < colon {
            assert(authority[k] == host[k]);
            assert(host.contains(host[k]));
        } else if k > colon {
            assert(authority[k] == word[k - colon - 1]);
            assert(word.contains(word[k - colon - 1]));
        }
    }
    lemma_find_is(rest, '/', 0, at);
    assert(rest.take(at) =~= authority);
    assert(rest.skip(at) =~= path);
    lemma_find_last(authority, ':');
    let last = find_last(authority, ':');
    if last > colon {
        assert(authority[last] == word[last - colon - 1]);
        assert(word.contains(word[last - colon - 1]));
    }
    assert(last == colon);
    assert(authority.take(colon) =~= host);
    assert(authority.skip(colon + 1) =~= word);
}

/// A URL with another scheme, or without a host, leads nowhere, and the error says why.
pub proof fn other_urls_lead_nowhere(url: Seq<char>, path: Seq<char>)
    requires
        path.len() > 0 ==> path[0] == '/',
    ensures
        (forall|rest: Seq<char>| url != "http://"@ + rest) ==> http_url(url) == Err::<
            HttpUrlView,
            Seq<char>,
        >("phone bridge only supports http:// URLs"@),
        http_url("http://"@ + path) == Err::<HttpUrlView, Seq<char>>(
            "phone bridge URL host must not be empty"@,
        ),
        http_url("http://:"@ + path) == Err::<HttpUrlView, Seq<char>>(
            "phone bridge URL host must not be empty"@,
        ),
{
    let n = "http://"@.len() as int;
    if begins_with(url, "http://"@) {
        assert(url =~= "http://"@ + url.skip(n));
    }
    let first = "http://"@ + path;
    assert(first.take(n) =~= "http://"@);
    assert(first.skip(n) =~= path);
    lemma_find_is(path, '/', 0, 0);
    assert(path.take(0).len() == 0);
    lemma_find_last(path.take(0), ':');
    reveal_strlit("http://");
    reveal_strlit("http://:");
    let second = "http://:"@ + path;
    assert("http://:"@ =~= "http://"@ + seq![':']);
    assert(second.take(n) =~= "http://"@);
    let rest = seq![':'] + path;
    assert(second.skip(n) =~= rest);
    lemma_find_is(rest, '/', 0, 1);
    lemma_find_last(rest.take(1), ':');
    assert(rest.take(1)[0] == ':');
}

/// A browser is sent to the host that was bound, but to this machine where that is every host. An
/// address with colons stands in one pair of brackets.
pub proof fn browsers_are_sent_to_a_host(bind_host: Seq<char>)
    ensures
        bind_host == "0.0.0.0"@ || bind_host == "::"@ ==> browser_host(bind_host) == "127.0.0.1"@,
        bind_host != "0.0.0.0"@ && !bind_host.contains(':') ==> browser_host(bind_host)
            == bind_host,
        bind_host.len() > 0 && bind_host[0] == '[' ==> browser_host(bind_host) == bind_host,
        bind_host != "::"@ && bind_host.contains(':') && bind_host[0] != '[' ==> browser_host(
            bind_host,
        ) == seq!['['] + bind_host + seq![']'],
{
    reveal_strlit("0.0.0.0");
    reveal_strlit("::");
    reveal_strlit("127.0.0.1");
    reveal_strlit("[");
    reveal_strlit("]");
    assert("["@ =~= seq!['[']);
    assert("]"@ =~= seq![']']);
    assert("127.0.0.1"@ =~= seq!['1', '2', '7', '.', '0', '.', '0', '.', '1']);
    assert("0.0.0.0"@ =~= seq!['0', '.', '0', '.', '0', '.', '0']);
    assert(!"127.0.0.1"@.contains(':'));
    assert(!"0.0.0.0"@.contains(':'));
    assert("::"@[0] == ':');
    assert("::"@.contains(':'));
    assert("0.0.0.0"@[0] == '0');
}

/// Each status has the number that it is known by, and its reason is told.
pub proof fn statuses_have_their_numbers()
    ensures
        HttpStatus::Okay.code_view() == 200 && HttpStatus::Okay.reason_view() == "OK"@,
        HttpStatus::Accepted.code_view() == 202 && HttpStatus::Accepted.reason_view()
            == "Accepted"@,
        HttpStatus::NoContent.code_view() == 204 && HttpStatus::NoContent.reason_view()
            == "No Content"@,
        HttpStatus::Forbidden.code_view() == 403 && HttpStatus::Forbidden.reason_view()
            == "Forbidden"@,
        HttpStatus::NotFound.code_view() == 404 && HttpStatus::NotFound.reason_view()
            == "Not Found"@,
        HttpStatus::MethodNotAllowed.code_view() == 405
            && HttpStatus::MethodNotAllowed.reason_view() == "Method Not Allowed"@,
        HttpStatus::Conflict.code_view() == 409 && HttpStatus::Conflict.reason_view()
            == "Conflict"@,
{
}

/// Each type is told as browsers know it, and a text is told to be UTF-8.
pub proof fn types_are_told_as_browsers_know_them()
    ensures
        ContentType::Html.text_view() == "text/html; charset=utf-8"@,
        ContentType::Javascript.text_view() == "text/javascript; charset=utf-8"@,
        ContentType::Css.text_view() == "text/css; charset=utf-8"@,
        ContentType::Plain.text_view() == "text/plain; charset=utf-8"@,
        ContentType::Json.text_view() == "application/json; charset=utf-8"@,
        ContentType::Apk.text_view() == "application/vnd.android.package-archive"@,
{
}

/// Bytes without an empty line are no response. One without a status, or with one that is no
/// number of sixteen bits, is none either. A status is the second word of the first line, and all
/// that follows the empty line is the body.
pub proof fn responses_are_a_head_and_a_body(response: Seq<u8>, end: int)
    ensures
        ({
            let outcome = http_response(response);
            let text = lines(lossy_text(response.take(end)));
            let found = if text.len() > 0 {
                words(text[0])
            } else {
                Seq::empty()
            };
            &&& (forall|i: int| !blank_at(response, i)) ==> outcome == Err::<
                (int, Seq<char>),
                Seq<char>,
            >("invalid HTTP response: missing header terminator"@)
            &&& blank_at(response, end - 4) && (forall|i: int|
                0 <= i < end - 4 ==> !blank_at(response, i)) ==> {
                &&& found.len() < 2 ==> outcome == Err::<(int, Seq<char>), Seq<char>>(
                    "invalid HTTP response: missing status code"@,
                )
                &&& found.len() >= 2 ==> match unsigned_value(found[1]) {
                    Some(status) => if status <= 65535 {
                        outcome == Ok::<(int, Seq<char>), Seq<char>>(
                            (status as int, lossy_text(response.skip(end))),
                        )
                    } else {
                        outcome == Err::<(int, Seq<char>), Seq<char>>(u16_error(found[1]))
                    },
                    None => outcome == Err::<(int, Seq<char>), Seq<char>>(u16_error(found[1])),
                }
            }
        }),
{
    lemma_head_end(response, 0);
    if blank_at(response, end - 4) && (forall|i: int|
        0 <= i < end - 4 ==> !blank_at(response, i)) {
        lemma_head_end_is(response, end - 4);
    }
}

/// A URL and a response are seen as they are: each part by its own name.
pub proof fn messages_are_seen_as_they_are(url: ParsedHttpUrl, response: HttpResponse)
    ensures
        url@.host == url.host@,
        url@.port == url.port,
        url@.path == url.path@,
        response@.status == response.status,
        response@.content_type == response.content_type,
        response@.body == response.body@,
        response@.headers_only == response.headers_only,
{
}

} // verus!
