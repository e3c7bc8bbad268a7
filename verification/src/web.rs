//! The browser connector: what it prints before it serves, and what it answers to a request.
use crate::bridge::{bridge_route, find_bridge_route, BridgeRoute, BridgeRouteView};
use crate::decimal::{decimal, lemma_decimal_value, parse_u16, u16_error, unsigned_value};
use crate::http::{
    browser_host, browsers_are_sent_to_a_host, http_url, read_web_request, request_method,
    request_route, urls_lead_to_what_they_are_made_of, web_url, ContentType, HttpResponse,
    HttpResponseView, HttpStatus, HttpUrlView,
};
use crate::json::{field_of, no_fields, put, text_json, Json, JsonView};
use crate::text::{
    begins_with, concat2, concat3, contained_texts_stand_between_others, contains_exec,
    contains_text, debug_string, debug_text, has_prefix, same_text,
};
use vstd::prelude::*;

verus! {

pub const WEB_COMMAND_NAME: &'static str = "web";

/// The arguments of `web`.
#[derive(Debug)]
pub struct WebArgs {
    pub bind_host: String,
    pub port: u16,
    pub dry_run: bool,
}

/// What `web` does.
#[derive(Debug)]
pub enum WebPlan {
    /// The value is printed.
    Print(Json),
    /// Requests are served at this URL.
    Serve(String),
}

/// The URL at which a browser on this machine reaches the connector.
pub open spec fn connector_url(bind_host: Seq<char>, port: nat) -> Seq<char> {
    "http://"@ + browser_host(bind_host) + ":"@ + crate::decimal::decimal(port) + "/"@
}

/// What a dry run of `web` prints.
pub open spec fn web_json(args: WebArgs) -> JsonView {
    JsonView::Object(
        map![
            "bindHost"@ => JsonView::Text(args.bind_host@),
            "port"@ => JsonView::Integer(args.port as int),
            "url"@ => JsonView::Text(connector_url(args.bind_host@, args.port as nat)),
            "secureContext"@ => JsonView::Text("localhost-or-https"@),
            "requiresAdb"@ => JsonView::Bool(false),
            "requiresBrowser"@ => JsonView::Text("Chromium WebUSB"@),
            "phoneBridge"@ => JsonView::Bool(true),
        ],
    )
}

pub fn web(args: &WebArgs) -> (plan: WebPlan)
    ensures
        match plan {
            WebPlan::Print(json) => args.dry_run && json@ == web_json(*args),
            WebPlan::Serve(url) => !args.dry_run && url@ == connector_url(
                args.bind_host@,
                args.port as nat,
            ),
        },
{
    let url = web_url(args.bind_host.as_str(), args.port);
    if args.dry_run {
        let mut fields = no_fields();
        put(&mut fields, "bindHost", text_json(args.bind_host.as_str()));
        put(&mut fields, "port", Json::Unsigned(args.port as u64));
        put(&mut fields, "url", text_json(url.as_str()));
        put(&mut fields, "secureContext", text_json("localhost-or-https"));
        put(&mut fields, "requiresAdb", Json::Bool(false));
        put(&mut fields, "requiresBrowser", text_json("Chromium WebUSB"));
        put(&mut fields, "phoneBridge", Json::Bool(true));
        WebPlan::Print(Json::Object(fields))
    } else {
        WebPlan::Serve(url)
    }
}

/// Reads a port that is not zero. `name` says in an error which port it is.
pub open spec fn port_setting(name: Seq<char>, value: Seq<char>) -> Result<int, Seq<char>> {
    match unsigned_value(value) {
        Some(port) if port == 0 => Err(name + " must be in 1..=65535"@),
        Some(port) if port <= u16::MAX => Ok(port as int),
        _ => Err("invalid "@ + name + " "@ + debug_text(value) + ": "@ + u16_error(value)),
    }
}

pub(crate) fn parse_port(name: &str, value: &str) -> (port: Result<u16, String>)
    ensures
        match port {
            Ok(port) => port_setting(name@, value@) == Ok::<int, Seq<char>>(port as int),
            Err(message) => port_setting(name@, value@) == Err::<int, Seq<char>>(message@),
        },
{
    match parse_u16(value) {
        Ok(port) => if port == 0 {
            Err(concat2(name, " must be in 1..=65535"))
        } else {
            Ok(port)
        },
        Err(error) => {
            let mut message = concat3("invalid ", name, " ");
            message.append(debug_string(value).as_str());
            message.append(": ");
            message.append(error.as_str());
            Err(message)
        },
    }
}

pub fn parse_web_port(value: &str) -> (port: Result<u16, String>)
    ensures
        match port {
            Ok(port) => port_setting("web port"@, value@) == Ok::<int, Seq<char>>(port as int),
            Err(message) => port_setting("web port"@, value@) == Err::<int, Seq<char>>(message@),
        },
{
    parse_port("web port", value)
}

// Requests.

/// The files of the page that the connector serves.
#[derive(Clone, Copy, Debug, Eq, PartialEq, Structural)]
pub enum WebAsset {
    Index,
    Script,
    Styles,
}

/// The type of a file of the page.
pub open spec fn asset_type(asset: WebAsset) -> ContentType {
    match asset {
        WebAsset::Index => ContentType::Html,
        WebAsset::Script => ContentType::Javascript,
        WebAsset::Styles => ContentType::Css,
    }
}

/// The answer that hands out a file of the page.
pub fn asset_response(asset: WebAsset, text: String, headers_only: bool) -> (response: HttpResponse)
    ensures
        response@ == (HttpResponseView {
            status: HttpStatus::Okay,
            content_type: asset_type(asset),
            body: text@,
            headers_only,
        }),
{
    let content_type = match asset {
        WebAsset::Index => ContentType::Html,
        WebAsset::Script => ContentType::Javascript,
        WebAsset::Styles => ContentType::Css,
    };
    HttpResponse { status: HttpStatus::Okay, content_type, body: text, headers_only }
}

/// What a request leads to.
#[derive(Debug)]
pub enum WebRoute {
    /// The client reports something, in the body of the request.
    ClientLog,
    /// The bridge is asked.
    Bridge(BridgeRoute),
    /// A file of the page is handed out, or only its head.
    Asset(WebAsset, bool),
    Respond(HttpResponse),
}

pub enum WebRouteView {
    ClientLog,
    Bridge(BridgeRouteView),
    Asset(WebAsset, bool),
    Respond(HttpResponseView),
}

impl View for WebRoute {
    type V = WebRouteView;

    open spec fn view(&self) -> WebRouteView {
        match self {
            WebRoute::ClientLog => WebRouteView::ClientLog,
            WebRoute::Bridge(route) => WebRouteView::Bridge(route@),
            WebRoute::Asset(asset, headers_only) => WebRouteView::Asset(*asset, *headers_only),
            WebRoute::Respond(response) => WebRouteView::Respond(response@),
        }
    }
}

/// An answer in plain text.
pub open spec fn plain_response(status: HttpStatus, body: Seq<char>, headers_only: bool) ->
    HttpResponseView {
    HttpResponseView { status, content_type: ContentType::Plain, body, headers_only }
}

fn plain_response_exec(status: HttpStatus, body: &str, headers_only: bool) -> (response:
    HttpResponse)
    ensures
        response@ == plain_response(status, body@, headers_only),
{
    HttpResponse {
        status,
        content_type: ContentType::Plain,
        body: body.to_string(),
        headers_only,
    }
}

/// What a request with this method for this path leads to.
pub open spec fn web_route(method: Seq<char>, path: Seq<char>) -> WebRouteView {
    let head = method == "HEAD"@;
    if method == "POST"@ && path == "/client-log"@ {
        WebRouteView::ClientLog
    } else if begins_with(path, "/bridge/"@) {
        WebRouteView::Bridge(bridge_route(method, path))
    } else if method != "GET"@ && !head {
        WebRouteView::Respond(
            plain_response(HttpStatus::MethodNotAllowed, "method not allowed"@, false),
        )
    } else if path == "/"@ || path == "/index.html"@ {
        WebRouteView::Asset(WebAsset::Index, head)
    } else if path == "/app.js"@ {
        WebRouteView::Asset(WebAsset::Script, head)
    } else if path == "/styles.css"@ {
        WebRouteView::Asset(WebAsset::Styles, head)
    } else if path == "/healthz"@ {
        WebRouteView::Respond(plain_response(HttpStatus::Okay, "ok\n"@, head))
    } else {
        WebRouteView::Respond(plain_response(HttpStatus::NotFound, "not found\n"@, head))
    }
}

/// What the request leads to whose first bytes are `initial`.
pub fn handle_web_client(initial: &[u8]) -> (route: WebRoute)
    ensures
        route@ == web_route(request_method(initial@), request_route(initial@)),
{
    let request = read_web_request(initial);
    let method = request.method.as_str();
    let path = request.route_path.as_str();
    let head = same_text(method, "HEAD");
    if same_text(method, "POST") && same_text(path, "/client-log") {
        WebRoute::ClientLog
    } else if has_prefix(path, "/bridge/") {
        WebRoute::Bridge(find_bridge_route(method, path))
    } else if !same_text(method, "GET") && !head {
        WebRoute::Respond(
            plain_response_exec(HttpStatus::MethodNotAllowed, "method not allowed", false),
        )
    } else if same_text(path, "/") || same_text(path, "/index.html") {
        WebRoute::Asset(WebAsset::Index, head)
    } else if same_text(path, "/app.js") {
        WebRoute::Asset(WebAsset::Script, head)
    } else if same_text(path, "/styles.css") {
        WebRoute::Asset(WebAsset::Styles, head)
    } else if same_text(path, "/healthz") {
        WebRoute::Respond(plain_response_exec(HttpStatus::Okay, "ok\n", head))
    } else {
        WebRoute::Respond(plain_response_exec(HttpStatus::NotFound, "not found\n", head))
    }
}

/// Whether what a client reports is a raw trace of its USB traffic, which is not logged.
pub open spec fn is_usb_trace(report: Seq<char>) -> bool {
    contains_text(report, "\"message\":\"USB OUT "@) || contains_text(
        report,
        "\"message\":\"USB IN "@,
    )
}

/// The line to log for what a client reports, if it is to be logged, and the answer.
pub fn client_log(report: &str) -> (outcome: (Option<String>, HttpResponse))
    ensures
        crate::text::opt_text(outcome.0) == (if is_usb_trace(report@) {
            None
        } else {
            Some("web client log: "@ + report@)
        }),
        outcome.1@ == plain_response(HttpStatus::NoContent, ""@, false),
{
    let trace = contains_exec(report, "\"message\":\"USB OUT ") || contains_exec(
        report,
        "\"message\":\"USB IN ",
    );
    let line = if trace {
        None
    } else {
        Some(concat2("web client log: ", report))
    };
    (line, plain_response_exec(HttpStatus::NoContent, "", false))
}

/// A request whose path begins as those of the bridge do goes to the bridge, whatever its method,
/// and no other does.
pub proof fn bridge_paths_go_to_the_bridge(method: Seq<char>, path: Seq<char>)
    ensures
        begins_with(path, "/bridge/"@) <==> web_route(method, path) is Bridge,
{
    reveal_strlit("/bridge/");
    reveal_strlit("/client-log");
    if begins_with(path, "/bridge/"@) {
        assert(path.take(8)[1] == "/bridge/"@[1]);
        assert("/client-log"@[1] == 'c');
    }
}

/// A request with a method that neither reads nor is meant for the bridge or the log is refused.
pub proof fn other_methods_are_refused(method: Seq<char>, path: Seq<char>)
    requires
        method != "GET"@,
        method != "HEAD"@,
        !begins_with(path, "/bridge/"@),
        !(method == "POST"@ && path == "/client-log"@),
    ensures
        web_route(method, path) == WebRouteView::Respond(
            plain_response(HttpStatus::MethodNotAllowed, "method not allowed"@, false),
        ),
{
}

proof fn lemma_web_names()
    ensures
        "bindHost"@.len() == 8,
        "port"@.len() == 4,
        "url"@.len() == 3,
        "secureContext"@.len() == 13,
        "requiresAdb"@.len() == 11,
        "requiresBrowser"@.len() == 15,
        "phoneBridge"@.len() == 11,
        "requiresAdb"@ != "phoneBridge"@,
{
    reveal_strlit("bindHost");
    reveal_strlit("port");
    reveal_strlit("url");
    reveal_strlit("secureContext");
    reveal_strlit("requiresAdb");
    reveal_strlit("requiresBrowser");
    reveal_strlit("phoneBridge");
    assert("requiresAdb"@[0] != "phoneBridge"@[0]);
}

/// A dry run tells the host and the port that would be bound, and the URL for a browser: the host
/// by which this machine reaches the connector, and the port.
pub proof fn web_dry_runs_tell_what_is_served(args: WebArgs)
    ensures
        ({
            let told = web_json(args);
            let host = args.bind_host@;
            &&& field_of(told, "bindHost"@) == Some(JsonView::Text(host))
            &&& field_of(told, "port"@) == Some(JsonView::Integer(args.port as int))
            &&& field_of(told, "url"@) == Some(
                JsonView::Text(
                    "http://"@ + (if host == "0.0.0.0"@ || host == "::"@ {
                        "127.0.0.1"@
                    } else if host.contains(':') && host[0] != '[' {
                        seq!['['] + host + seq![']']
                    } else {
                        host
                    }) + ":"@ + decimal(args.port as nat) + "/"@,
                ),
            )
            &&& field_of(told, "secureContext"@) == Some(JsonView::Text("localhost-or-https"@))
            &&& field_of(told, "requiresAdb"@) == Some(JsonView::Bool(false))
            &&& field_of(told, "requiresBrowser"@) == Some(JsonView::Text("Chromium WebUSB"@))
            &&& field_of(told, "phoneBridge"@) == Some(JsonView::Bool(true))
        }),
{
    lemma_web_names();
    browsers_are_sent_to_a_host(args.bind_host@);
}

/// The URL that is served leads back to the connector: to the host that a browser is sent to, to
/// the port, and to the page.
pub proof fn connector_urls_lead_to_the_page(bind_host: Seq<char>, port: nat)
    requires
        browser_host(bind_host).len() > 0,
        !browser_host(bind_host).contains('/'),
        port <= 65535,
    ensures
        http_url(connector_url(bind_host, port)) == Ok::<HttpUrlView, Seq<char>>(
            HttpUrlView { host: browser_host(bind_host), port: port as int, path: seq!['/'] },
        ),
        forall|head: bool|
            web_route(#[trigger] method_of(head), seq!['/']) == WebRouteView::Asset(
                WebAsset::Index,
                head,
            ),
{
    let host = browser_host(bind_host);
    urls_lead_to_what_they_are_made_of(host, port, seq!['/'], Seq::empty());
    reveal_strlit(":");
    reveal_strlit("/");
    assert(":"@ =~= seq![':']);
    assert("/"@ =~= seq!['/']);
    assert(connector_url(bind_host, port) =~= "http://"@ + (host + (seq![':'] + decimal(port)))
        + seq!['/']);
    lemma_methods();
    reveal_strlit("/bridge/");
}

/// The method that asks for a page, or only for its head.
pub open spec fn method_of(head: bool) -> Seq<char> {
    if head {
        "HEAD"@
    } else {
        "GET"@
    }
}

proof fn lemma_methods()
    ensures
        "HEAD"@ != "GET"@,
        "HEAD"@ != "POST"@,
        "GET"@ != "POST"@,
{
    reveal_strlit("HEAD");
    reveal_strlit("GET");
    reveal_strlit("POST");
    assert("HEAD"@[0] != "POST"@[0]);
}

proof fn lemma_web_paths()
    ensures
        "/"@.len() == 1,
        "/index.html"@.len() == 11,
        "/app.js"@.len() == 7,
        "/styles.css"@.len() == 11,
        "/healthz"@.len() == 8,
        "/client-log"@.len() == 11,
        "/index.html"@ != "/styles.css"@,
        "/index.html"@ != "/client-log"@,
        "/styles.css"@ != "/client-log"@,
        !begins_with("/"@, "/bridge/"@),
        !begins_with("/index.html"@, "/bridge/"@),
        !begins_with("/app.js"@, "/bridge/"@),
        !begins_with("/styles.css"@, "/bridge/"@),
        !begins_with("/healthz"@, "/bridge/"@),
        !begins_with("/client-log"@, "/bridge/"@),
{
    reveal_strlit("/");
    reveal_strlit("/index.html");
    reveal_strlit("/app.js");
    reveal_strlit("/styles.css");
    reveal_strlit("/healthz");
    reveal_strlit("/client-log");
    reveal_strlit("/bridge/");
    assert("/index.html"@[1] == 'i' && "/styles.css"@[1] == 's' && "/client-log"@[1] == 'c');
    assert("/healthz"@[1] == 'h' && "/bridge/"@[1] == 'b');
    assert("/index.html"@.take(8)[1] == 'i');
    assert("/styles.css"@.take(8)[1] == 's');
    assert("/client-log"@.take(8)[1] == 'c');
    assert("/healthz"@.take(8)[1] == 'h');
}

/// Each path of the page leads to its file, the health check answers that all is well, and any
/// other path outside the bridge is answered that nothing is there. Where only the head is asked
/// for, only the head is answered. What a client reports is taken where it is posted.
pub proof fn pages_are_found_by_their_paths(head: bool, path: Seq<char>)
    ensures
        ({
            let method = method_of(head);
            let plain = |status: HttpStatus, body: Seq<char>| WebRouteView::Respond(
                HttpResponseView {
                    status,
                    content_type: ContentType::Plain,
                    body,
                    headers_only: head,
                },
            );
            &&& web_route(method, "/"@) == WebRouteView::Asset(WebAsset::Index, head)
            &&& web_route(method, "/index.html"@) == WebRouteView::Asset(WebAsset::Index, head)
            &&& web_route(method, "/app.js"@) == WebRouteView::Asset(WebAsset::Script, head)
            &&& web_route(method, "/styles.css"@) == WebRouteView::Asset(WebAsset::Styles, head)
            &&& web_route(method, "/healthz"@) == plain(HttpStatus::Okay, "ok\n"@)
            &&& !begins_with(path, "/bridge/"@) && path != "/"@ && path != "/index.html"@ && path
                != "/app.js"@ && path != "/styles.css"@ && path != "/healthz"@ ==> web_route(
                method,
                path,
            ) == plain(HttpStatus::NotFound, "not found\n"@)
            &&& web_route("POST"@, "/client-log"@) is ClientLog
            &&& web_route(method, path) !is ClientLog
        }),
        asset_type(WebAsset::Index) == ContentType::Html,
        asset_type(WebAsset::Script) == ContentType::Javascript,
        asset_type(WebAsset::Styles) == ContentType::Css,
{
    lemma_methods();
    lemma_web_paths();
}

/// A method that is not for the page is answered so, in plain text.
pub proof fn refusals_of_methods_say_so(method: Seq<char>, path: Seq<char>)
    requires
        method != "GET"@,
        method != "HEAD"@,
        !begins_with(path, "/bridge/"@),
        path != "/client-log"@,
    ensures
        web_route(method, path) == WebRouteView::Respond(
            (HttpResponseView {
                status: HttpStatus::MethodNotAllowed,
                content_type: ContentType::Plain,
                body: "method not allowed"@,
                headers_only: false,
            }),
        ),
{
}

/// The ports are the numbers from 1 to 65535, and each is read as it is written.
pub proof fn ports_are_read_as_they_are_written(name: Seq<char>, number: nat, value: Seq<char>)
    ensures
        1 <= number <= 65535 ==> port_setting(name, decimal(number)) == Ok::<int, Seq<char>>(
            number as int,
        ),
        port_setting(name, decimal(0)) == Err::<int, Seq<char>>(name + " must be in 1..=65535"@),
        port_setting(name, value) matches Ok(port) ==> 1 <= port <= 65535 && unsigned_value(value)
            == Some(port as nat),
        unsigned_value(value) is None || unsigned_value(value)->0 > 65535 ==> port_setting(
            name,
            value,
        ) == Err::<int, Seq<char>>(
            "invalid "@ + name + " "@ + debug_text(value) + ": "@ + u16_error(value),
        ),
{
    lemma_decimal_value(number);
    lemma_decimal_value(0);
}

/// A report is a trace of USB traffic where it holds a message that tells of bytes going out or
/// coming in, wherever in it that stands.
pub proof fn traces_are_told_by_their_message(before: Seq<char>, after: Seq<char>)
    ensures
        is_usb_trace(before + "\"message\":\"USB OUT "@ + after),
        is_usb_trace(before + "\"message\":\"USB IN "@ + after),
        forall|report: Seq<char>| #[trigger]
            is_usb_trace(report) ==> contains_text(report, "\"message\":\"USB OUT "@)
                || contains_text(report, "\"message\":\"USB IN "@),
{
    contained_texts_stand_between_others(before, "\"message\":\"USB OUT "@, after, before);
    contained_texts_stand_between_others(before, "\"message\":\"USB IN "@, after, before);
}

} // verus!
