use docker_git_android_connection::bridge::{
    find_bridge_route, handle_bridge_request, wanted_stat, BridgeCommandRequest,
    BridgeCommandResult, BridgeEvent, BridgeReply, BridgeRoute, BridgeState, FileStat,
    MAX_WEB_BRIDGE_BODY_BYTES, MAX_WEB_CLIENT_LOG_BYTES,
};
use docker_git_android_connection::http::{
    content_length_exec, http_header_value, http_request, http_response_head, is_local_http_host,
    parse_http_response, parse_http_url, read_web_request, web_url, BodyReader, ContentType,
    HttpResponse, HttpStatus,
};
use docker_git_android_connection::json::{object_text, parse_json, Json};
use docker_git_android_connection::paths::file_name_exec;
use docker_git_android_connection::phone::{
    bridge_url, finish_phone_adb, phone_output, run_phone_bridge_command, PhoneJob, PhoneStep,
    DEFAULT_PHONE_BRIDGE_URL,
};
use docker_git_android_connection::web::{
    asset_response, client_log, handle_web_client, web, WebArgs, WebAsset, WebPlan, WebRoute,
};

fn texts(values: &[&str]) -> Vec<String> {
    values.iter().map(|value| value.to_string()).collect()
}

fn from_client(client: &str) -> Vec<u8> {
    format!("GET /x HTTP/1.1\r\nHost: a\r\nX-Bridge-Client-Id: {client}\r\n\r\n").into_bytes()
}

fn from_host(host: &str) -> Vec<u8> {
    format!("POST /bridge/commands HTTP/1.1\r\nhost: {host}\r\n\r\n").into_bytes()
}

fn response(reply: BridgeReply) -> (u16, String) {
    match reply {
        BridgeReply::Respond(response) => (response.status.code(), response.body),
        other => panic!("no response: {other:?}"),
    }
}

fn open(bridge: &mut BridgeState) -> String {
    let (status, body) = response(handle_bridge_request(bridge, b"", BridgeEvent::OpenSession));
    assert_eq!(status, 200);
    let json = parse_json(&body).unwrap();
    json.get("clientId").and_then(Json::as_str).unwrap().to_string()
}

fn command(args: &[&str], file_path: Option<&str>) -> BridgeCommandRequest {
    BridgeCommandRequest {
        kind: "adb".to_string(),
        args: texts(args),
        file_path: file_path.map(|path| path.to_string()),
    }
}

fn result(id: &str) -> BridgeCommandResult {
    BridgeCommandResult {
        id: id.to_string(),
        exit_code: Some(0),
        stdout: Some("out".to_string()),
        stdout_base64: None,
        stderr: None,
        error: None,
    }
}

fn enqueue(bridge: &mut BridgeState, args: &[&str]) -> (u16, String) {
    response(handle_bridge_request(
        bridge,
        b"",
        BridgeEvent::Enqueue(command(args, None), FileStat::Unasked),
    ))
}

fn get_result(bridge: &mut BridgeState, id: &str) -> (u16, String) {
    response(handle_bridge_request(
        bridge,
        b"",
        BridgeEvent::GetResult(id.to_string()),
    ))
}

#[test]
fn commands_come_out_in_order() {
    let mut bridge = BridgeState::new();
    let client = open(&mut bridge);
    assert_eq!(client, "client-1");
    assert_eq!(
        enqueue(&mut bridge, &["a"]),
        (200, "{\"id\":\"1\",\"status\":\"queued\"}".to_string())
    );
    assert_eq!(
        enqueue(&mut bridge, &["b", "c"]),
        (200, "{\"id\":\"2\",\"status\":\"queued\"}".to_string())
    );
    let initial = from_client(&client);
    let next = |bridge: &mut BridgeState| {
        response(handle_bridge_request(bridge, &initial, BridgeEvent::NextCommand))
    };
    assert_eq!(
        next(&mut bridge),
        (
            200,
            "{\"command\":{\"args\":[\"a\"],\"id\":\"1\",\"kind\":\"adb\"}}".to_string()
        )
    );
    assert_eq!(
        next(&mut bridge),
        (
            200,
            "{\"command\":{\"args\":[\"b\",\"c\"],\"id\":\"2\",\"kind\":\"adb\"}}".to_string()
        )
    );
    assert_eq!(next(&mut bridge), (200, "{\"command\":null}".to_string()));
    assert!(bridge.has_ids_left());
}

#[test]
fn a_new_session_ends_the_old_one() {
    let mut bridge = BridgeState::new();
    let old = open(&mut bridge);
    let new = open(&mut bridge);
    assert_eq!(new, "client-2");
    enqueue(&mut bridge, &["a"]);
    let stale = "{\"error\":\"staleClient\",\"message\":\"another browser tab owns the active bridge session\"}";
    let (status, body) = response(handle_bridge_request(
        &mut bridge,
        &from_client(&old),
        BridgeEvent::NextCommand,
    ));
    assert_eq!((status, body.as_str()), (409, stale));
    let (status, _) = response(handle_bridge_request(
        &mut bridge,
        &from_client(&old),
        BridgeEvent::PostResult(result("1")),
    ));
    assert_eq!(status, 409);
    assert_eq!(get_result(&mut bridge, "1").0, 202);
    let (status, body) = response(handle_bridge_request(
        &mut bridge,
        &from_client(&new),
        BridgeEvent::NextCommand,
    ));
    assert_eq!(status, 200);
    assert!(body.contains("\"id\":\"1\""));
}

#[test]
fn a_bridge_without_a_session_serves_nameless_clients() {
    let mut bridge = BridgeState::new();
    let (status, body) = response(handle_bridge_request(
        &mut bridge,
        b"GET / HTTP/1.1\r\n\r\n",
        BridgeEvent::NextCommand,
    ));
    assert_eq!((status, body.as_str()), (200, "{\"command\":null}"));
    let (status, _) = response(handle_bridge_request(
        &mut bridge,
        &from_client("client-1"),
        BridgeEvent::NextCommand,
    ));
    assert_eq!(status, 409);
}

#[test]
fn results_are_read_back() {
    let mut bridge = BridgeState::new();
    let client = open(&mut bridge);
    enqueue(&mut bridge, &["a"]);
    assert_eq!(
        get_result(&mut bridge, "1"),
        (202, "{\"id\":\"1\",\"pending\":true}".to_string())
    );
    let (status, body) = response(handle_bridge_request(
        &mut bridge,
        &from_client(&client),
        BridgeEvent::PostResult(result("1")),
    ));
    assert_eq!((status, body.as_str()), (204, ""));
    let written = "{\"id\":\"1\",\"exitCode\":0,\"stdout\":\"out\",\"stdoutBase64\":null,\"stderr\":null,\"error\":null}";
    assert_eq!(get_result(&mut bridge, "1"), (200, written.to_string()));
    enqueue(&mut bridge, &["b"]);
    open(&mut bridge);
    assert_eq!(get_result(&mut bridge, "1"), (200, written.to_string()));
}

#[test]
fn files_are_served_until_the_result() {
    let mut bridge = BridgeState::new();
    let client = open(&mut bridge);
    let request = command(&["install", "/tmp/x/app.apk"], Some("/tmp/x/app.apk"));
    let initial = from_host("localhost:8080");
    assert_eq!(
        wanted_stat(&initial, &request),
        Some("/tmp/x/app.apk".to_string())
    );
    let stat = FileStat::Found {
        is_file: true,
        size: 42,
    };
    let (status, _) = response(handle_bridge_request(
        &mut bridge,
        &initial,
        BridgeEvent::Enqueue(request, stat),
    ));
    assert_eq!(status, 200);
    let file = |bridge: &mut BridgeState| {
        handle_bridge_request(bridge, b"", BridgeEvent::GetFile("1".to_string()))
    };
    match file(&mut bridge) {
        BridgeReply::SendFile(path) => assert_eq!(path, "/tmp/x/app.apk"),
        other => panic!("no file: {other:?}"),
    }
    let (_, body) = response(handle_bridge_request(
        &mut bridge,
        &from_client(&client),
        BridgeEvent::NextCommand,
    ));
    assert!(body.contains(
        "\"file\":{\"name\":\"app.apk\",\"size\":42,\"url\":\"/bridge/commands/file/1\"}"
    ));
    handle_bridge_request(
        &mut bridge,
        &from_client(&client),
        BridgeEvent::PostResult(result("1")),
    );
    assert_eq!(
        response(file(&mut bridge)),
        (404, "file not found\n".to_string())
    );
}

#[test]
fn files_come_from_this_machine() {
    let mut bridge = BridgeState::new();
    let initial = from_host("example.org");
    assert_eq!(wanted_stat(&initial, &command(&[], Some("/a"))), None);
    assert_eq!(wanted_stat(&from_host("localhost"), &command(&[], None)), None);
    assert_eq!(
        response(handle_bridge_request(
            &mut bridge,
            &initial,
            BridgeEvent::Enqueue(command(&[], Some("/a")), FileStat::Unasked),
        )),
        (
            403,
            "file attachments must be enqueued from localhost\n".to_string()
        )
    );
    assert_eq!(bridge.next_id, 0);
}

#[test]
fn a_file_that_is_none_uses_up_an_id() {
    let mut bridge = BridgeState::new();
    let initial = from_host("127.0.0.1");
    for (stat, message) in [
        (FileStat::Unasked, "bridge file attachment was not looked up"),
        (FileStat::Failed("no such file".to_string()), "no such file"),
        (
            FileStat::Found {
                is_file: false,
                size: 0,
            },
            "bridge file attachment is not a regular file",
        ),
    ] {
        match handle_bridge_request(
            &mut bridge,
            &initial,
            BridgeEvent::Enqueue(command(&[], Some("/a")), stat),
        ) {
            BridgeReply::Fail(text) => assert_eq!(text, message),
            other => panic!("unexpected reply {other:?}"),
        }
    }
    assert_eq!(bridge.next_id, 3);
    assert_eq!(bridge.queue.len(), 0);
    assert!(enqueue(&mut bridge, &[]).1.contains("\"id\":\"4\""));
}

#[test]
fn file_names_are_the_last_parts() {
    assert_eq!(file_name_exec("/a/b.apk"), Some("b.apk".to_string()));
    assert_eq!(file_name_exec("b"), Some("b".to_string()));
    assert_eq!(file_name_exec("/a/b//./"), Some("b".to_string()));
    assert_eq!(file_name_exec("/a/.."), None);
    assert_eq!(file_name_exec("/"), None);
    assert_eq!(file_name_exec("."), None);
    assert_eq!(file_name_exec(""), None);
}

#[test]
fn bridge_paths_are_routed() {
    let route = |method, path| find_bridge_route(method, path);
    assert!(matches!(
        route("POST", "/bridge/client/session"),
        BridgeRoute::OpenSession
    ));
    assert!(matches!(route("POST", "/bridge/commands"), BridgeRoute::Enqueue));
    assert!(route("POST", "/bridge/commands").has_body());
    assert!(matches!(
        route("GET", "/bridge/commands/next"),
        BridgeRoute::NextCommand
    ));
    assert!(!route("GET", "/bridge/commands/next").has_body());
    assert!(matches!(
        route("POST", "/bridge/commands/result"),
        BridgeRoute::PostResult
    ));
    assert!(matches!(route("GET", "/bridge/commands"), BridgeRoute::Unknown));
    match route("GET", "/bridge/commands/result/12") {
        BridgeRoute::GetResult(id) => assert_eq!(id, "12"),
        other => panic!("unexpected route {other:?}"),
    }
    match route(
        "GET",
        "/bridge/commands/result//bridge/commands/result/12",
    ) {
        BridgeRoute::GetResult(id) => assert_eq!(id, "12"),
        other => panic!("unexpected route {other:?}"),
    }
    match route("GET", "/bridge/commands/file/7") {
        BridgeRoute::GetFile(id) => assert_eq!(id, "7"),
        other => panic!("unexpected route {other:?}"),
    }
    let mut bridge = BridgeState::new();
    assert_eq!(
        response(handle_bridge_request(&mut bridge, b"", BridgeEvent::Unknown)),
        (404, "not found\n".to_string())
    );
}

#[test]
fn pages_are_routed() {
    let route = |line: &str| handle_web_client(format!("{line}\r\n\r\n").as_bytes());
    assert!(matches!(
        route("GET /?x=1 HTTP/1.1"),
        WebRoute::Asset(WebAsset::Index, false)
    ));
    assert!(matches!(
        route("HEAD /index.html HTTP/1.1"),
        WebRoute::Asset(WebAsset::Index, true)
    ));
    assert!(matches!(
        route("GET /app.js HTTP/1.1"),
        WebRoute::Asset(WebAsset::Script, false)
    ));
    assert!(matches!(
        route("GET /styles.css HTTP/1.1"),
        WebRoute::Asset(WebAsset::Styles, false)
    ));
    assert!(matches!(route("POST /client-log HTTP/1.1"), WebRoute::ClientLog));
    assert!(matches!(
        route("PUT /bridge/commands HTTP/1.1"),
        WebRoute::Bridge(BridgeRoute::Unknown)
    ));
    for (line, status, body, headers_only) in [
        ("GET /healthz HTTP/1.1", 200, "ok\n", false),
        ("GET /nope HTTP/1.1", 404, "not found\n", false),
        ("HEAD /nope HTTP/1.1", 404, "not found\n", true),
        ("PUT / HTTP/1.1", 405, "method not allowed", false),
        ("", 405, "method not allowed", false),
    ] {
        match route(line) {
            WebRoute::Respond(response) => {
                assert_eq!(response.status.code(), status);
                assert_eq!(response.body, body);
                assert_eq!(response.headers_only, headers_only);
            }
            other => panic!("unexpected route {other:?}"),
        }
    }
    assert!(matches!(route("GET"), WebRoute::Asset(WebAsset::Index, false)));
}

#[test]
fn assets_have_their_types() {
    for (asset, text) in [
        (WebAsset::Index, "text/html; charset=utf-8"),
        (WebAsset::Script, "text/javascript; charset=utf-8"),
        (WebAsset::Styles, "text/css; charset=utf-8"),
    ] {
        let response = asset_response(asset, "x".to_string(), true);
        assert_eq!(response.content_type.text(), text);
        assert_eq!(response.body, "x");
        assert!(response.text().ends_with("\r\n\r\n"));
        assert!(response.text().contains("Content-Length: 1\r\n"));
    }
}

#[test]
fn usb_traces_are_not_logged() {
    let (line, response) = client_log("{\"message\":\"USB OUT 12\"}");
    assert_eq!(line, None);
    assert_eq!(response.status.code(), 204);
    assert_eq!(client_log("{\"message\":\"USB IN 12\"}").0, None);
    assert_eq!(
        client_log("{\"message\":\"USB\"}").0,
        Some("web client log: {\"message\":\"USB\"}".to_string())
    );
}

#[test]
fn web_urls_are_for_browsers() {
    assert_eq!(web_url("127.0.0.1", 80), "http://127.0.0.1:80/");
    assert_eq!(web_url("0.0.0.0", 80), "http://127.0.0.1:80/");
    assert_eq!(web_url("::", 80), "http://127.0.0.1:80/");
    assert_eq!(web_url("::1", 80), "http://[::1]:80/");
    assert_eq!(web_url("[::1]", 80), "http://[::1]:80/");
    match web(&WebArgs {
        bind_host: "h".to_string(),
        port: 9,
        dry_run: false,
    }) {
        WebPlan::Serve(url) => assert_eq!(url, "http://h:9/"),
        other => panic!("unexpected plan {other:?}"),
    }
}

#[test]
fn urls_are_taken_apart() {
    let parts = |url: &str| {
        let parsed = parse_http_url(url).expect("URL");
        (parsed.host, parsed.port, parsed.path)
    };
    let owned = |host: &str, port, path: &str| (host.to_string(), port, path.to_string());
    assert_eq!(parts("http://h:90/a/b?c"), owned("h", 90, "/a/b?c"));
    assert_eq!(parts("http://h"), owned("h", 8080, "/"));
    assert_eq!(parts("http://h:x/"), owned("h", 8080, "/"));
    assert_eq!(parts("http://h:70000/"), owned("h", 8080, "/"));
    assert_eq!(parts("http://[::1]:5/p"), owned("[::1]", 5, "/p"));
    assert_eq!(
        parse_http_url("https://h").unwrap_err(),
        "phone bridge only supports http:// URLs"
    );
    assert_eq!(
        parse_http_url("http://:80/").unwrap_err(),
        "phone bridge URL host must not be empty"
    );
    assert_eq!(bridge_url("http://h//", "/x"), "http://h/x");
}

#[test]
fn requests_are_read_back() {
    let url = parse_http_url("http://localhost:8080/bridge/commands").unwrap();
    let text = http_request("POST", &url, "{\"\u{e9}\":1}");
    assert_eq!(
        text,
        "POST /bridge/commands HTTP/1.1\r\nHost: localhost\r\nContent-Type: application/json\r\nAccept: application/json\r\nContent-Length: 8\r\nConnection: close\r\n\r\n{\"\u{e9}\":1}"
    );
    let bytes = text.as_bytes();
    let request = read_web_request(bytes);
    assert_eq!(request.method, "POST");
    assert_eq!(request.route_path, "/bridge/commands");
    assert_eq!(http_header_value(bytes, "HOST"), Some("localhost".to_string()));
    assert_eq!(http_header_value(bytes, "x-other"), None);
    assert_eq!(content_length_exec(bytes), 8);
    let head = bytes.len() - 8;
    for cut in head..bytes.len() {
        let mut reader = BodyReader::new(&bytes[..cut], MAX_WEB_BRIDGE_BODY_BYTES);
        assert_eq!(reader.wanted(), bytes.len() - cut);
        reader.feed(&bytes[cut..]);
        assert_eq!(reader.wanted(), 0);
        assert_eq!(reader.finish(), "{\"\u{e9}\":1}");
    }
}

#[test]
fn bodies_are_put_together() {
    let initial = b"POST / HTTP/1.1\r\nContent-Length: 10\r\n\r\nab";
    let mut reader = BodyReader::new(initial, MAX_WEB_CLIENT_LOG_BYTES);
    let chunks: [&[u8]; 5] = [b"c", b"", b"def", b"ghi", b"j"];
    for chunk in chunks {
        assert_ne!(reader.wanted(), 0);
        reader.feed(chunk);
    }
    assert_eq!(reader.wanted(), 0);
    assert_eq!(reader.body, b"abcdefghij");
    assert_eq!(reader.finish(), "abcdefghij");
}

#[test]
fn bodies_are_cut_at_the_limit() {
    let initial = b"POST / HTTP/1.1\r\nContent-Length: x\r\ncontent-length: 20000\r\n\r\nab";
    let mut reader = BodyReader::new(initial, MAX_WEB_CLIENT_LOG_BYTES);
    assert_eq!(reader.target, 16384);
    assert_eq!(reader.wanted(), 4096);
    reader.feed(&vec![b'c'; 4096]);
    assert_eq!(reader.finish().len(), 4098);
    let short = BodyReader::new(b"POST / HTTP/1.1\r\nContent-Length: 1\r\n\r\nab", 10);
    assert_eq!(short.finish(), "a");
    let none = BodyReader::new(b"POST / HTTP/1.1\r\n\r\nab", 10);
    assert_eq!(none.finish(), "");
    assert_eq!(none.wanted(), 0);
}

#[test]
fn responses_are_read_back() {
    for (status, code) in [
        (HttpStatus::Okay, 200),
        (HttpStatus::Accepted, 202),
        (HttpStatus::NoContent, 204),
        (HttpStatus::Forbidden, 403),
        (HttpStatus::NotFound, 404),
        (HttpStatus::MethodNotAllowed, 405),
        (HttpStatus::Conflict, 409),
    ] {
        let response = HttpResponse {
            status,
            content_type: ContentType::Json,
            body: "{\"\u{1f600}\":\"\r\n\r\n\"}".to_string(),
            headers_only: false,
        };
        assert_eq!(
            parse_http_response(response.text().as_bytes()),
            Ok((code, response.body.clone()))
        );
    }
    assert_eq!(
        http_response_head(HttpStatus::Okay, ContentType::Apk, 9),
        "HTTP/1.1 200 OK\r\nContent-Type: application/vnd.android.package-archive\r\nContent-Length: 9\r\nCache-Control: no-store\r\nConnection: close\r\n\r\n"
    );
}

#[test]
fn broken_responses_are_refused() {
    assert_eq!(
        parse_http_response(b"HTTP/1.1 200 OK\r\n"),
        Err("invalid HTTP response: missing header terminator".to_string())
    );
    assert_eq!(
        parse_http_response(b"HTTP/1.1\r\n\r\n"),
        Err("invalid HTTP response: missing status code".to_string())
    );
    assert_eq!(
        parse_http_response(b"HTTP/1.1 OK\r\n\r\n"),
        Err("invalid digit found in string".to_string())
    );
    assert_eq!(
        parse_http_response(b"X 7\r\n\r\n\xff"),
        Ok((7, "\u{fffd}".to_string()))
    );
}

#[test]
fn local_hosts_are_known() {
    for host in ["127.0.0.1", "127.0.0.1:80", "localhost:8080", "[::1]", "[::1]:90"] {
        assert!(is_local_http_host(Some(host)));
    }
    for host in ["", "::1", "example.org", "127.0.0.1.example.org", "[localhost", "Localhost"] {
        assert!(!is_local_http_host(Some(host)));
    }
    assert!(is_local_http_host(Some("[localhost]")));
    assert!(!is_local_http_host(None));
}

fn polling(job: PhoneJob, reply: &str) -> PhoneJob {
    match job.advance(200, reply.to_string()) {
        PhoneStep::Next(job) => job,
        other => panic!("unexpected step {other:?}"),
    }
}

#[test]
fn a_command_is_handed_over_and_waited_for() {
    let job = run_phone_bridge_command(
        "http://127.0.0.1:18080/",
        "adb",
        &texts(&["install", "a.apk"]),
        &Some("a.apk".to_string()),
    );
    let request = job.request().expect("request");
    assert_eq!((request.host.as_str(), request.port), ("127.0.0.1", 18080));
    assert!(request.text.starts_with("POST /bridge/commands HTTP/1.1\r\n"));
    assert!(request.text.ends_with(
        "\r\n\r\n{\"args\":[\"install\",\"a.apk\"],\"filePath\":\"a.apk\",\"kind\":\"adb\"}"
    ));
    assert_eq!(job.timed_out(1_000_000), None);
    let job = polling(job, "{\"id\":\"5\",\"status\":\"queued\"}");
    let request = job.request().expect("request");
    assert!(request.text.starts_with("GET /bridge/commands/result/5 HTTP/1.1\r\n"));
    assert_eq!(job.timed_out(899_999), None);
    assert_eq!(
        job.timed_out(900_000),
        Some("timed out waiting for phone bridge command 5; keep the browser tab open and connected".to_string())
    );
    let job = match job.advance(202, "{}".to_string()) {
        PhoneStep::Wait(job) => job,
        other => panic!("unexpected step {other:?}"),
    };
    match job.advance(200, "{\"id\":\"5\"}".to_string()) {
        PhoneStep::Finished(text) => assert_eq!(text, "{\"id\":\"5\"}"),
        other => panic!("unexpected step {other:?}"),
    }
}

#[test]
fn a_command_ends_with_the_error_of_the_bridge() {
    let start = || run_phone_bridge_command(DEFAULT_PHONE_BRIDGE_URL, "adb", &[], &None);
    let failure = |step: PhoneStep| match step {
        PhoneStep::Failed(message) => message,
        other => panic!("unexpected step {other:?}"),
    };
    assert_eq!(
        failure(start().advance(500, "oops".to_string())),
        "bridge enqueue failed with HTTP 500: oops"
    );
    assert_eq!(
        failure(start().advance(200, "{\"id\":5}".to_string())),
        "bridge response did not include command id"
    );
    assert_eq!(
        failure(start().advance(200, "{".to_string())),
        "EOF while parsing an object at line 1 column 1"
    );
    assert_eq!(
        failure(polling(start(), "{\"id\":\"1\"}").advance(404, "gone".to_string())),
        "bridge result failed with HTTP 404: gone"
    );
    let lost = run_phone_bridge_command("ftp://h", "adb", &[], &None);
    assert_eq!(
        lost.request().unwrap_err(),
        "phone bridge only supports http:// URLs"
    );
}

#[test]
fn results_are_written_out() {
    let mut left = result("1");
    left.stderr = Some("warn".to_string());
    left.exit_code = None;
    let output = finish_phone_adb(&left).unwrap();
    assert_eq!(output.stderr, "warn");
    assert_eq!(output.stdout, Ok(b"out".to_vec()));
    assert_eq!(output.exit_code, 0);
    left.stdout_base64 = Some("aGkK".to_string());
    left.exit_code = Some(3);
    let output = finish_phone_adb(&left).unwrap();
    assert_eq!(output.stdout, Ok(b"hi\n".to_vec()));
    assert_eq!(output.exit_code, 3);
    left.stdout_base64 = Some("!".to_string());
    let output = finish_phone_adb(&left).unwrap();
    assert_eq!(output.stderr, "warn");
    assert_eq!(output.stdout, Err("Invalid symbol 33, offset 0.".to_string()));
    let output = phone_output(&left, Ok(vec![1])).unwrap();
    assert_eq!(output.stdout, Ok(vec![1]));
    left.error = Some("device lost".to_string());
    assert_eq!(finish_phone_adb(&left).unwrap_err(), "device lost");
}

#[test]
fn json_is_read_and_written() {
    let text = "{\"b\":[null,true,-1,2.50,\"x\"],\"a\":{}}";
    let json = parse_json(text).unwrap();
    assert_eq!(json.compact(), "{\"a\":{},\"b\":[null,true,-1,2.5,\"x\"]}");
    assert_eq!(
        parse_json("[1]").unwrap().pretty(),
        "[\n  1\n]"
    );
    assert_eq!(json.get("c"), None);
    let nested = parse_json("{\"a\":[{\"b\":\"\\u0001\\n\u{1f600}\"},-9223372036854775808]}").unwrap();
    assert_eq!(parse_json(&nested.compact()), Ok(nested));
    assert_eq!(Json::Fraction("1e400".to_string()).compact(), "null");
    let twice = Json::Object(vec![
        ("k".to_string(), Json::Unsigned(1)),
        ("k".to_string(), Json::Signed(-2)),
    ]);
    assert_eq!(twice.compact(), "{\"k\":-2}");
    assert_eq!(twice.get("k").and_then(Json::as_i64), Some(-2));
    let thrice = Json::Object(vec![
        ("k".to_string(), Json::Unsigned(1)),
        ("b".to_string(), Json::Bool(true)),
        ("k".to_string(), Json::Unsigned(2)),
        ("a".to_string(), Json::Null),
        ("k".to_string(), Json::Unsigned(3)),
        ("b".to_string(), Json::Bool(false)),
    ]);
    assert_eq!(thrice.compact(), "{\"a\":null,\"b\":false,\"k\":3}");
    assert_eq!(
        object_text(&vec![
            ("z".to_string(), Json::Text("\"".to_string())),
            ("a".to_string(), Json::Null),
        ]),
        "{\"z\":\"\\\"\",\"a\":null}"
    );
}

/// Sends a request to the bridge as the connector serves it.
fn exchange(bridge: &mut BridgeState, text: &str) -> (u16, String) {
    let initial = text.as_bytes();
    let route = match handle_web_client(initial) {
        WebRoute::Bridge(route) => route,
        other => panic!("not for the bridge: {other:?}"),
    };
    let body = BodyReader::new(initial, MAX_WEB_BRIDGE_BODY_BYTES).finish();
    let event = match route {
        BridgeRoute::Enqueue => {
            let json = parse_json(&body).expect("command");
            let text = |value: &Json| value.as_str().expect("text").to_string();
            let args = match json.get("args") {
                Some(Json::List(items)) => items.iter().map(text).collect(),
                other => panic!("no arguments: {other:?}"),
            };
            let request = BridgeCommandRequest {
                kind: json.get("kind").map(text).expect("kind"),
                args,
                file_path: json.get("filePath").map(text),
            };
            assert!(wanted_stat(initial, &request).is_some());
            let stat = FileStat::Found {
                is_file: true,
                size: 1,
            };
            BridgeEvent::Enqueue(request, stat)
        }
        BridgeRoute::GetResult(id) => BridgeEvent::GetResult(id),
        other => panic!("unexpected route {other:?}"),
    };
    match handle_bridge_request(bridge, initial, event) {
        BridgeReply::Respond(response) => {
            parse_http_response(response.text().as_bytes()).expect("response")
        }
        other => panic!("no response: {other:?}"),
    }
}

#[test]
fn a_command_goes_to_the_phone_and_back() {
    let mut bridge = BridgeState::new();
    let client = open(&mut bridge);
    let job = run_phone_bridge_command(
        "http://localhost:8080",
        "adb",
        &texts(&["install", "\u{e9}.apk"]),
        &Some("\u{e9}.apk".to_string()),
    );
    let (status, body) = exchange(&mut bridge, &job.request().unwrap().text);
    let job = match job.advance(status, body) {
        PhoneStep::Next(job) => job,
        other => panic!("unexpected step {other:?}"),
    };
    let (status, body) = exchange(&mut bridge, &job.request().unwrap().text);
    let job = match job.advance(status, body) {
        PhoneStep::Wait(job) => job,
        other => panic!("unexpected step {other:?}"),
    };
    handle_bridge_request(
        &mut bridge,
        &from_client(&client),
        BridgeEvent::PostResult(result("1")),
    );
    let (status, body) = exchange(&mut bridge, &job.request().unwrap().text);
    match job.advance(status, body) {
        PhoneStep::Finished(text) => {
            let json = parse_json(&text).unwrap();
            assert_eq!(json.get("id").and_then(Json::as_str), Some("1"));
            assert_eq!(json.get("exitCode").and_then(Json::as_i64), Some(0));
        }
        other => panic!("unexpected step {other:?}"),
    }
}
