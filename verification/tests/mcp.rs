use docker_git_android_connection::docker_command::ProcessOutput;
use docker_git_android_connection::frames::{
    frame, parse_content_length, read_next_message, Reading,
};
use docker_git_android_connection::json::{parse_json, Json};
use docker_git_android_connection::mcp::{
    handle_request, handle_tools_call, invalid_request_reply, output_to_text, screenshot_saved,
    workspace_path, Handling, JsonRpcRequest, McpState, McpToolError, ToolStep,
};
use docker_git_android_connection::{
    android_spec, android_tools, DEFAULT_ANDROID_IMAGE, SERVER_NAME,
};

fn test_state() -> McpState {
    McpState {
        spec: android_spec(
            "dg-test",
            "docker-git-shared",
            "dg-test-android:5555",
            DEFAULT_ANDROID_IMAGE,
        )
        .expect("valid android spec"),
        workspace: "/workspace".to_string(),
        adb_probe: false,
        allow_install: false,
    }
}

fn copied(json: &Json) -> Json {
    parse_json(&json.compact()).expect("written JSON")
}

fn present(json: Option<&Json>) -> Option<Json> {
    json.filter(|value| **value != Json::Null).map(copied)
}

/// Reads requests out of a stream, and writes the replies to another.
fn serve(input: &[u8], state: &McpState) -> Vec<u8> {
    let mut rest = input;
    let mut output = Vec::new();
    loop {
        let (text, used) = match read_next_message(rest, true) {
            Reading::Message(text, used) => (text, used),
            Reading::End => return output,
            other => panic!("unexpected reading {other:?}"),
        };
        rest = &rest[used..];
        let reply = match parse_json(&text) {
            Err(error) => Some(invalid_request_reply(&error)),
            Ok(json) => {
                let request = JsonRpcRequest {
                    id: present(json.get("id")),
                    method: json.get("method").and_then(Json::as_str).unwrap().to_string(),
                    params: present(json.get("params")),
                };
                match handle_request(request, state) {
                    Handling::NoReply => None,
                    Handling::Reply(reply) => Some(reply),
                    Handling::Run(..) => panic!("ADB is run"),
                }
            }
        };
        if let Some(reply) = reply {
            output.extend_from_slice(frame(&reply.compact()).as_bytes());
        }
    }
}

fn request(method: &str, params: &str) -> JsonRpcRequest {
    JsonRpcRequest {
        id: Some(Json::Unsigned(7)),
        method: method.to_string(),
        params: Some(parse_json(params).unwrap()),
    }
}

fn call(state: &McpState, name: &str, arguments: &str) -> Handling {
    let params = format!("{{\"name\":\"{name}\",\"arguments\":{arguments}}}");
    handle_request(request("tools/call", &params), state)
}

fn reply_text(handling: Handling) -> (String, bool) {
    let reply = match handling {
        Handling::Reply(reply) => reply,
        other => panic!("no reply: {other:?}"),
    };
    let reply: serde_json::Value = serde_json::from_str(&reply.compact()).unwrap();
    assert_eq!(reply["jsonrpc"], "2.0");
    assert_eq!(reply["id"], 7);
    assert_eq!(reply["result"]["content"][0]["type"], "text");
    (
        reply["result"]["content"][0]["text"].as_str().unwrap().to_string(),
        reply["result"]["isError"].as_bool().unwrap(),
    )
}

fn adb_args(state: &McpState, name: &str, arguments: &str) -> Vec<String> {
    let run = match call(state, name, arguments) {
        Handling::Run(id, run) => {
            assert_eq!(id, Json::Unsigned(7));
            run
        }
        other => panic!("no run: {other:?}"),
    };
    assert_eq!(run.args(), ["connect", "dg-test-android:5555"]);
    match run.advance(Ok(output(Some(0), "", ""))) {
        ToolStep::Next(run) => run.args(),
        other => panic!("unexpected step {other:?}"),
    }
}

fn probing() -> McpState {
    let mut state = test_state();
    state.adb_probe = true;
    state.allow_install = true;
    state
}

fn output(code: Option<i32>, stdout: &str, stderr: &str) -> ProcessOutput {
    ProcessOutput {
        code,
        stdout: stdout.as_bytes().to_vec(),
        stderr: stderr.as_bytes().to_vec(),
    }
}

#[test]
fn advertises_android_mcp_tools() {
    let names: Vec<&str> = android_tools().into_iter().map(|tool| tool.name).collect();
    assert!(names.contains(&"android_status"));
    assert!(names.contains(&"android_tap"));
    assert!(names.contains(&"android_install_apk"));
    assert_eq!(names.len(), 11);
}

#[test]
fn serves_initialize_and_tools_list_over_framed_stdio() {
    let input = format!(
        "{}{}",
        frame("{\"jsonrpc\":\"2.0\",\"id\":1,\"method\":\"initialize\",\"params\":{}}"),
        frame("{\"jsonrpc\":\"2.0\",\"id\":2,\"method\":\"tools/list\",\"params\":{}}")
    );
    let output = serve(&input.into_bytes(), &test_state());

    let output_text = String::from_utf8(output).expect("valid utf8 output");
    assert!(output_text.contains(SERVER_NAME));
    assert!(output_text.contains("android_status"));
    assert!(output_text.contains("android_tap"));
}

#[test]
fn reports_status_without_adb_when_probe_is_disabled() {
    let input = frame(
        "{\"jsonrpc\":\"2.0\",\"id\":3,\"method\":\"tools/call\",\"params\":{\"name\":\"android_status\",\"arguments\":{}}}",
    );
    let output = serve(&input.into_bytes(), &test_state());

    let output_text = String::from_utf8(output).expect("valid utf8 output");
    assert!(output_text.contains("\"isError\":false"));
    assert!(output_text.contains("adbProbe"));
    assert!(output_text.contains("false"));
    assert!(output_text.contains("dg-test-android"));
}

#[test]
fn rejects_workspace_paths_outside_workspace() {
    let workspace = "/workspace";

    assert!(workspace_path(workspace, "screenshots/current.png").is_ok());
    assert!(workspace_path(workspace, "/tmp/outside.png").is_err());
    assert!(workspace_path(workspace, "../outside.png").is_err());
    assert!(workspace_path(workspace, "screenshots/../outside.png").is_err());
}

#[test]
fn workspace_paths_are_joined() {
    assert_eq!(workspace_path("/w", "a/b.png").unwrap(), "/w/a/b.png");
    assert_eq!(workspace_path("/w/", "a").unwrap(), "/w/a");
    assert_eq!(workspace_path("", "a").unwrap(), "a");
    assert_eq!(workspace_path(".", "..a/b..").unwrap(), "./..a/b..");
    for bad in ["", "/", "..", "a/..", "a/../b", "..//a"] {
        assert_eq!(
            workspace_path("/w", bad).unwrap_err().message(),
            "invalid argument: path must be relative, non-empty, and must not contain '..'"
        );
    }
}

#[test]
fn initialize_names_the_server() {
    let reply = match handle_request(request("initialize", "{}"), &test_state()) {
        Handling::Reply(reply) => reply.compact(),
        other => panic!("unexpected handling {other:?}"),
    };
    assert_eq!(
        reply,
        "{\"id\":7,\"jsonrpc\":\"2.0\",\"result\":{\"capabilities\":{\"tools\":{}},\"protocolVersion\":\"2024-11-05\",\"serverInfo\":{\"name\":\"android-connection\",\"version\":\"0.1.0\"}}}"
    );
}

#[test]
fn tools_are_listed_with_their_schema() {
    let reply = match handle_request(request("tools/list", "{}"), &test_state()) {
        Handling::Reply(reply) => reply.compact(),
        other => panic!("unexpected handling {other:?}"),
    };
    let reply: serde_json::Value = serde_json::from_str(&reply).unwrap();
    let tools = reply["result"]["tools"].as_array().unwrap();
    assert_eq!(tools.len(), 11);
    assert_eq!(tools[3]["name"], "android_tap");
    assert_eq!(tools[3]["description"], "Tap screen coordinates.");
    assert_eq!(tools[3]["inputSchema"]["type"], "object");
    assert_eq!(tools[3]["inputSchema"]["additionalProperties"], true);
}

#[test]
fn replies_carry_any_id() {
    for id in ["\"a\"", "1.5", "-3", "18446744073709551615", "[1]"] {
        let handled = handle_request(
            JsonRpcRequest {
                id: Some(parse_json(id).unwrap()),
                method: "no/such".to_string(),
                params: None,
            },
            &test_state(),
        );
        match handled {
            Handling::Reply(reply) => assert_eq!(
                reply.compact(),
                format!("{{\"error\":{{\"code\":-32601,\"message\":\"method not found: no/such\"}},\"id\":{id},\"jsonrpc\":\"2.0\"}}")
            ),
            other => panic!("unexpected handling {other:?}"),
        }
    }
}

#[test]
fn notifications_are_not_replied_to() {
    let notification = |id: Option<Json>| JsonRpcRequest {
        id,
        method: "notifications/initialized".to_string(),
        params: None,
    };
    assert!(matches!(
        handle_request(notification(None), &test_state()),
        Handling::NoReply
    ));
    assert!(matches!(
        handle_request(notification(Some(Json::Unsigned(1))), &test_state()),
        Handling::Reply(_)
    ));
    let call = JsonRpcRequest {
        id: None,
        method: "tools/list".to_string(),
        params: None,
    };
    match handle_request(call, &test_state()) {
        Handling::Reply(reply) => assert_eq!(reply.get("id"), Some(&Json::Null)),
        other => panic!("unexpected handling {other:?}"),
    }
}

#[test]
fn invalid_requests_are_replied_to() {
    assert_eq!(
        invalid_request_reply("bad").compact(),
        "{\"error\":{\"code\":-32700,\"message\":\"invalid JSON-RPC request: bad\"},\"id\":null,\"jsonrpc\":\"2.0\"}"
    );
    let replies = serve(b"{nonsense\n", &test_state());
    assert!(String::from_utf8(replies).unwrap().contains("-32700"));
}

#[test]
fn no_tool_uses_adb_unless_probing() {
    for (name, arguments) in [
        ("android_devices", "{}"),
        ("android_tap", "{\"x\":1,\"y\":2}"),
        ("android_logcat", "{}"),
        ("android_screenshot", "{}"),
    ] {
        assert_eq!(
            reply_text(call(&test_state(), name, arguments)),
            ("ADB probing is disabled for this server".to_string(), true)
        );
    }
}

#[test]
fn status_prints_the_spec() {
    let (text, is_error) = reply_text(call(&test_state(), "android_status", "{}"));
    assert!(!is_error);
    let status: serde_json::Value = serde_json::from_str(&text).unwrap();
    assert_eq!(status["server"], "android-connection");
    assert_eq!(status["adbProbe"], false);
    assert_eq!(status["spec"]["project_id"], "dg-test");
    assert_eq!(status["spec"]["docker_network"], "docker-git-shared");
    assert_eq!(status["spec"]["image"], DEFAULT_ANDROID_IMAGE);
    assert!(text.starts_with("{\n  \"adbProbe\": false,\n"));
}

#[test]
fn tools_make_adb_arguments() {
    let state = probing();
    assert_eq!(adb_args(&state, "android_devices", "{}"), ["devices"]);
    assert_eq!(
        adb_args(&state, "android_tap", "{\"x\":-1,\"y\":20}"),
        ["shell", "input", "tap", "-1", "20"]
    );
    assert_eq!(
        adb_args(
            &state,
            "android_swipe",
            "{\"startX\":1,\"startY\":2,\"endX\":3,\"endY\":4}"
        ),
        ["shell", "input", "swipe", "1", "2", "3", "4", "300"]
    );
    assert_eq!(
        adb_args(
            &state,
            "android_swipe",
            "{\"startX\":1,\"startY\":2,\"endX\":3,\"endY\":4,\"durationMs\":5}"
        ),
        ["shell", "input", "swipe", "1", "2", "3", "4", "5"]
    );
    assert_eq!(
        adb_args(&state, "android_type_text", "{\"text\":\"a b  c\"}"),
        ["shell", "input", "text", "a%sb%s%sc"]
    );
    assert_eq!(
        adb_args(&state, "android_press_key", "{\"keycode\":\"KEYCODE_HOME\"}"),
        ["shell", "input", "keyevent", "KEYCODE_HOME"]
    );
    assert_eq!(
        adb_args(
            &state,
            "android_launch_app",
            "{\"package\":\"p\",\"activity\":\".A\"}"
        ),
        ["shell", "am", "start", "-n", "p/.A"]
    );
    assert_eq!(
        adb_args(&state, "android_open_url", "{\"url\":\"https://e\"}"),
        [
            "shell",
            "am",
            "start",
            "-a",
            "android.intent.action.VIEW",
            "-d",
            "https://e"
        ]
    );
    assert_eq!(
        adb_args(&state, "android_install_apk", "{\"path\":\"a.apk\"}"),
        ["install", "/workspace/a.apk"]
    );
    assert_eq!(
        adb_args(&state, "android_screenshot", "{}"),
        ["exec-out", "screencap", "-p"]
    );
}

#[test]
fn logs_are_limited() {
    let state = probing();
    for (arguments, lines) in [
        ("{}", "200"),
        ("{\"lines\":0}", "1"),
        ("{\"lines\":-5}", "1"),
        ("{\"lines\":1001}", "1000"),
        ("{\"lines\":77}", "77"),
    ] {
        assert_eq!(
            adb_args(&state, "android_logcat", arguments),
            ["logcat", "-d", "-t", lines]
        );
    }
}

#[test]
fn bad_arguments_are_named() {
    let state = probing();
    for (name, arguments, message) in [
        ("android_tap", "{\"x\":1}", "missing required argument: y"),
        ("android_tap", "{\"x\":1.5,\"y\":1}", "missing required argument: x"),
        (
            "android_tap",
            "{\"x\":9223372036854775808,\"y\":1}",
            "missing required argument: x",
        ),
        (
            "android_swipe",
            "{\"startX\":1,\"startY\":2,\"endX\":3,\"endY\":4,\"durationMs\":\"x\"}",
            "invalid argument: durationMs must be an integer",
        ),
        ("android_type_text", "{}", "missing required argument: text"),
        (
            "android_press_key",
            "{\"keycode\":\"a b\"}",
            "invalid argument: keycode may contain only ASCII letters, digits, and '_'",
        ),
        (
            "android_launch_app",
            "{\"package\":\"p\",\"activity\":1}",
            "invalid argument: activity must be a string",
        ),
        (
            "android_screenshot",
            "{\"path\":\"../x\"}",
            "invalid argument: path must be relative, non-empty, and must not contain '..'",
        ),
        (
            "android_fly",
            "{}",
            "invalid argument: unknown Android MCP tool: android_fly",
        ),
    ] {
        assert_eq!(
            reply_text(call(&state, name, arguments)),
            (message.to_string(), true)
        );
    }
    let mut careful = probing();
    careful.allow_install = false;
    assert_eq!(
        reply_text(call(&careful, "android_install_apk", "{\"path\":\"a\"}")),
        (
            "invalid argument: APK installation requires --allow-install".to_string(),
            true
        )
    );
    assert_eq!(
        reply_text(handle_request(request("tools/call", "{}"), &state)),
        ("invalid argument: missing tool name".to_string(), true)
    );
    let bare = JsonRpcRequest {
        id: Some(Json::Unsigned(7)),
        method: "tools/call".to_string(),
        params: None,
    };
    assert_eq!(
        reply_text(handle_request(bare, &state)),
        ("invalid argument: missing params".to_string(), true)
    );
}

fn outcome(state: &McpState, name: &str, left: &[Result<ProcessOutput, String>]) -> ToolStep {
    let mut run = match call(state, name, "{}") {
        Handling::Run(_, run) => run,
        other => panic!("no run: {other:?}"),
    };
    for one in left {
        let one = match one {
            Ok(left) => Ok(ProcessOutput {
                code: left.code,
                stdout: left.stdout.clone(),
                stderr: left.stderr.clone(),
            }),
            Err(error) => Err(error.clone()),
        };
        run = match run.advance(one) {
            ToolStep::Next(run) => run,
            end => return end,
        };
    }
    panic!("run goes on")
}

fn done(step: ToolStep) -> Result<String, String> {
    match step {
        ToolStep::Done(outcome) => outcome.map_err(|error| error.message()),
        other => panic!("unexpected step {other:?}"),
    }
}

#[test]
fn runs_end_with_what_adb_says() {
    let state = probing();
    assert_eq!(
        done(outcome(&state, "android_devices", &[Err("no adb".to_string())])),
        Err("failed to execute adb connect: no adb".to_string())
    );
    assert_eq!(
        done(outcome(
            &state,
            "android_devices",
            &[Ok(output(Some(1), "", "refused"))]
        )),
        Err("adb connect failed with status Some(1)\nstdout:\n\nstderr:\nrefused".to_string())
    );
    assert_eq!(
        done(outcome(
            &state,
            "android_devices",
            &[Ok(output(Some(0), "", "")), Err("gone".to_string())]
        )),
        Err("failed to execute adb: gone".to_string())
    );
    assert_eq!(
        done(outcome(
            &state,
            "android_devices",
            &[Ok(output(Some(0), "", "")), Ok(output(Some(0), " a \n", "b"))]
        )),
        Ok("a\nb".to_string())
    );
}

#[test]
fn status_reports_what_adb_says() {
    let state = probing();
    assert_eq!(
        done(outcome(
            &state,
            "android_status",
            &[Ok(output(Some(0), "", "")), Ok(output(Some(0), "list", ""))]
        )),
        Ok("Android runtime: dg-test-android\nADB endpoint: dg-test-android:5555\n\nlist".to_string())
    );
    assert_eq!(
        done(outcome(&state, "android_status", &[Err("no adb".to_string())])),
        Ok("Android runtime: dg-test-android\nADB endpoint: dg-test-android:5555\nADB status error: failed to execute adb connect: no adb".to_string())
    );
}

#[test]
fn screenshots_are_saved() {
    let state = probing();
    let connected = || Ok(output(Some(0), "", ""));
    match outcome(
        &state,
        "android_screenshot",
        &[connected(), Ok(output(Some(0), "png", ""))],
    ) {
        ToolStep::Save(path, bytes) => {
            assert_eq!(path, "/workspace/android-screenshot.png");
            assert_eq!(bytes, b"png");
        }
        other => panic!("unexpected step {other:?}"),
    }
    assert_eq!(
        done(outcome(
            &state,
            "android_screenshot",
            &[connected(), Ok(output(Some(1), "", "locked"))]
        )),
        Err("adb screenshot failed with status Some(1)\nstdout:\n\nstderr:\nlocked".to_string())
    );
    assert_eq!(
        screenshot_saved("/w/a.png", Ok(())).unwrap(),
        "screenshot written to /w/a.png"
    );
    match screenshot_saved("/w/a.png", Err("disk full".to_string())) {
        Err(McpToolError::Io(message)) => assert_eq!(message, "disk full"),
        other => panic!("unexpected outcome {other:?}"),
    }
}

#[test]
fn outputs_become_texts() {
    let text = |code, stdout, stderr| {
        output_to_text("adb", &output(code, stdout, stderr)).map_err(|error| error.message())
    };
    assert_eq!(text(Some(0), " ", ""), Ok("adb completed successfully".to_string()));
    assert_eq!(text(Some(0), "a\n", ""), Ok("a".to_string()));
    assert_eq!(text(Some(0), "", "\tb"), Ok("b".to_string()));
    assert_eq!(
        text(None, "a", "b"),
        Err("adb failed with status None\nstdout:\na\nstderr:\nb".to_string())
    );
}

#[test]
fn tool_errors_are_flagged() {
    let reply = handle_tools_call(Json::Null, Err(McpToolError::AdbProbeDisabled));
    assert_eq!(
        reply.compact(),
        "{\"id\":null,\"jsonrpc\":\"2.0\",\"result\":{\"content\":[{\"text\":\"ADB probing is disabled for this server\",\"type\":\"text\"}],\"isError\":true}}"
    );
}

fn message(reading: Reading) -> (String, usize) {
    match reading {
        Reading::Message(text, used) => (text, used),
        other => panic!("no message: {other:?}"),
    }
}

#[test]
fn frames_hold_bytes_not_characters() {
    let text = frame("h\u{e9}");
    assert_eq!(text, "Content-Length: 3\r\n\r\nh\u{e9}");
    let bytes = format!("{text}rest");
    assert_eq!(
        message(read_next_message(bytes.as_bytes(), false)),
        ("h\u{e9}".to_string(), text.len())
    );
}

#[test]
fn messages_do_not_depend_on_the_pieces() {
    let whole = format!("{}{}", frame("{\"a\":1}"), frame("two"));
    let bytes = whole.as_bytes();
    let first = frame("{\"a\":1}").len();
    for cut in 0..first {
        assert!(matches!(
            read_next_message(&bytes[..cut], false),
            Reading::NeedMore
        ));
    }
    for cut in first..bytes.len() {
        assert_eq!(
            message(read_next_message(&bytes[..cut], false)),
            ("{\"a\":1}".to_string(), first)
        );
    }
    assert_eq!(
        message(read_next_message(&bytes[first..], true)),
        ("two".to_string(), frame("two").len())
    );
}

#[test]
fn lines_are_messages_too() {
    assert_eq!(
        message(read_next_message(b"\r\n\n{\"x\":1}\r\nmore", false)),
        ("{\"x\":1}".to_string(), 12)
    );
    assert_eq!(
        message(read_next_message(b"last", true)),
        ("last".to_string(), 4)
    );
    assert!(matches!(read_next_message(b"last", false), Reading::NeedMore));
    assert!(matches!(read_next_message(b"\n\n", true), Reading::End));
    assert!(matches!(read_next_message(b"", true), Reading::End));
    assert!(matches!(read_next_message(b"", false), Reading::NeedMore));
}

#[test]
fn heads_may_hold_more_lines() {
    let input = b"CONTENT-length:  4 \r\nContent-Type: x\r\n  \r\nabcdef";
    assert_eq!(
        message(read_next_message(input, false)),
        ("abcd".to_string(), input.len() - 2)
    );
}

#[test]
fn broken_streams_are_refused() {
    let invalid = |input: &[u8]| match read_next_message(input, true) {
        Reading::Invalid(message) => message,
        other => panic!("unexpected reading {other:?}"),
    };
    assert_eq!(invalid(b"\xff\n"), "stream did not contain valid UTF-8");
    assert_eq!(
        invalid(b"Content-Length: 1\r\n\xff\r\n"),
        "stream did not contain valid UTF-8"
    );
    match read_next_message(b"Content-Length: 5\r\n\r\nabc", true) {
        Reading::CutShort(message) => assert_eq!(message, "failed to fill whole buffer"),
        other => panic!("unexpected reading {other:?}"),
    }
    assert_eq!(
        invalid(b"Content-Length: x\r\n\r\n"),
        "invalid digit found in string"
    );
    assert_eq!(
        invalid(b"Content-Length: 2\r\n\r\n\xff\xff"),
        "invalid utf-8 sequence of 1 bytes from index 0"
    );
}

#[test]
fn lengths_are_read_from_their_header() {
    assert_eq!(parse_content_length("Content-Length: 12"), Ok(Some(12)));
    assert_eq!(parse_content_length("content-length:+3"), Ok(Some(3)));
    assert_eq!(parse_content_length("Content-Length : 12"), Ok(None));
    assert_eq!(parse_content_length("{}"), Ok(None));
    assert_eq!(
        parse_content_length("Content-Length:"),
        Err("cannot parse integer from empty string".to_string())
    );
    assert_eq!(
        parse_content_length("Content-Length: 99999999999999999999"),
        Err("number too large to fit in target type".to_string())
    );
}
