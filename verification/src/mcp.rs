//! The tools that the server offers, the requests that it answers, and the ADB commands that the
//! tools run.
use crate::adb::{launch_app_adb_args, launch_args};
use crate::decimal::{signed_decimal, signed_decimal_exec};
use crate::docker_command::{command_error, command_error_text, ProcessOutput};
use crate::json::{
    field_of, i64_of, list_view, no_fields, pretty_text, put, text_json, text_of, Json, JsonView,
};
use crate::names::{AndroidSpec, SpecView};
use crate::paths::{join_paths, joined, leads_up, leads_up_exec};
use crate::scan::trim;
use crate::text::{
    begins_with, chars_of, concat2, concat3, copy_texts, has_prefix, lossy_text, opt_text, same_text,
    texts,
};
use vstd::prelude::*;

verus! {

pub const SERVER_NAME: &'static str = "android-connection";

pub const SERVER_VERSION: &'static str = "0.1.0";

// Tools.

/// A tool that the server offers.
#[derive(Clone, Debug, Eq, PartialEq)]
pub struct McpToolSpec {
    pub name: &'static str,
    pub description: &'static str,
}

/// The names and descriptions of the tools, in the order in which they are listed.
pub open spec fn tool_list() -> Seq<(Seq<char>, Seq<char>)> {
    seq![
        (
            "android_status"@,
            "Return the configured Android runtime and optional ADB status."@,
        ),
        ("android_devices"@, "List Android devices visible to adb."@),
        ("android_screenshot"@, "Capture a PNG screenshot into the workspace."@),
        ("android_tap"@, "Tap screen coordinates."@),
        ("android_swipe"@, "Swipe between screen coordinates."@),
        ("android_type_text"@, "Type text into the active Android input field."@),
        ("android_press_key"@, "Send an Android keycode."@),
        ("android_launch_app"@, "Launch an installed Android package."@),
        ("android_open_url"@, "Open a URL through Android intent handling."@),
        ("android_logcat"@, "Read recent logcat output."@),
        (
            "android_install_apk"@,
            "Install an APK from the workspace when explicitly enabled."@,
        ),
    ]
}

/// The names and descriptions of `tools`.
pub open spec fn tools_view(tools: Seq<McpToolSpec>) -> Seq<(Seq<char>, Seq<char>)> {
    tools.map_values(|tool: McpToolSpec| (tool.name@, tool.description@))
}

#[must_use]
pub fn android_tools() -> (tools: Vec<McpToolSpec>)
    ensures
        tools_view(tools@) == tool_list(),
{
    let tools = vec![
        McpToolSpec {
            name: "android_status",
            description: "Return the configured Android runtime and optional ADB status.",
        },
        McpToolSpec {
            name: "android_devices",
            description: "List Android devices visible to adb.",
        },
        McpToolSpec {
            name: "android_screenshot",
            description: "Capture a PNG screenshot into the workspace.",
        },
        McpToolSpec { name: "android_tap", description: "Tap screen coordinates." },
        McpToolSpec { name: "android_swipe", description: "Swipe between screen coordinates." },
        McpToolSpec {
            name: "android_type_text",
            description: "Type text into the active Android input field.",
        },
        McpToolSpec { name: "android_press_key", description: "Send an Android keycode." },
        McpToolSpec {
            name: "android_launch_app",
            description: "Launch an installed Android package.",
        },
        McpToolSpec {
            name: "android_open_url",
            description: "Open a URL through Android intent handling.",
        },
        McpToolSpec { name: "android_logcat", description: "Read recent logcat output." },
        McpToolSpec {
            name: "android_install_apk",
            description: "Install an APK from the workspace when explicitly enabled.",
        },
    ];
    assert(tools_view(tools@) =~= tool_list());
    tools
}

// State and errors.

/// What the server works with.
#[derive(Clone, Debug)]
pub struct McpState {
    pub spec: AndroidSpec,
    /// The Unix path of the directory whose files the tools may use.
    pub workspace: String,
    pub adb_probe: bool,
    pub allow_install: bool,
}

pub struct McpStateView {
    pub spec: SpecView,
    pub workspace: Seq<char>,
    pub adb_probe: bool,
    pub allow_install: bool,
}

impl View for McpState {
    type V = McpStateView;

    open spec fn view(&self) -> McpStateView {
        McpStateView {
            spec: self.spec@,
            workspace: self.workspace@,
            adb_probe: self.adb_probe,
            allow_install: self.allow_install,
        }
    }
}

/// Why a tool failed.
#[derive(Debug)]
pub enum McpToolError {
    MissingArgument(&'static str),
    InvalidArgument(String),
    AdbProbeDisabled,
    CommandFailed(String),
    Io(String),
}

pub enum ToolErrorView {
    MissingArgument(Seq<char>),
    InvalidArgument(Seq<char>),
    AdbProbeDisabled,
    CommandFailed(Seq<char>),
    Io(Seq<char>),
}

impl View for McpToolError {
    type V = ToolErrorView;

    open spec fn view(&self) -> ToolErrorView {
        match self {
            McpToolError::MissingArgument(name) => ToolErrorView::MissingArgument(name@),
            McpToolError::InvalidArgument(message) => ToolErrorView::InvalidArgument(message@),
            McpToolError::AdbProbeDisabled => ToolErrorView::AdbProbeDisabled,
            McpToolError::CommandFailed(message) => ToolErrorView::CommandFailed(message@),
            McpToolError::Io(message) => ToolErrorView::Io(message@),
        }
    }
}

/// An error as a client reads it.
pub open spec fn tool_error_text(error: ToolErrorView) -> Seq<char> {
    match error {
        ToolErrorView::MissingArgument(name) => "missing required argument: "@ + name,
        ToolErrorView::InvalidArgument(message) => "invalid argument: "@ + message,
        ToolErrorView::AdbProbeDisabled => "ADB probing is disabled for this server"@,
        ToolErrorView::CommandFailed(message) => message,
        ToolErrorView::Io(message) => message,
    }
}

impl McpToolError {
    /// The message for a client.
    pub fn message(&self) -> (text: String)
        ensures
            text@ == tool_error_text(self@),
    {
        match self {
            McpToolError::MissingArgument(name) => concat2("missing required argument: ", name),
            McpToolError::InvalidArgument(message) => concat2(
                "invalid argument: ",
                message.as_str(),
            ),
            McpToolError::AdbProbeDisabled => "ADB probing is disabled for this server".to_string(),
            McpToolError::CommandFailed(message) => message.clone(),
            McpToolError::Io(message) => message.clone(),
        }
    }
}

/// The outcome of a tool.
pub open spec fn outcome_view(outcome: Result<String, McpToolError>) -> Result<
    Seq<char>,
    ToolErrorView,
> {
    match outcome {
        Ok(text) => Ok(text@),
        Err(error) => Err(error@),
    }
}

// Arguments.

/// An integer that must be there.
pub open spec fn integer_of(arguments: JsonView, name: Seq<char>) -> Result<int, ToolErrorView> {
    match field_of(arguments, name) {
        Some(value) if i64_of(value) is Some => Ok(i64_of(value)->0),
        _ => Err(ToolErrorView::MissingArgument(name)),
    }
}

fn integer_argument(arguments: &Json, name: &'static str) -> (number: Result<i64, McpToolError>)
    ensures
        match number {
            Ok(number) => integer_of(arguments@, name@) == Ok::<int, ToolErrorView>(number as int),
            Err(error) => integer_of(arguments@, name@) == Err::<int, ToolErrorView>(error@),
        },
{
    if let Some(value) = arguments.get(name) {
        if let Some(number) = value.as_i64() {
            return Ok(number);
        }
    }
    Err(McpToolError::MissingArgument(name))
}

/// An integer that may be left out.
pub open spec fn optional_integer_of(arguments: JsonView, name: Seq<char>) -> Result<
    Option<int>,
    ToolErrorView,
> {
    match field_of(arguments, name) {
        None => Ok(None),
        Some(value) => match i64_of(value) {
            Some(number) => Ok(Some(number)),
            None => Err(ToolErrorView::InvalidArgument(name + " must be an integer"@)),
        },
    }
}

/// The integer of an optional one.
pub open spec fn opt_int(number: Option<i64>) -> Option<int> {
    match number {
        Some(number) => Some(number as int),
        None => None,
    }
}

fn optional_integer_argument(arguments: &Json, name: &'static str) -> (number: Result<
    Option<i64>,
    McpToolError,
>)
    ensures
        match number {
            Ok(number) => optional_integer_of(arguments@, name@) == Ok::<
                Option<int>,
                ToolErrorView,
            >(opt_int(number)),
            Err(error) => optional_integer_of(arguments@, name@) == Err::<
                Option<int>,
                ToolErrorView,
            >(error@),
        },
{
    match arguments.get(name) {
        None => Ok(None),
        Some(value) => match value.as_i64() {
            Some(number) => Ok(Some(number)),
            None => Err(McpToolError::InvalidArgument(concat2(name, " must be an integer"))),
        },
    }
}

/// A text that must be there.
pub open spec fn string_of(arguments: JsonView, name: Seq<char>) -> Result<Seq<char>, ToolErrorView> {
    match field_of(arguments, name) {
        Some(value) if text_of(value) is Some => Ok(text_of(value)->0),
        _ => Err(ToolErrorView::MissingArgument(name)),
    }
}

fn string_argument(arguments: &Json, name: &'static str) -> (text: Result<String, McpToolError>)
    ensures
        outcome_view(text) == string_of(arguments@, name@),
{
    if let Some(value) = arguments.get(name) {
        if let Some(text) = value.as_str() {
            return Ok(text.to_string());
        }
    }
    Err(McpToolError::MissingArgument(name))
}

/// A text that may be left out.
pub open spec fn optional_string_of(arguments: JsonView, name: Seq<char>) -> Result<
    Option<Seq<char>>,
    ToolErrorView,
> {
    match field_of(arguments, name) {
        None => Ok(None),
        Some(value) => match text_of(value) {
            Some(text) => Ok(Some(text)),
            None => Err(ToolErrorView::InvalidArgument(name + " must be a string"@)),
        },
    }
}

fn optional_string_argument(arguments: &Json, name: &'static str) -> (text: Result<
    Option<String>,
    McpToolError,
>)
    ensures
        match text {
            Ok(text) => optional_string_of(arguments@, name@) == Ok::<
                Option<Seq<char>>,
                ToolErrorView,
            >(opt_text(text)),
            Err(error) => optional_string_of(arguments@, name@) == Err::<
                Option<Seq<char>>,
                ToolErrorView,
            >(error@),
        },
{
    match arguments.get(name) {
        None => Ok(None),
        Some(value) => match value.as_str() {
            Some(text) => Ok(Some(text.to_string())),
            None => Err(McpToolError::InvalidArgument(concat2(name, " must be a string"))),
        },
    }
}

/// The Unix path of a file of the workspace, or why it is none: it must be relative and not empty,
/// and must not lead up.
pub open spec fn path_in(workspace: Seq<char>, value: Seq<char>) -> Result<
    Seq<char>,
    ToolErrorView,
> {
    if value.len() == 0 || value[0] == '/' || leads_up(value) {
        Err(
            ToolErrorView::InvalidArgument(
                "path must be relative, non-empty, and must not contain '..'"@,
            ),
        )
    } else {
        Ok(joined(workspace, value))
    }
}

/// The Unix path of a file of the workspace, or the error where `value` leads elsewhere.
pub fn workspace_path(workspace: &str, value: &str) -> (path: Result<String, McpToolError>)
    ensures
        outcome_view(path) == path_in(workspace@, value@),
{
    let chars = chars_of(value);
    if chars.len() == 0 || chars[0] == '/' || leads_up_exec(value) {
        return Err(
            McpToolError::InvalidArgument(
                "path must be relative, non-empty, and must not contain '..'".to_string(),
            ),
        );
    }
    Ok(join_paths(workspace, value))
}

/// `text` with each blank as `adb shell input text` takes it.
pub open spec fn without_blanks(text: Seq<char>) -> Seq<char>
    decreases text.len(),
{
    if text.len() == 0 {
        Seq::empty()
    } else if text.last() == ' ' {
        without_blanks(text.drop_last()) + "%s"@
    } else {
        without_blanks(text.drop_last()).push(text.last())
    }
}

fn replace_blanks(text: &str) -> (replaced: String)
    ensures
        replaced@ == without_blanks(text@),
{
    let chars = chars_of(text);
    let mut replaced = String::new();
    for i in 0..chars.len()
        invariant
            chars@ == text@,
            replaced@ == without_blanks(text@.take(i as int)),
    {
        assert(text@.take(i + 1).drop_last() =~= text@.take(i as int));
        if chars[i] == ' ' {
            replaced.append("%s");
        } else {
            replaced.push(chars[i]);
        }
    }
    assert(text@.take(text@.len() as int) =~= text@);
    replaced
}

/// Whether `c` may stand in a keycode.
pub open spec fn is_key_char(c: char) -> bool {
    'a' <= c <= 'z' || 'A' <= c <= 'Z' || '0' <= c <= '9' || c == '_'
}

/// Whether a text may be sent as a keycode.
pub open spec fn is_keycode(text: Seq<char>) -> bool {
    forall|i: int| 0 <= i < text.len() ==> is_key_char(#[trigger] text[i])
}

fn is_keycode_exec(text: &str) -> (keycode: bool)
    ensures
        keycode == is_keycode(text@),
{
    let chars = chars_of(text);
    for i in 0..chars.len()
        invariant
            chars@ == text@,
            forall|k: int| 0 <= k < i ==> is_key_char(#[trigger] text@[k]),
    {
        let c = chars[i];
        let fits = ('a' <= c && c <= 'z') || ('A' <= c && c <= 'Z') || ('0' <= c && c <= '9') || c
            == '_';
        if !fits {
            assert(!is_key_char(text@[i as int]));
            return false;
        }
    }
    true
}

// Commands of the tools.

/// What is done with the output of the ADB command of a tool.
#[derive(Debug)]
pub enum ToolFinish {
    /// It is the answer.
    Text,
    /// It is part of a report on the runtime.
    Status,
    /// It is a screenshot for this file.
    Screenshot(String),
}

pub enum ToolFinishView {
    Text,
    Status,
    Screenshot(Seq<char>),
}

impl View for ToolFinish {
    type V = ToolFinishView;

    open spec fn view(&self) -> ToolFinishView {
        match self {
            ToolFinish::Text => ToolFinishView::Text,
            ToolFinish::Status => ToolFinishView::Status,
            ToolFinish::Screenshot(path) => ToolFinishView::Screenshot(path@),
        }
    }
}

/// The ADB command that a tool runs.
#[derive(Debug)]
pub struct ToolCommand {
    pub args: Vec<String>,
    pub finish: ToolFinish,
}

pub struct ToolCommandView {
    pub args: Seq<Seq<char>>,
    pub finish: ToolFinishView,
}

impl View for ToolCommand {
    type V = ToolCommandView;

    open spec fn view(&self) -> ToolCommandView {
        ToolCommandView { args: texts(self.args@), finish: self.finish@ }
    }
}

/// The command of a tool, or why there is none.
pub open spec fn command_view(command: Result<ToolCommand, McpToolError>) -> Result<
    ToolCommandView,
    ToolErrorView,
> {
    match command {
        Ok(command) => Ok(command@),
        Err(error) => Err(error@),
    }
}

/// A command whose output is the answer.
pub open spec fn text_command(args: Seq<Seq<char>>) -> ToolCommandView {
    ToolCommandView { args, finish: ToolFinishView::Text }
}

fn text_command_exec(args: Vec<String>) -> (command: ToolCommand)
    ensures
        command@ == text_command(texts(args@)),
{
    ToolCommand { args, finish: ToolFinish::Text }
}

/// `android_devices` lists the devices.
fn android_devices() -> (command: Result<ToolCommand, McpToolError>)
    ensures
        command_view(command) == Ok::<ToolCommandView, ToolErrorView>(
            text_command(seq!["devices"@]),
        ),
{
    let args = vec!["devices".to_string()];
    assert(texts(args@) =~= seq!["devices"@]);
    Ok(text_command_exec(args))
}

/// `android_tap` taps at a point.
pub open spec fn tap_command(arguments: JsonView) -> Result<ToolCommandView, ToolErrorView> {
    match (integer_of(arguments, "x"@), integer_of(arguments, "y"@)) {
        (Err(error), _) => Err(error),
        (Ok(_), Err(error)) => Err(error),
        (Ok(x), Ok(y)) => Ok(
            text_command(
                seq!["shell"@, "input"@, "tap"@, signed_decimal(x), signed_decimal(y)],
            ),
        ),
    }
}

fn android_tap(arguments: &Json) -> (command: Result<ToolCommand, McpToolError>)
    ensures
        command_view(command) == tap_command(arguments@),
{
    let x = match integer_argument(arguments, "x") {
        Ok(x) => x,
        Err(error) => {
            return Err(error);
        },
    };
    let y = match integer_argument(arguments, "y") {
        Ok(y) => y,
        Err(error) => {
            return Err(error);
        },
    };
    let args = vec![
        "shell".to_string(),
        "input".to_string(),
        "tap".to_string(),
        signed_decimal_exec(x),
        signed_decimal_exec(y),
    ];
    assert(texts(args@) =~= seq![
        "shell"@,
        "input"@,
        "tap"@,
        signed_decimal(x as int),
        signed_decimal(y as int),
    ]);
    Ok(text_command_exec(args))
}

/// The four coordinates and the duration of a swipe.
pub open spec fn swipe_numbers(arguments: JsonView) -> Result<Seq<int>, ToolErrorView> {
    match (
        integer_of(arguments, "startX"@),
        integer_of(arguments, "startY"@),
        integer_of(arguments, "endX"@),
        integer_of(arguments, "endY"@),
        optional_integer_of(arguments, "durationMs"@),
    ) {
        (Err(error), _, _, _, _) => Err(error),
        (_, Err(error), _, _, _) => Err(error),
        (_, _, Err(error), _, _) => Err(error),
        (_, _, _, Err(error), _) => Err(error),
        (_, _, _, _, Err(error)) => Err(error),
        (Ok(start_x), Ok(start_y), Ok(end_x), Ok(end_y), Ok(duration)) => Ok(
            seq![
                start_x,
                start_y,
                end_x,
                end_y,
                match duration {
                    Some(duration) => duration,
                    None => 300,
                },
            ],
        ),
    }
}

/// `android_swipe` swipes from a point to a point.
pub open spec fn swipe_command(arguments: JsonView) -> Result<ToolCommandView, ToolErrorView> {
    match swipe_numbers(arguments) {
        Err(error) => Err(error),
        Ok(numbers) => Ok(
            text_command(
                seq!["shell"@, "input"@, "swipe"@] + numbers.map_values(
                    |number: int| signed_decimal(number),
                ),
            ),
        ),
    }
}

fn android_swipe(arguments: &Json) -> (command: Result<ToolCommand, McpToolError>)
    ensures
        command_view(command) == swipe_command(arguments@),
{
    let start_x = match integer_argument(arguments, "startX") {
        Ok(number) => number,
        Err(error) => {
            return Err(error);
        },
    };
    let start_y = match integer_argument(arguments, "startY") {
        Ok(number) => number,
        Err(error) => {
            return Err(error);
        },
    };
    let end_x = match integer_argument(arguments, "endX") {
        Ok(number) => number,
        Err(error) => {
            return Err(error);
        },
    };
    let end_y = match integer_argument(arguments, "endY") {
        Ok(number) => number,
        Err(error) => {
            return Err(error);
        },
    };
    let duration_ms = match optional_integer_argument(arguments, "durationMs") {
        Ok(Some(number)) => number,
        Ok(None) => 300,
        Err(error) => {
            return Err(error);
        },
    };
    let args = vec![
        "shell".to_string(),
        "input".to_string(),
        "swipe".to_string(),
        signed_decimal_exec(start_x),
        signed_decimal_exec(start_y),
        signed_decimal_exec(end_x),
        signed_decimal_exec(end_y),
        signed_decimal_exec(duration_ms),
    ];
    proof {
        let numbers = seq![
            start_x as int,
            start_y as int,
            end_x as int,
            end_y as int,
            duration_ms as int,
        ];
        assert(swipe_numbers(arguments@) is Ok);
        assert(swipe_numbers(arguments@)->Ok_0 =~= numbers);
        assert(texts(args@) =~= seq!["shell"@, "input"@, "swipe"@] + numbers.map_values(
            |number: int| signed_decimal(number),
        ));
    }
    Ok(text_command_exec(args))
}

/// `android_type_text` types a text.
pub open spec fn type_command(arguments: JsonView) -> Result<ToolCommandView, ToolErrorView> {
    match string_of(arguments, "text"@) {
        Err(error) => Err(error),
        Ok(text) => Ok(
            text_command(seq!["shell"@, "input"@, "text"@, without_blanks(text)]),
        ),
    }
}

fn android_type_text(arguments: &Json) -> (command: Result<ToolCommand, McpToolError>)
    ensures
        command_view(command) == type_command(arguments@),
{
    let text = match string_argument(arguments, "text") {
        Ok(text) => replace_blanks(text.as_str()),
        Err(error) => {
            return Err(error);
        },
    };
    let args = vec!["shell".to_string(), "input".to_string(), "text".to_string(), text];
    assert(texts(args@) =~= seq!["shell"@, "input"@, "text"@, text@]);
    Ok(text_command_exec(args))
}

/// `android_press_key` presses a key.
pub open spec fn key_command(arguments: JsonView) -> Result<ToolCommandView, ToolErrorView> {
    match string_of(arguments, "keycode"@) {
        Err(error) => Err(error),
        Ok(keycode) => if is_keycode(keycode) {
            Ok(text_command(seq!["shell"@, "input"@, "keyevent"@, keycode]))
        } else {
            Err(
                ToolErrorView::InvalidArgument(
                    "keycode may contain only ASCII letters, digits, and '_'"@,
                ),
            )
        },
    }
}

fn android_press_key(arguments: &Json) -> (command: Result<ToolCommand, McpToolError>)
    ensures
        command_view(command) == key_command(arguments@),
{
    let keycode = match string_argument(arguments, "keycode") {
        Ok(keycode) => keycode,
        Err(error) => {
            return Err(error);
        },
    };
    if !is_keycode_exec(keycode.as_str()) {
        return Err(
            McpToolError::InvalidArgument(
                "keycode may contain only ASCII letters, digits, and '_'".to_string(),
            ),
        );
    }
    let args = vec!["shell".to_string(), "input".to_string(), "keyevent".to_string(), keycode];
    assert(texts(args@) =~= seq!["shell"@, "input"@, "keyevent"@, keycode@]);
    Ok(text_command_exec(args))
}

/// `android_launch_app` launches an app.
pub open spec fn launch_command(arguments: JsonView) -> Result<ToolCommandView, ToolErrorView> {
    match (string_of(arguments, "package"@), optional_string_of(arguments, "activity"@)) {
        (Err(error), _) => Err(error),
        (Ok(_), Err(error)) => Err(error),
        (Ok(package), Ok(activity)) => Ok(text_command(launch_args(package, activity))),
    }
}

fn android_launch_app(arguments: &Json) -> (command: Result<ToolCommand, McpToolError>)
    ensures
        command_view(command) == launch_command(arguments@),
{
    let package_name = match string_argument(arguments, "package") {
        Ok(package_name) => package_name,
        Err(error) => {
            return Err(error);
        },
    };
    let activity = match optional_string_argument(arguments, "activity") {
        Ok(activity) => activity,
        Err(error) => {
            return Err(error);
        },
    };
    let args = match &activity {
        Some(activity) => launch_app_adb_args(package_name.as_str(), Some(activity.as_str())),
        None => launch_app_adb_args(package_name.as_str(), None),
    };
    Ok(text_command_exec(args))
}

/// `android_open_url` opens a URL.
pub open spec fn open_command(arguments: JsonView) -> Result<ToolCommandView, ToolErrorView> {
    match string_of(arguments, "url"@) {
        Err(error) => Err(error),
        Ok(url) => Ok(
            text_command(
                seq![
                    "shell"@,
                    "am"@,
                    "start"@,
                    "-a"@,
                    "android.intent.action.VIEW"@,
                    "-d"@,
                    url,
                ],
            ),
        ),
    }
}

fn android_open_url(arguments: &Json) -> (command: Result<ToolCommand, McpToolError>)
    ensures
        command_view(command) == open_command(arguments@),
{
    let url = match string_argument(arguments, "url") {
        Ok(url) => url,
        Err(error) => {
            return Err(error);
        },
    };
    let args = vec![
        "shell".to_string(),
        "am".to_string(),
        "start".to_string(),
        "-a".to_string(),
        "android.intent.action.VIEW".to_string(),
        "-d".to_string(),
        url,
    ];
    assert(texts(args@) =~= seq![
        "shell"@,
        "am"@,
        "start"@,
        "-a"@,
        "android.intent.action.VIEW"@,
        "-d"@,
        url@,
    ]);
    Ok(text_command_exec(args))
}

/// How many lines of the log are read: as many as are asked for, but at least one and at most a
/// thousand.
pub open spec fn log_lines(asked: Option<int>) -> int {
    match asked {
        None => 200,
        Some(count) => if count < 1 {
            1
        } else if count > 1000 {
            1000
        } else {
            count
        },
    }
}

/// `android_logcat` reads the log.
pub open spec fn log_command(arguments: JsonView) -> Result<ToolCommandView, ToolErrorView> {
    match optional_integer_of(arguments, "lines"@) {
        Err(error) => Err(error),
        Ok(asked) => Ok(
            text_command(seq!["logcat"@, "-d"@, "-t"@, signed_decimal(log_lines(asked))]),
        ),
    }
}

fn android_logcat(arguments: &Json) -> (command: Result<ToolCommand, McpToolError>)
    ensures
        command_view(command) == log_command(arguments@),
{
    let lines: i64 = match optional_integer_argument(arguments, "lines") {
        Ok(None) => 200,
        Ok(Some(count)) => if count < 1 {
            1
        } else if count > 1000 {
            1000
        } else {
            count
        },
        Err(error) => {
            return Err(error);
        },
    };
    let args = vec![
        "logcat".to_string(),
        "-d".to_string(),
        "-t".to_string(),
        signed_decimal_exec(lines),
    ];
    assert(texts(args@) =~= seq!["logcat"@, "-d"@, "-t"@, signed_decimal(lines as int)]);
    Ok(text_command_exec(args))
}

/// `android_screenshot` takes a screenshot into a file of the workspace.
pub open spec fn screenshot_command(workspace: Seq<char>, arguments: JsonView) -> Result<
    ToolCommandView,
    ToolErrorView,
> {
    match optional_string_of(arguments, "path"@) {
        Err(error) => Err(error),
        Ok(path) => match path_in(
            workspace,
            match path {
                Some(path) => path,
                None => "android-screenshot.png"@,
            },
        ) {
            Err(error) => Err(error),
            Ok(target) => Ok(
                ToolCommandView {
                    args: seq!["exec-out"@, "screencap"@, "-p"@],
                    finish: ToolFinishView::Screenshot(target),
                },
            ),
        },
    }
}

fn android_screenshot(workspace: &str, arguments: &Json) -> (command: Result<
    ToolCommand,
    McpToolError,
>)
    ensures
        command_view(command) == screenshot_command(workspace@, arguments@),
{
    let output_path = match optional_string_argument(arguments, "path") {
        Ok(Some(path)) => path,
        Ok(None) => "android-screenshot.png".to_string(),
        Err(error) => {
            return Err(error);
        },
    };
    let target_path = match workspace_path(workspace, output_path.as_str()) {
        Ok(path) => path,
        Err(error) => {
            return Err(error);
        },
    };
    let args = vec!["exec-out".to_string(), "screencap".to_string(), "-p".to_string()];
    assert(texts(args@) =~= seq!["exec-out"@, "screencap"@, "-p"@]);
    Ok(ToolCommand { args, finish: ToolFinish::Screenshot(target_path) })
}

/// `android_install_apk` installs a file of the workspace, where that is allowed.
pub open spec fn apk_command(state: McpStateView, arguments: JsonView) -> Result<
    ToolCommandView,
    ToolErrorView,
> {
    if !state.allow_install {
        Err(ToolErrorView::InvalidArgument("APK installation requires --allow-install"@))
    } else {
        match string_of(arguments, "path"@) {
            Err(error) => Err(error),
            Ok(path) => match path_in(state.workspace, path) {
                Err(error) => Err(error),
                Ok(target) => Ok(text_command(seq!["install"@, target])),
            },
        }
    }
}

fn android_install_apk(state: &McpState, arguments: &Json) -> (command: Result<
    ToolCommand,
    McpToolError,
>)
    ensures
        command_view(command) == apk_command(state@, arguments@),
{
    if !state.allow_install {
        return Err(
            McpToolError::InvalidArgument(
                "APK installation requires --allow-install".to_string(),
            ),
        );
    }
    let apk_path = match string_argument(arguments, "path") {
        Ok(path) => path,
        Err(error) => {
            return Err(error);
        },
    };
    let target_path = match workspace_path(state.workspace.as_str(), apk_path.as_str()) {
        Ok(path) => path,
        Err(error) => {
            return Err(error);
        },
    };
    let args = vec!["install".to_string(), target_path];
    assert(texts(args@) =~= seq!["install"@, target_path@]);
    Ok(text_command_exec(args))
}

// Runs.

/// How far the ADB command of a tool has come.
#[derive(Clone, Copy, Debug, Eq, PartialEq, Structural)]
pub enum ToolStage {
    Connect,
    Run,
}

/// The ADB command of a tool on its way.
#[derive(Debug)]
pub struct ToolRun {
    pub container: String,
    pub endpoint: String,
    pub command: ToolCommand,
    pub stage: ToolStage,
}

pub struct ToolRunView {
    pub container: Seq<char>,
    pub endpoint: Seq<char>,
    pub command: ToolCommandView,
    pub stage: ToolStage,
}

impl View for ToolRun {
    type V = ToolRunView;

    open spec fn view(&self) -> ToolRunView {
        ToolRunView {
            container: self.container@,
            endpoint: self.endpoint@,
            command: self.command@,
            stage: self.stage,
        }
    }
}

/// What a tool does: it has its outcome at once, or it runs an ADB command.
#[derive(Debug)]
pub enum ToolPlan {
    Done(Result<String, McpToolError>),
    Run(ToolRun),
}

pub enum ToolPlanView {
    Done(Result<Seq<char>, ToolErrorView>),
    Run(ToolRunView),
}

impl View for ToolPlan {
    type V = ToolPlanView;

    open spec fn view(&self) -> ToolPlanView {
        match self {
            ToolPlan::Done(outcome) => ToolPlanView::Done(outcome_view(*outcome)),
            ToolPlan::Run(run) => ToolPlanView::Run(run@),
        }
    }
}

/// A run of a command from its beginning.
pub open spec fn new_run(spec: SpecView, command: ToolCommandView) -> ToolRunView {
    ToolRunView {
        container: spec.android_container_name,
        endpoint: spec.adb_endpoint,
        command,
        stage: ToolStage::Connect,
    }
}

/// What a tool does whose command is known: ADB is run only where it may be.
pub open spec fn adb_plan(
    state: McpStateView,
    command: Result<ToolCommandView, ToolErrorView>,
) -> ToolPlanView {
    match command {
        Err(error) => ToolPlanView::Done(Err(error)),
        Ok(command) => if state.adb_probe {
            ToolPlanView::Run(new_run(state.spec, command))
        } else {
            ToolPlanView::Done(Err(ToolErrorView::AdbProbeDisabled))
        },
    }
}

fn new_run_exec(state: &McpState, command: ToolCommand) -> (run: ToolRun)
    ensures
        run@ == new_run(state@.spec, command@),
{
    ToolRun {
        container: state.spec.android_container_name.clone(),
        endpoint: state.spec.adb_endpoint.clone(),
        command,
        stage: ToolStage::Connect,
    }
}

/// What a tool does whose command is known.
pub fn run_adb(state: &McpState, command: Result<ToolCommand, McpToolError>) -> (plan: ToolPlan)
    ensures
        plan@ == adb_plan(state@, command_view(command)),
{
    match command {
        Err(error) => ToolPlan::Done(Err(error)),
        Ok(command) => if state.adb_probe {
            ToolPlan::Run(new_run_exec(state, command))
        } else {
            ToolPlan::Done(Err(McpToolError::AdbProbeDisabled))
        },
    }
}

/// A spec as a client is told of it.
pub open spec fn spec_json(spec: SpecView) -> JsonView {
    JsonView::Object(
        map![
            "project_id"@ => JsonView::Text(spec.project_id),
            "project_container_name"@ => JsonView::Text(spec.project_container_name),
            "android_container_name"@ => JsonView::Text(spec.android_container_name),
            "android_volume_name"@ => JsonView::Text(spec.android_volume_name),
            "docker_network"@ => JsonView::Text(spec.docker_network),
            "adb_endpoint"@ => JsonView::Text(spec.adb_endpoint),
            "image"@ => JsonView::Text(spec.image),
        ],
    )
}

fn spec_to_json(spec: &AndroidSpec) -> (json: Json)
    ensures
        json@ == spec_json(spec@),
{
    let mut fields = no_fields();
    put(&mut fields, "project_id", text_json(spec.project_id.as_str()));
    put(&mut fields, "project_container_name", text_json(spec.project_container_name.as_str()));
    put(&mut fields, "android_container_name", text_json(spec.android_container_name.as_str()));
    put(&mut fields, "android_volume_name", text_json(spec.android_volume_name.as_str()));
    put(&mut fields, "docker_network", text_json(spec.docker_network.as_str()));
    put(&mut fields, "adb_endpoint", text_json(spec.adb_endpoint.as_str()));
    put(&mut fields, "image", text_json(spec.image.as_str()));
    Json::Object(fields)
}

/// What `android_status` tells without ADB.
pub open spec fn status_json(spec: SpecView) -> JsonView {
    JsonView::Object(
        map![
            "server"@ => JsonView::Text(SERVER_NAME@),
            "adbProbe"@ => JsonView::Bool(false),
            "spec"@ => spec_json(spec),
        ],
    )
}

/// What `android_status` does.
pub open spec fn status_plan(state: McpStateView) -> ToolPlanView {
    if state.adb_probe {
        ToolPlanView::Run(
            new_run(
                state.spec,
                ToolCommandView { args: seq!["devices"@], finish: ToolFinishView::Status },
            ),
        )
    } else {
        ToolPlanView::Done(Ok(pretty_text(status_json(state.spec))))
    }
}

fn android_status(state: &McpState) -> (plan: ToolPlan)
    ensures
        plan@ == status_plan(state@),
{
    if !state.adb_probe {
        let mut fields = no_fields();
        put(&mut fields, "server", text_json(SERVER_NAME));
        put(&mut fields, "adbProbe", Json::Bool(false));
        put(&mut fields, "spec", spec_to_json(&state.spec));
        return ToolPlan::Done(Ok(Json::Object(fields).pretty()));
    }
    let args = vec!["devices".to_string()];
    assert(texts(args@) =~= seq!["devices"@]);
    ToolPlan::Run(new_run_exec(state, ToolCommand { args, finish: ToolFinish::Status }))
}

/// The command of a tool other than `android_status`, or why there is none.
pub open spec fn tool_command(name: Seq<char>, arguments: JsonView, state: McpStateView) -> Result<
    ToolCommandView,
    ToolErrorView,
> {
    if name == "android_devices"@ {
        Ok(text_command(seq!["devices"@]))
    } else if name == "android_screenshot"@ {
        screenshot_command(state.workspace, arguments)
    } else if name == "android_tap"@ {
        tap_command(arguments)
    } else if name == "android_swipe"@ {
        swipe_command(arguments)
    } else if name == "android_type_text"@ {
        type_command(arguments)
    } else if name == "android_press_key"@ {
        key_command(arguments)
    } else if name == "android_launch_app"@ {
        launch_command(arguments)
    } else if name == "android_open_url"@ {
        open_command(arguments)
    } else if name == "android_logcat"@ {
        log_command(arguments)
    } else if name == "android_install_apk"@ {
        apk_command(state, arguments)
    } else {
        Err(ToolErrorView::InvalidArgument("unknown Android MCP tool: "@ + name))
    }
}

/// The command of a tool other than `android_status`.
pub fn find_tool_command(name: &str, arguments: &Json, state: &McpState) -> (command: Result<
    ToolCommand,
    McpToolError,
>)
    ensures
        command_view(command) == tool_command(name@, arguments@, state@),
{
    if same_text(name, "android_devices") {
        android_devices()
    } else if same_text(name, "android_screenshot") {
        android_screenshot(state.workspace.as_str(), arguments)
    } else if same_text(name, "android_tap") {
        android_tap(arguments)
    } else if same_text(name, "android_swipe") {
        android_swipe(arguments)
    } else if same_text(name, "android_type_text") {
        android_type_text(arguments)
    } else if same_text(name, "android_press_key") {
        android_press_key(arguments)
    } else if same_text(name, "android_launch_app") {
        android_launch_app(arguments)
    } else if same_text(name, "android_open_url") {
        android_open_url(arguments)
    } else if same_text(name, "android_logcat") {
        android_logcat(arguments)
    } else if same_text(name, "android_install_apk") {
        android_install_apk(state, arguments)
    } else {
        Err(McpToolError::InvalidArgument(concat2("unknown Android MCP tool: ", name)))
    }
}

/// What the tool does that `params` name.
pub open spec fn tool_plan(params: Option<JsonView>, state: McpStateView) -> ToolPlanView {
    match params {
        None => ToolPlanView::Done(Err(ToolErrorView::InvalidArgument("missing params"@))),
        Some(params) => match field_of(params, "name"@) {
            Some(name) if text_of(name) is Some => {
                let name = text_of(name)->0;
                let arguments = match field_of(params, "arguments"@) {
                    Some(arguments) => arguments,
                    None => JsonView::Null,
                };
                if name == "android_status"@ {
                    status_plan(state)
                } else {
                    adb_plan(state, tool_command(name, arguments, state))
                }
            },
            _ => ToolPlanView::Done(
                Err(ToolErrorView::InvalidArgument("missing tool name"@)),
            ),
        },
    }
}

/// An optional value.
pub open spec fn opt_json_view(json: Option<Json>) -> Option<JsonView> {
    match json {
        Some(json) => Some(json@),
        None => None,
    }
}

pub fn call_tool_from_params(params: &Option<Json>, state: &McpState) -> (plan: ToolPlan)
    ensures
        plan@ == tool_plan(opt_json_view(*params), state@),
{
    let params = match params {
        Some(params) => params,
        None => {
            return ToolPlan::Done(
                Err(McpToolError::InvalidArgument("missing params".to_string())),
            );
        },
    };
    if let Some(field) = params.get("name") {
        if let Some(name) = field.as_str() {
            let null = Json::Null;
            let arguments = match params.get("arguments") {
                Some(arguments) => arguments,
                None => &null,
            };
            return if same_text(name, "android_status") {
                android_status(state)
            } else {
                run_adb(state, find_tool_command(name, arguments, state))
            };
        }
    }
    ToolPlan::Done(Err(McpToolError::InvalidArgument("missing tool name".to_string())))
}

/// The answer that the output of a command makes.
pub open spec fn output_text(label: Seq<char>, output: ProcessOutput) -> Result<
    Seq<char>,
    ToolErrorView,
> {
    if output.succeeded() {
        let stdout = output.stdout_text();
        let stderr = output.stderr_text();
        Ok(
            if stdout.len() == 0 && stderr.len() == 0 {
                label + " completed successfully"@
            } else if stderr.len() == 0 {
                stdout
            } else if stdout.len() == 0 {
                stderr
            } else {
                stdout + "\n"@ + stderr
            },
        )
    } else {
        Err(ToolErrorView::CommandFailed(command_error_text(label, output)))
    }
}

pub fn output_to_text(label: &str, output: &ProcessOutput) -> (text: Result<String, McpToolError>)
    ensures
        outcome_view(text) == output_text(label@, *output),
{
    if output.success() {
        let stdout = output.stdout_string();
        let stderr = output.stderr_string();
        let no_stdout = stdout.as_str().is_empty();
        let no_stderr = stderr.as_str().is_empty();
        return Ok(
            if no_stdout && no_stderr {
                concat2(label, " completed successfully")
            } else if no_stderr {
                stdout
            } else if no_stdout {
                stderr
            } else {
                concat3(stdout.as_str(), "\n", stderr.as_str())
            },
        );
    }
    Err(McpToolError::CommandFailed(command_error(label, output)))
}

/// The arguments with which ADB is called at a stage of a run.
pub open spec fn run_args(run: ToolRunView) -> Seq<Seq<char>> {
    match run.stage {
        ToolStage::Connect => seq!["connect"@, run.endpoint],
        ToolStage::Run => run.command.args,
    }
}

/// What follows a command of a run.
#[derive(Debug)]
pub enum ToolStep {
    Next(ToolRun),
    /// The bytes are written to the file, and then `screenshot_saved` tells the outcome.
    Save(String, Vec<u8>),
    Done(Result<String, McpToolError>),
}

pub enum ToolStepView {
    Next(ToolRunView),
    Save(Seq<char>, Seq<u8>),
    Done(Result<Seq<char>, ToolErrorView>),
}

impl View for ToolStep {
    type V = ToolStepView;

    open spec fn view(&self) -> ToolStepView {
        match self {
            ToolStep::Next(run) => ToolStepView::Next(run@),
            ToolStep::Save(path, bytes) => ToolStepView::Save(path@, bytes@),
            ToolStep::Done(outcome) => ToolStepView::Done(outcome_view(*outcome)),
        }
    }
}

/// What the ADB command of a run came to, before it is made an answer of: the output of the
/// command, or why there is none. Nothing, while the command is still to be run.
pub open spec fn adb_outcome(run: ToolRunView, outcome: Result<ProcessOutput, String>) -> Option<
    Result<ProcessOutput, ToolErrorView>,
> {
    match (run.stage, outcome) {
        (ToolStage::Connect, Err(message)) => Some(
            Err(ToolErrorView::CommandFailed("failed to execute adb connect: "@ + message@)),
        ),
        (ToolStage::Connect, Ok(output)) => if output.succeeded() {
            None
        } else {
            Some(
                Err(ToolErrorView::CommandFailed(command_error_text("adb connect"@, output))),
            )
        },
        (ToolStage::Run, Err(message)) => Some(
            Err(ToolErrorView::CommandFailed("failed to execute adb: "@ + message@)),
        ),
        (ToolStage::Run, Ok(output)) => Some(Ok(output)),
    }
}

/// The first lines of a report on a runtime.
pub open spec fn report_head(run: ToolRunView) -> Seq<char> {
    "Android runtime: "@ + run.container + "\nADB endpoint: "@ + run.endpoint
}

/// What is made of what an ADB command came to.
pub open spec fn tool_finish(
    run: ToolRunView,
    outcome: Result<ProcessOutput, ToolErrorView>,
) -> ToolStepView {
    let text = match outcome {
        Ok(output) => output_text("adb"@, output),
        Err(error) => Err(error),
    };
    match run.command.finish {
        ToolFinishView::Text => ToolStepView::Done(text),
        ToolFinishView::Status => ToolStepView::Done(
            Ok(
                report_head(run) + match text {
                    Ok(text) => "\n\n"@ + text,
                    Err(error) => "\nADB status error: "@ + tool_error_text(error),
                },
            ),
        ),
        ToolFinishView::Screenshot(path) => match outcome {
            Err(error) => ToolStepView::Done(Err(error)),
            Ok(output) => if output.succeeded() {
                ToolStepView::Save(path, output.stdout@)
            } else {
                ToolStepView::Done(
                    Err(
                        ToolErrorView::CommandFailed(
                            command_error_text("adb screenshot"@, output),
                        ),
                    ),
                )
            },
        },
    }
}

/// What follows a command of a run, given what the command left, or the error with which it could
/// not be started.
pub open spec fn tool_step(run: ToolRunView, outcome: Result<ProcessOutput, String>) ->
    ToolStepView {
    match adb_outcome(run, outcome) {
        None => ToolStepView::Next(ToolRunView { stage: ToolStage::Run, ..run }),
        Some(came_to) => tool_finish(run, came_to),
    }
}

/// What an ADB command came to.
pub open spec fn came_to_view(outcome: Result<ProcessOutput, McpToolError>) -> Result<
    ProcessOutput,
    ToolErrorView,
> {
    match outcome {
        Ok(output) => Ok(output),
        Err(error) => Err(error@),
    }
}

impl ToolRun {
    /// The arguments with which ADB is called next.
    pub fn args(&self) -> (args: Vec<String>)
        ensures
            texts(args@) == run_args(self@),
    {
        match self.stage {
            ToolStage::Connect => {
                let args = vec!["connect".to_string(), self.endpoint.clone()];
                assert(texts(args@) =~= seq!["connect"@, self.endpoint@]);
                args
            },
            ToolStage::Run => copy_texts(self.command.args.as_slice()),
        }
    }

    fn report(&self, text: Result<String, McpToolError>) -> (report: String)
        ensures
            report@ == report_head(self@) + match outcome_view(text) {
                Ok(text) => "\n\n"@ + text,
                Err(error) => "\nADB status error: "@ + tool_error_text(error),
            },
    {
        let mut report = concat3("Android runtime: ", self.container.as_str(), "\nADB endpoint: ");
        report.append(self.endpoint.as_str());
        let rest = match text {
            Ok(text) => concat2("\n\n", text.as_str()),
            Err(error) => concat2("\nADB status error: ", error.message().as_str()),
        };
        report.append(rest.as_str());
        report
    }

    fn finish(self, outcome: Result<ProcessOutput, McpToolError>) -> (step: ToolStep)
        ensures
            step@ == tool_finish(self@, came_to_view(outcome)),
    {
        match &self.command.finish {
            ToolFinish::Text => ToolStep::Done(
                match outcome {
                    Ok(output) => output_to_text("adb", &output),
                    Err(error) => Err(error),
                },
            ),
            ToolFinish::Status => {
                let text = match outcome {
                    Ok(output) => output_to_text("adb", &output),
                    Err(error) => Err(error),
                };
                ToolStep::Done(Ok(self.report(text)))
            },
            ToolFinish::Screenshot(path) => match outcome {
                Err(error) => ToolStep::Done(Err(error)),
                Ok(output) => if output.success() {
                    ToolStep::Save(path.clone(), output.stdout)
                } else {
                    ToolStep::Done(
                        Err(
                            McpToolError::CommandFailed(command_error("adb screenshot", &output)),
                        ),
                    )
                },
            },
        }
    }

    /// Takes in what the command left, or the error with which it could not be started.
    pub fn advance(self, outcome: Result<ProcessOutput, String>) -> (step: ToolStep)
        ensures
            step@ == tool_step(self@, outcome),
    {
        match (self.stage, outcome) {
            (ToolStage::Connect, Err(message)) => self.finish(
                Err(
                    McpToolError::CommandFailed(
                        concat2("failed to execute adb connect: ", message.as_str()),
                    ),
                ),
            ),
            (ToolStage::Connect, Ok(output)) => if output.success() {
                ToolStep::Next(ToolRun { stage: ToolStage::Run, ..self })
            } else {
                self.finish(
                    Err(McpToolError::CommandFailed(command_error("adb connect", &output))),
                )
            },
            (ToolStage::Run, Err(message)) => self.finish(
                Err(
                    McpToolError::CommandFailed(
                        concat2("failed to execute adb: ", message.as_str()),
                    ),
                ),
            ),
            (ToolStage::Run, Ok(output)) => self.finish(Ok(output)),
        }
    }
}

/// The outcome of `android_screenshot` after the file was written, or after that failed.
pub fn screenshot_saved(path: &str, outcome: Result<(), String>) -> (text: Result<
    String,
    McpToolError,
>)
    ensures
        outcome_view(text) == (match outcome {
            Ok(_) => Ok("screenshot written to "@ + path@),
            Err(message) => Err(ToolErrorView::Io(message@)),
        }),
{
    match outcome {
        Ok(_) => Ok(concat2("screenshot written to ", path)),
        Err(message) => Err(McpToolError::Io(message)),
    }
}

// Requests.

/// A request of a client.
#[derive(Debug)]
pub struct JsonRpcRequest {
    pub id: Option<Json>,
    pub method: String,
    pub params: Option<Json>,
}

pub struct JsonRpcRequestView {
    pub id: Option<JsonView>,
    pub method: Seq<char>,
    pub params: Option<JsonView>,
}

impl View for JsonRpcRequest {
    type V = JsonRpcRequestView;

    open spec fn view(&self) -> JsonRpcRequestView {
        JsonRpcRequestView {
            id: opt_json_view(self.id),
            method: self.method@,
            params: opt_json_view(self.params),
        }
    }
}

/// A reply with a result.
pub open spec fn result_reply(id: JsonView, result: JsonView) -> JsonView {
    JsonView::Object(
        map![
            "jsonrpc"@ => JsonView::Text("2.0"@),
            "id"@ => id,
            "result"@ => result,
        ],
    )
}

fn result_reply_exec(id: Json, result: Json) -> (reply: Json)
    ensures
        reply@ == result_reply(id@, result@),
{
    let mut fields = no_fields();
    put(&mut fields, "jsonrpc", text_json("2.0"));
    put(&mut fields, "id", id);
    put(&mut fields, "result", result);
    Json::Object(fields)
}

/// A reply with an error.
pub open spec fn error_reply(id: JsonView, code: int, message: Seq<char>) -> JsonView {
    JsonView::Object(
        map![
            "jsonrpc"@ => JsonView::Text("2.0"@),
            "id"@ => id,
            "error"@ => JsonView::Object(
                map![
                    "code"@ => JsonView::Integer(code),
                    "message"@ => JsonView::Text(message),
                ],
            ),
        ],
    )
}

pub fn json_rpc_error(id: Json, code: i64, message: &str) -> (reply: Json)
    ensures
        reply@ == error_reply(id@, code as int, message@),
{
    let mut error = no_fields();
    put(&mut error, "code", Json::Signed(code));
    put(&mut error, "message", text_json(message));
    let mut fields = no_fields();
    put(&mut fields, "jsonrpc", text_json("2.0"));
    put(&mut fields, "id", id);
    put(&mut fields, "error", Json::Object(error));
    Json::Object(fields)
}

/// The reply to a message that is no request, for the reason that is given.
pub fn invalid_request_reply(reason: &str) -> (reply: Json)
    ensures
        reply@ == error_reply(
            JsonView::Null,
            -32700,
            "invalid JSON-RPC request: "@ + reason@,
        ),
{
    json_rpc_error(Json::Null, -32700, concat2("invalid JSON-RPC request: ", reason).as_str())
}

/// A tool as a client is told of it.
pub open spec fn tool_json(name: Seq<char>, description: Seq<char>) -> JsonView {
    JsonView::Object(
        map![
            "name"@ => JsonView::Text(name),
            "description"@ => JsonView::Text(description),
            "inputSchema"@ => JsonView::Object(
                map![
                    "type"@ => JsonView::Text("object"@),
                    "additionalProperties"@ => JsonView::Bool(true),
                ],
            ),
        ],
    )
}

fn tool_to_json(tool: &McpToolSpec) -> (json: Json)
    ensures
        json@ == tool_json(tool.name@, tool.description@),
{
    let mut schema = no_fields();
    put(&mut schema, "type", text_json("object"));
    put(&mut schema, "additionalProperties", Json::Bool(true));
    let mut fields = no_fields();
    put(&mut fields, "name", text_json(tool.name));
    put(&mut fields, "description", text_json(tool.description));
    put(&mut fields, "inputSchema", Json::Object(schema));
    Json::Object(fields)
}

/// The tools as a client is told of them.
pub open spec fn tools_json() -> JsonView {
    JsonView::List(
        tool_list().map_values(|tool: (Seq<char>, Seq<char>)| tool_json(tool.0, tool.1)),
    )
}

pub fn render_tools() -> (json: Json)
    ensures
        json@ == tools_json(),
{
    let tools = android_tools();
    let ghost wanted = tool_list().map_values(
        |tool: (Seq<char>, Seq<char>)| tool_json(tool.0, tool.1),
    );
    let mut items: Vec<Json> = Vec::new();
    for i in 0..tools.len()
        invariant
            tools_view(tools@) == tool_list(),
            wanted == tool_list().map_values(
                |tool: (Seq<char>, Seq<char>)| tool_json(tool.0, tool.1),
            ),
            list_view(items@) =~= wanted.take(i as int),
    {
        let ghost before = items@;
        assert(tools_view(tools@)[i as int] == (tools@[i as int].name@, tools@[
            i as int
        ].description@));
        items.push(tool_to_json(&tools[i]));
        assert(items@.drop_last() =~= before);
    }
    assert(tools_view(tools@).len() == tools@.len());
    assert(wanted.take(wanted.len() as int) =~= wanted);
    Json::List(items)
}

/// What a client is told that begins to talk.
pub open spec fn initialize_json() -> JsonView {
    JsonView::Object(
        map![
            "protocolVersion"@ => JsonView::Text("2024-11-05"@),
            "capabilities"@ => JsonView::Object(
                map!["tools"@ => JsonView::Object(Map::empty())],
            ),
            "serverInfo"@ => JsonView::Object(
                map![
                    "name"@ => JsonView::Text(SERVER_NAME@),
                    "version"@ => JsonView::Text(SERVER_VERSION@),
                ],
            ),
        ],
    )
}

fn initialize_result() -> (json: Json)
    ensures
        json@ == initialize_json(),
{
    let mut capabilities = no_fields();
    put(&mut capabilities, "tools", Json::Object(no_fields()));
    let mut info = no_fields();
    put(&mut info, "name", text_json(SERVER_NAME));
    put(&mut info, "version", text_json(SERVER_VERSION));
    let mut fields = no_fields();
    put(&mut fields, "protocolVersion", text_json("2024-11-05"));
    put(&mut fields, "capabilities", Json::Object(capabilities));
    put(&mut fields, "serverInfo", Json::Object(info));
    Json::Object(fields)
}

/// The reply to a call of a tool.
pub open spec fn tool_reply(id: JsonView, outcome: Result<Seq<char>, ToolErrorView>) -> JsonView {
    let text = match outcome {
        Ok(text) => text,
        Err(error) => tool_error_text(error),
    };
    result_reply(
        id,
        JsonView::Object(
            map![
                "content"@ => JsonView::List(
                    seq![
                        JsonView::Object(
                            map![
                                "type"@ => JsonView::Text("text"@),
                                "text"@ => JsonView::Text(text),
                            ],
                        ),
                    ],
                ),
                "isError"@ => JsonView::Bool(outcome is Err),
            ],
        ),
    )
}

/// The reply to a call of a tool, given the outcome of the tool.
pub fn handle_tools_call(id: Json, outcome: Result<String, McpToolError>) -> (reply: Json)
    ensures
        reply@ == tool_reply(id@, outcome_view(outcome)),
{
    let (text, is_error) = match outcome {
        Ok(text) => (text, false),
        Err(error) => (error.message(), true),
    };
    let mut part = no_fields();
    put(&mut part, "type", text_json("text"));
    put(&mut part, "text", text_json(text.as_str()));
    let part_json = Json::Object(part);
    let content = vec![part_json];
    proof {
        assert(content@.drop_last() =~= Seq::empty());
        assert(list_view(content@.drop_last()) =~= Seq::empty());
        assert(list_view(content@) =~= seq![part_json@]);
    }
    let mut result = no_fields();
    put(&mut result, "content", Json::List(content));
    put(&mut result, "isError", Json::Bool(is_error));
    result_reply_exec(id, Json::Object(result))
}

/// What the server does about a request.
#[derive(Debug)]
pub enum Handling {
    NoReply,
    Reply(Json),
    /// The ADB command is run, and its outcome is replied under this id.
    Run(Json, ToolRun),
}

pub enum HandlingView {
    NoReply,
    Reply(JsonView),
    Run(JsonView, ToolRunView),
}

impl View for Handling {
    type V = HandlingView;

    open spec fn view(&self) -> HandlingView {
        match self {
            Handling::NoReply => HandlingView::NoReply,
            Handling::Reply(reply) => HandlingView::Reply(reply@),
            Handling::Run(id, run) => HandlingView::Run(id@, run@),
        }
    }
}

/// The id under which a request is replied to.
pub open spec fn reply_id(request: JsonRpcRequestView) -> JsonView {
    match request.id {
        Some(id) => id,
        None => JsonView::Null,
    }
}

/// Whether a request is a notification, which is not replied to.
pub open spec fn is_notification(request: JsonRpcRequestView) -> bool {
    request.id is None && begins_with(request.method, "notifications/"@)
}

/// What the server does about a request.
pub open spec fn handling(request: JsonRpcRequestView, state: McpStateView) -> HandlingView {
    let id = reply_id(request);
    if is_notification(request) {
        HandlingView::NoReply
    } else if request.method == "initialize"@ {
        HandlingView::Reply(result_reply(id, initialize_json()))
    } else if request.method == "tools/list"@ {
        HandlingView::Reply(
            result_reply(id, JsonView::Object(map!["tools"@ => tools_json()])),
        )
    } else if request.method == "tools/call"@ {
        match tool_plan(request.params, state) {
            ToolPlanView::Done(outcome) => HandlingView::Reply(tool_reply(id, outcome)),
            ToolPlanView::Run(run) => HandlingView::Run(id, run),
        }
    } else {
        HandlingView::Reply(error_reply(id, -32601, "method not found: "@ + request.method))
    }
}

pub fn handle_request(request: JsonRpcRequest, state: &McpState) -> (handled: Handling)
    ensures
        handled@ == handling(request@, state@),
{
    let method = request.method.as_str();
    let id = match request.id {
        Some(id) => id,
        None => {
            if has_prefix(method, "notifications/") {
                return Handling::NoReply;
            }
            Json::Null
        },
    };
    if same_text(method, "initialize") {
        Handling::Reply(result_reply_exec(id, initialize_result()))
    } else if same_text(method, "tools/list") {
        let mut fields = no_fields();
        put(&mut fields, "tools", render_tools());
        Handling::Reply(result_reply_exec(id, Json::Object(fields)))
    } else if same_text(method, "tools/call") {
        match call_tool_from_params(&request.params, state) {
            ToolPlan::Done(outcome) => Handling::Reply(handle_tools_call(id, outcome)),
            ToolPlan::Run(run) => Handling::Run(id, run),
        }
    } else {
        Handling::Reply(json_rpc_error(id, -32601, concat2("method not found: ", method).as_str()))
    }
}

// Laws.

/// The server replies to every request but notifications, and under the id of the request.
pub proof fn replies_carry_the_id(request: JsonRpcRequestView, state: McpStateView)
    ensures
        handling(request, state) is NoReply <==> is_notification(request),
        handling(request, state) matches HandlingView::Reply(reply) ==> field_of(reply, "id"@)
            == Some(reply_id(request)),
        handling(request, state) matches HandlingView::Run(id, _) ==> id == reply_id(request),
{
    lemma_reply_names();
}

/// The outcome of a tool is replied under the id of the request.
pub proof fn tool_replies_carry_the_id(id: JsonView, outcome: Result<Seq<char>, ToolErrorView>)
    ensures
        field_of(tool_reply(id, outcome), "id"@) == Some(id),
{
    lemma_reply_names();
}

proof fn lemma_reply_names()
    ensures
        "id"@ != "result"@,
        "id"@ != "error"@,
        "id"@ != "jsonrpc"@,
{
    reveal_strlit("id");
    reveal_strlit("result");
    reveal_strlit("error");
    reveal_strlit("jsonrpc");
    assert("id"@.len() != "result"@.len());
    assert("id"@.len() != "error"@.len());
    assert("id"@.len() != "jsonrpc"@.len());
}

/// Whether a tool of this name is listed.
pub open spec fn is_listed(name: Seq<char>) -> bool {
    exists|i: int| 0 <= i < tool_list().len() && (#[trigger] tool_list()[i]).0 == name
}

/// A tool that is not listed is refused by its name.
pub proof fn only_listed_tools_are_known(params: JsonView, state: McpStateView, name: Seq<char>)
    requires
        field_of(params, "name"@) == Some(JsonView::Text(name)),
        !is_listed(name),
    ensures
        tool_plan(Some(params), state) == ToolPlanView::Done(
            Err(ToolErrorView::InvalidArgument("unknown Android MCP tool: "@ + name)),
        ),
{
    let all = tool_list();
    assert(all[0].0 == "android_status"@);
    assert(all[1].0 == "android_devices"@);
    assert(all[2].0 == "android_screenshot"@);
    assert(all[3].0 == "android_tap"@);
    assert(all[4].0 == "android_swipe"@);
    assert(all[5].0 == "android_type_text"@);
    assert(all[6].0 == "android_press_key"@);
    assert(all[7].0 == "android_launch_app"@);
    assert(all[8].0 == "android_open_url"@);
    assert(all[9].0 == "android_logcat"@);
    assert(all[10].0 == "android_install_apk"@);
}

/// Text that is typed holds no blank, which would end it.
pub proof fn typed_text_has_no_blanks(text: Seq<char>)
    ensures
        !without_blanks(text).contains(' '),
    decreases text.len(),
{
    reveal_strlit("%s");
    if text.len() > 0 {
        typed_text_has_no_blanks(text.drop_last());
        let before = without_blanks(text.drop_last());
        let all = without_blanks(text);
        assert forall|k: int| 0 <= k < all.len() implies all[k] != ' ' by {
            if k < before.len() {
                assert(all[k] == before[k]);
                assert(before.contains(before[k]));
            }
        }
    }
}

/// A server that may not use ADB runs no ADB command, whatever it is asked.
pub proof fn no_adb_without_probing(request: JsonRpcRequestView, state: McpStateView)
    requires
        !state.adb_probe,
    ensures
        handling(request, state) !is Run,
{
}

/// A server that may not install apps refuses to, and runs no command for it.
pub proof fn no_installs_unless_allowed(params: JsonView, state: McpStateView)
    requires
        !state.allow_install,
        field_of(params, "name"@) == Some(JsonView::Text("android_install_apk"@)),
    ensures
        tool_plan(Some(params), state) == ToolPlanView::Done(
            Err(ToolErrorView::InvalidArgument("APK installation requires --allow-install"@)),
        ),
{
    reveal_strlit("android_install_apk");
    reveal_strlit("android_status");
    reveal_strlit("android_devices");
    reveal_strlit("android_screenshot");
    reveal_strlit("android_tap");
    reveal_strlit("android_swipe");
    reveal_strlit("android_type_text");
    reveal_strlit("android_press_key");
    reveal_strlit("android_launch_app");
    reveal_strlit("android_open_url");
    reveal_strlit("android_logcat");
    let name = "android_install_apk"@;
    assert(name.len() == 19);
    assert("android_status"@.len() == 14);
    assert("android_devices"@.len() == 15);
    assert("android_screenshot"@.len() == 18);
    assert("android_tap"@.len() == 11);
    assert("android_swipe"@.len() == 13);
    assert("android_type_text"@.len() == 17);
    assert("android_press_key"@.len() == 17);
    assert("android_launch_app"@.len() == 18);
    assert("android_open_url"@.len() == 16);
    assert("android_logcat"@.len() == 14);
}

/// Every run connects first, then runs its command once, and ends.
pub proof fn runs_connect_and_run_once(run: ToolRunView, outcome: Result<ProcessOutput, String>)
    ensures
        run.stage is Run ==> tool_step(run, outcome) !is Next,
        run.stage is Connect && (outcome matches Ok(output) && output.succeeded()) ==> tool_step(
            run,
            outcome,
        ) == ToolStepView::Next(ToolRunView { stage: ToolStage::Run, ..run }),
        run.stage is Connect && !(outcome matches Ok(output) && output.succeeded()) ==> tool_step(
            run,
            outcome,
        ) is Done,
{
}

/// A path of the workspace leads into it: it goes on from the workspace with a part that neither
/// begins at the root nor leads up.
pub proof fn workspace_paths_stay_inside(workspace: Seq<char>, value: Seq<char>)
    requires
        path_in(workspace, value) is Ok,
    ensures
        ({
            let path = path_in(workspace, value)->Ok_0;
            &&& begins_with(path, workspace)
            &&& path.skip(path.len() - value.len()) == value
            &&& value.len() > 0 && value[0] != '/' && !leads_up(value)
            &&& workspace.len() > 0 ==> path[path.len() - value.len() - 1] == '/'
        }),
{
    let path = path_in(workspace, value)->Ok_0;
    reveal_strlit("/");
    assert("/"@ =~= seq!['/']);
    assert(path.take(workspace.len() as int) =~= workspace);
    assert(path.skip(path.len() - value.len()) =~= value);
}

/// Typing changes nothing but blanks: text without a blank is typed as it is, and at a blank the
/// text is typed up to there, then `%s`, and then the rest.
pub proof fn typing_changes_blanks_alone(before: Seq<char>, after: Seq<char>)
    ensures
        !before.contains(' ') ==> without_blanks(before) == before,
        without_blanks(before + seq![' '] + after) == without_blanks(before) + seq!['%', 's']
            + without_blanks(after),
        without_blanks(before + after) == without_blanks(before) + without_blanks(after),
{
    reveal_strlit("%s");
    assert("%s"@ =~= seq!['%', 's']);
    lemma_typed_as_it_is(before);
    lemma_typed_in_parts(before, after);
    lemma_typed_in_parts(before + seq![' '], after);
    assert((before + seq![' ']).drop_last() =~= before);
    assert((before + seq![' ']).last() == ' ');
}

proof fn lemma_typed_as_it_is(text: Seq<char>)
    ensures
        !text.contains(' ') ==> without_blanks(text) == text,
    decreases text.len(),
{
    if !text.contains(' ') {
        if text.len() == 0 {
            assert(without_blanks(text) =~= text);
        } else {
            let front = text.drop_last();
            assert(!front.contains(' ')) by {
                if front.contains(' ') {
                    let i = choose|i: int| 0 <= i < front.len() && front[i] == ' ';
                    assert(text[i] == ' ');
                }
            }
            lemma_typed_as_it_is(front);
            assert(text.contains(text.last())) by {
                assert(text[text.len() - 1] == text.last());
            }
            assert(front.push(text.last()) =~= text);
        }
    }
}

proof fn lemma_typed_in_parts(before: Seq<char>, after: Seq<char>)
    ensures
        without_blanks(before + after) == without_blanks(before) + without_blanks(after),
    decreases after.len(),
{
    let all = before + after;
    if after.len() == 0 {
        assert(all =~= before);
        assert(without_blanks(before) + without_blanks(after) =~= without_blanks(before));
    } else {
        let front = after.drop_last();
        lemma_typed_in_parts(before, front);
        assert(all.drop_last() =~= before + front);
        assert(all.last() == after.last());
        if after.last() == ' ' {
            assert(without_blanks(before) + without_blanks(front) + "%s"@ =~= without_blanks(before)
                + (without_blanks(front) + "%s"@));
        } else {
            assert((without_blanks(before) + without_blanks(front)).push(after.last())
                =~= without_blanks(before) + without_blanks(front).push(after.last()));
        }
    }
}

proof fn lemma_tool_names()
    ensures
        "android_status"@.len() == 14 && "android_status"@[8] == 's',
        "android_devices"@.len() == 15,
        "android_screenshot"@.len() == 18 && "android_screenshot"@[8] == 's',
        "android_tap"@.len() == 11,
        "android_swipe"@.len() == 13,
        "android_type_text"@.len() == 17 && "android_type_text"@[8] == 't',
        "android_press_key"@.len() == 17 && "android_press_key"@[8] == 'p',
        "android_launch_app"@.len() == 18 && "android_launch_app"@[8] == 'l',
        "android_open_url"@.len() == 16,
        "android_logcat"@.len() == 14 && "android_logcat"@[8] == 'l',
        "android_install_apk"@.len() == 19,
{
    reveal_strlit("android_status");
    reveal_strlit("android_devices");
    reveal_strlit("android_screenshot");
    reveal_strlit("android_tap");
    reveal_strlit("android_swipe");
    reveal_strlit("android_type_text");
    reveal_strlit("android_press_key");
    reveal_strlit("android_launch_app");
    reveal_strlit("android_open_url");
    reveal_strlit("android_logcat");
    reveal_strlit("android_install_apk");
}

/// A call of the tool of that name with those arguments.
pub open spec fn calls(params: JsonView, name: Seq<char>, arguments: JsonView) -> bool {
    &&& field_of(params, "name"@) == Some(JsonView::Text(name))
    &&& field_of(params, "arguments"@) == Some(arguments)
}

/// Whether a plan is to connect to the endpoint of the server and then to run ADB with `args`, and
/// to answer with what that leaves.
pub open spec fn runs_adb(plan: ToolPlanView, state: McpStateView, args: Seq<Seq<char>>) -> bool {
    plan matches ToolPlanView::Run(run) && run.stage is Connect && run.endpoint
        == state.spec.adb_endpoint && run.container == state.spec.android_container_name
        && run.command.args == args && run.command.finish is Text
}

/// Whether a plan is to do nothing but to refuse a call.
pub open spec fn refuses(plan: ToolPlanView, error: ToolErrorView) -> bool {
    plan == ToolPlanView::Done(Err::<Seq<char>, ToolErrorView>(error))
}

/// A tap goes to the point that is given, and a point that lacks a coordinate is refused by that
/// coordinate.
pub proof fn taps_go_to_their_point(
    params: JsonView,
    arguments: JsonView,
    state: McpStateView,
    x: int,
    y: int,
)
    requires
        calls(params, "android_tap"@, arguments),
        state.adb_probe,
    ensures
        ({
            let plan = tool_plan(Some(params), state);
            let has_x = field_of(arguments, "x"@) == Some(JsonView::Integer(x)) && i64::MIN <= x
                <= i64::MAX;
            let has_y = field_of(arguments, "y"@) == Some(JsonView::Integer(y)) && i64::MIN <= y
                <= i64::MAX;
            &&& has_x && has_y ==> runs_adb(
                plan,
                state,
                seq!["shell"@, "input"@, "tap"@, signed_decimal(x), signed_decimal(y)],
            )
            &&& field_of(arguments, "x"@) is None ==> refuses(
                plan,
                ToolErrorView::MissingArgument("x"@),
            )
            &&& has_x && field_of(arguments, "y"@) is None ==> refuses(
                plan,
                ToolErrorView::MissingArgument("y"@),
            )
        }),
{
    lemma_tool_names();
}

/// A swipe goes from the first point to the second, for as long as is given, and else for 300
/// milliseconds.
pub proof fn swipes_go_from_point_to_point(
    params: JsonView,
    arguments: JsonView,
    state: McpStateView,
    from: (i64, i64),
    to: (i64, i64),
    duration: i64,
)
    requires
        calls(params, "android_swipe"@, arguments),
        state.adb_probe,
        field_of(arguments, "startX"@) == Some(JsonView::Integer(from.0 as int)),
        field_of(arguments, "startY"@) == Some(JsonView::Integer(from.1 as int)),
        field_of(arguments, "endX"@) == Some(JsonView::Integer(to.0 as int)),
        field_of(arguments, "endY"@) == Some(JsonView::Integer(to.1 as int)),
    ensures
        ({
            let plan = tool_plan(Some(params), state);
            let swipe = |millis: int|
                seq![
                    "shell"@,
                    "input"@,
                    "swipe"@,
                    signed_decimal(from.0 as int),
                    signed_decimal(from.1 as int),
                    signed_decimal(to.0 as int),
                    signed_decimal(to.1 as int),
                    signed_decimal(millis),
                ];
            &&& field_of(arguments, "durationMs"@) is None ==> runs_adb(plan, state, swipe(300))
            &&& field_of(arguments, "durationMs"@) == Some(JsonView::Integer(duration as int))
                ==> runs_adb(plan, state, swipe(duration as int))
        }),
{
    lemma_tool_names();
    let numbers = swipe_numbers(arguments)->Ok_0;
    let args = seq!["shell"@, "input"@, "swipe"@] + numbers.map_values(
        |number: int| signed_decimal(number),
    );
    if field_of(arguments, "durationMs"@) is None {
        assert(args =~= seq![
            "shell"@, "input"@, "swipe"@, signed_decimal(from.0 as int),
            signed_decimal(from.1 as int), signed_decimal(to.0 as int), signed_decimal(to.1 as int),
            signed_decimal(300),
        ]);
    } else if field_of(arguments, "durationMs"@) == Some(JsonView::Integer(duration as int)) {
        assert(args =~= seq![
            "shell"@, "input"@, "swipe"@, signed_decimal(from.0 as int),
            signed_decimal(from.1 as int), signed_decimal(to.0 as int), signed_decimal(to.1 as int),
            signed_decimal(duration as int),
        ]);
    }
}

/// A swipe that lacks a coordinate is refused by the first that it lacks, and one with another
/// duration than an integer by that.
pub proof fn swipes_need_their_points(params: JsonView, arguments: JsonView, state: McpStateView)
    requires
        calls(params, "android_swipe"@, arguments),
    ensures
        ({
            let plan = tool_plan(Some(params), state);
            let given = |name: Seq<char>|
                field_of(arguments, name) is Some && i64_of(field_of(arguments, name)->0) is Some;
            let lacks = |name: Seq<char>| refuses(plan, ToolErrorView::MissingArgument(name));
            &&& !given("startX"@) ==> lacks("startX"@)
            &&& given("startX"@) && !given("startY"@) ==> lacks("startY"@)
            &&& given("startX"@) && given("startY"@) && !given("endX"@) ==> lacks("endX"@)
            &&& given("startX"@) && given("startY"@) && given("endX"@) && !given("endY"@) ==> lacks("endY"@)
            &&& given("startX"@) && given("startY"@) && given("endX"@) && given("endY"@) && field_of(
                arguments,
                "durationMs"@,
            ) is Some && !given("durationMs"@) ==> refuses(
                plan,
                ToolErrorView::InvalidArgument("durationMs must be an integer"@),
            )
        }),
{
    lemma_tool_names();
    reveal_strlit("durationMs");
    reveal_strlit(" must be an integer");
    reveal_strlit("durationMs must be an integer");
    assert("durationMs"@ + " must be an integer"@ =~= "durationMs must be an integer"@);
}

/// The text of the call is typed, with nothing but its blanks changed. The URL of the call is
/// opened, and its package launched, as they are given. A call without its text is refused by the
/// name of what it lacks.
pub proof fn texts_of_calls_are_handed_on(
    params: JsonView,
    arguments: JsonView,
    state: McpStateView,
    text: Seq<char>,
)
    requires
        state.adb_probe,
        field_of(params, "arguments"@) == Some(arguments),
    ensures
        ({
            let plan = tool_plan(Some(params), state);
            let named = |name: Seq<char>| field_of(params, "name"@) == Some(JsonView::Text(name));
            let given = |name: Seq<char>| field_of(arguments, name) == Some(JsonView::Text(text));
            let lacks = |name: Seq<char>|
                field_of(arguments, name) is None || field_of(arguments, name)->0 !is Text;
            let missing = |name: Seq<char>| refuses(plan, ToolErrorView::MissingArgument(name));
            &&& named("android_type_text"@) && given("text"@) ==> runs_adb(
                plan,
                state,
                seq!["shell"@, "input"@, "text"@, without_blanks(text)],
            )
            &&& named("android_type_text"@) && lacks("text"@) ==> missing("text"@)
            &&& named("android_open_url"@) && given("url"@) ==> runs_adb(
                plan,
                state,
                seq![
                    "shell"@, "am"@, "start"@, "-a"@, "android.intent.action.VIEW"@, "-d"@, text,
                ],
            )
            &&& named("android_open_url"@) && lacks("url"@) ==> missing("url"@)
            &&& named("android_launch_app"@) && given("package"@) && field_of(
                arguments,
                "activity"@,
            ) is None ==> runs_adb(plan, state, launch_args(text, None))
            &&& named("android_launch_app"@) && lacks("package"@) ==> missing("package"@)
            &&& named("android_press_key"@) && lacks("keycode"@) ==> missing("keycode"@)
            &&& named("android_devices"@) ==> runs_adb(plan, state, seq!["devices"@])
        }),
{
    lemma_tool_names();
}

/// An activity of a package is launched where one is given, and one that is no text is refused.
pub proof fn activities_are_launched(
    params: JsonView,
    arguments: JsonView,
    state: McpStateView,
    package: Seq<char>,
    activity: JsonView,
)
    requires
        state.adb_probe,
        calls(params, "android_launch_app"@, arguments),
        field_of(arguments, "package"@) == Some(JsonView::Text(package)),
        field_of(arguments, "activity"@) == Some(activity),
    ensures
        match activity {
            JsonView::Text(name) => runs_adb(
                tool_plan(Some(params), state),
                state,
                launch_args(package, Some(name)),
            ),
            _ => refuses(
                tool_plan(Some(params), state),
                ToolErrorView::InvalidArgument("activity must be a string"@),
            ),
        },
{
    lemma_tool_names();
    reveal_strlit("activity");
    reveal_strlit(" must be a string");
    reveal_strlit("activity must be a string");
    assert("activity"@ + " must be a string"@ =~= "activity must be a string"@);
}

/// A key is pressed by the code that is given, which holds nothing but ASCII letters, digits and
/// underscores; any other code is refused.
pub proof fn keys_are_pressed_by_their_code(
    params: JsonView,
    arguments: JsonView,
    state: McpStateView,
    code: Seq<char>,
)
    requires
        calls(params, "android_press_key"@, arguments),
        field_of(arguments, "keycode"@) == Some(JsonView::Text(code)),
        state.adb_probe,
    ensures
        ({
            let plan = tool_plan(Some(params), state);
            let fits = forall|i: int|
                0 <= i < code.len() ==> ('a' <= #[trigger] code[i] <= 'z' || 'A' <= code[i] <= 'Z'
                    || '0' <= code[i] <= '9' || code[i] == '_');
            &&& fits ==> runs_adb(plan, state, seq!["shell"@, "input"@, "keyevent"@, code])
            &&& !fits ==> refuses(
                plan,
                ToolErrorView::InvalidArgument(
                    "keycode may contain only ASCII letters, digits, and '_'"@,
                ),
            )
        }),
{
    lemma_tool_names();
    if is_keycode(code) {
        assert forall|i: int| 0 <= i < code.len() implies ('a' <= #[trigger] code[i] <= 'z' || 'A'
            <= code[i] <= 'Z' || '0' <= code[i] <= '9' || code[i] == '_') by {
            assert(is_key_char(code[i]));
        }
    } else {
        let i = choose|i: int| 0 <= i < code.len() && !is_key_char(#[trigger] code[i]);
        assert(!is_key_char(code[i]));
    }
}

/// As many lines of the log are read as are asked for, but never fewer than one nor more than a
/// thousand, and 200 where nothing is asked for.
pub proof fn logs_are_read_within_bounds(
    params: JsonView,
    arguments: JsonView,
    state: McpStateView,
    asked: i64,
)
    requires
        calls(params, "android_logcat"@, arguments),
        state.adb_probe,
    ensures
        ({
            let plan = tool_plan(Some(params), state);
            let reads = |count: int|
                runs_adb(plan, state, seq!["logcat"@, "-d"@, "-t"@, signed_decimal(count)]);
            let told = field_of(arguments, "lines"@);
            &&& told is None ==> reads(200)
            &&& told == Some(JsonView::Integer(asked as int)) && 1 <= asked <= 1000 ==> reads(
                asked as int,
            )
            &&& told == Some(JsonView::Integer(asked as int)) && asked < 1 ==> reads(1)
            &&& told == Some(JsonView::Integer(asked as int)) && asked > 1000 ==> reads(1000)
            &&& told is Some && told->0 !is Integer ==> refuses(
                plan,
                ToolErrorView::InvalidArgument("lines must be an integer"@),
            )
        }),
{
    lemma_tool_names();
    reveal_strlit("lines");
    reveal_strlit(" must be an integer");
    reveal_strlit("lines must be an integer");
    assert("lines"@ + " must be an integer"@ =~= "lines must be an integer"@);
}

/// A path is one of the workspace exactly where it is not empty, does not begin at the root and
/// does not lead up; and then it is that path inside the workspace.
pub proof fn paths_are_those_of_the_workspace(workspace: Seq<char>, value: Seq<char>)
    ensures
        path_in(workspace, value) is Ok <==> value.len() > 0 && value[0] != '/' && !leads_up(value),
        path_in(workspace, value) matches Ok(path) ==> path == joined(workspace, value),
        path_in(workspace, value) matches Err(error) ==> error == ToolErrorView::InvalidArgument(
            "path must be relative, non-empty, and must not contain '..'"@,
        ),
{
}

/// A screenshot is taken into the file of the workspace that is given, and else into one of the
/// usual name. An app is installed from the file of the workspace that is given.
pub proof fn files_of_calls_are_of_the_workspace(
    params: JsonView,
    arguments: JsonView,
    state: McpStateView,
    value: Seq<char>,
)
    requires
        state.adb_probe,
        field_of(params, "arguments"@) == Some(arguments),
        field_of(arguments, "path"@) is None || field_of(arguments, "path"@) == Some(
            JsonView::Text(value),
        ),
        field_of(arguments, "path"@) is None ==> value == "android-screenshot.png"@,
    ensures
        field_of(params, "name"@) == Some(JsonView::Text("android_screenshot"@)) ==> ({
            let plan = tool_plan(Some(params), state);
            match path_in(state.workspace, value) {
                Ok(path) => plan matches ToolPlanView::Run(run) && run.stage is Connect
                    && run.endpoint == state.spec.adb_endpoint && run.command.args == seq![
                    "exec-out"@, "screencap"@, "-p"@,
                ] && run.command.finish == ToolFinishView::Screenshot(path),
                Err(error) => refuses(plan, error),
            }
        }),
        field_of(params, "name"@) == Some(JsonView::Text("android_install_apk"@))
            && state.allow_install && field_of(arguments, "path"@) is Some ==> ({
            let plan = tool_plan(Some(params), state);
            match path_in(state.workspace, value) {
                Ok(path) => runs_adb(plan, state, seq!["install"@, path]),
                Err(error) => refuses(plan, error),
            }
        }),
        field_of(params, "name"@) == Some(JsonView::Text("android_install_apk"@))
            && state.allow_install && field_of(arguments, "path"@) is None ==> refuses(
            tool_plan(Some(params), state),
            ToolErrorView::MissingArgument("path"@),
        ),
{
    lemma_tool_names();
}

/// A call must name a tool. Arguments may be left out. Where ADB may not be used, a call that would
/// use it is refused for that.
pub proof fn calls_must_name_a_tool(params: JsonView, state: McpStateView)
    ensures
        refuses(tool_plan(None, state), ToolErrorView::InvalidArgument("missing params"@)),
        field_of(params, "name"@) is None || field_of(params, "name"@)->0 !is Text ==> refuses(
            tool_plan(Some(params), state),
            ToolErrorView::InvalidArgument("missing tool name"@),
        ),
        !state.adb_probe && field_of(params, "name"@) == Some(JsonView::Text("android_devices"@))
            ==> refuses(tool_plan(Some(params), state), ToolErrorView::AdbProbeDisabled),
        !state.adb_probe ==> (tool_plan(Some(params), state) matches ToolPlanView::Done(outcome) && (
        outcome is Ok <==> field_of(params, "name"@) == Some(JsonView::Text("android_status"@)))),
{
    lemma_tool_names();
}

proof fn lemma_told_names()
    ensures
        "project_id"@.len() == 10,
        "project_container_name"@.len() == 22 && "project_container_name"@[0] == 'p',
        "android_container_name"@.len() == 22 && "android_container_name"@[0] == 'a',
        "android_volume_name"@.len() == 19,
        "docker_network"@.len() == 14,
        "adb_endpoint"@.len() == 12,
        "image"@.len() == 5,
        "server"@.len() == 6,
        "adbProbe"@.len() == 8,
        "spec"@.len() == 4,
        "content"@.len() == 7,
        "isError"@.len() == 7 && "isError"@[0] == 'i' && "content"@[0] == 'c',
        "type"@.len() == 4 && "text"@.len() == 4 && "type"@[1] == 'y' && "text"@[1] == 'e',
        "code"@.len() == 4 && "message"@.len() == 7,
        "jsonrpc"@.len() == 7 && "id"@.len() == 2 && "result"@.len() == 6 && "error"@.len() == 5,
        "name"@.len() == 4 && "description"@.len() == 11 && "inputSchema"@.len() == 11,
        "description"@[0] == 'd' && "inputSchema"@[0] == 'i',
        "additionalProperties"@.len() == 20,
        "protocolVersion"@.len() == 15 && "capabilities"@.len() == 12 && "serverInfo"@.len() == 10,
        "version"@.len() == 7,
{
    reveal_strlit("project_id");
    reveal_strlit("project_container_name");
    reveal_strlit("android_container_name");
    reveal_strlit("android_volume_name");
    reveal_strlit("docker_network");
    reveal_strlit("adb_endpoint");
    reveal_strlit("image");
    reveal_strlit("server");
    reveal_strlit("adbProbe");
    reveal_strlit("spec");
    reveal_strlit("content");
    reveal_strlit("isError");
    reveal_strlit("type");
    reveal_strlit("text");
    reveal_strlit("code");
    reveal_strlit("message");
    reveal_strlit("jsonrpc");
    reveal_strlit("id");
    reveal_strlit("result");
    reveal_strlit("error");
    reveal_strlit("name");
    reveal_strlit("description");
    reveal_strlit("inputSchema");
    reveal_strlit("additionalProperties");
    reveal_strlit("protocolVersion");
    reveal_strlit("capabilities");
    reveal_strlit("serverInfo");
    reveal_strlit("version");
}

/// What is told of a runtime names each part of its spec, and that ADB was not used. Where it may be
/// used, the devices are asked for.
pub proof fn statuses_name_the_spec(state: McpStateView)
    ensures
        ({
            let json = spec_json(state.spec);
            let text = |name: Seq<char>, value: Seq<char>| field_of(json, name) == Some(
                JsonView::Text(value),
            );
            &&& text("project_id"@, state.spec.project_id)
            &&& text("project_container_name"@, state.spec.project_container_name)
            &&& text("android_container_name"@, state.spec.android_container_name)
            &&& text("android_volume_name"@, state.spec.android_volume_name)
            &&& text("docker_network"@, state.spec.docker_network)
            &&& text("adb_endpoint"@, state.spec.adb_endpoint)
            &&& text("image"@, state.spec.image)
            &&& field_of(status_json(state.spec), "spec"@) == Some(json)
            &&& field_of(status_json(state.spec), "adbProbe"@) == Some(JsonView::Bool(false))
            &&& field_of(status_json(state.spec), "server"@) == Some(
                JsonView::Text("android-connection"@),
            )
        }),
        !state.adb_probe ==> status_plan(state) == ToolPlanView::Done(
            Ok(pretty_text(status_json(state.spec))),
        ),
        state.adb_probe ==> (status_plan(state) matches ToolPlanView::Run(run) && run.stage is Connect
            && run.endpoint == state.spec.adb_endpoint && run.container
            == state.spec.android_container_name && run.command.args == seq!["devices"@]
            && run.command.finish is Status),
{
    lemma_told_names();
}

/// The answer to a command that succeeded is what it wrote, its standard output before its standard
/// error with a line end between them where there are both, and a word on its success where it
/// wrote nothing. One that failed is reported.
pub proof fn outputs_are_the_answer(label: Seq<char>, output: ProcessOutput)
    ensures
        ({
            let out = trim(lossy_text(output.stdout@));
            let err = trim(lossy_text(output.stderr@));
            let good = output.code == Some(0i32);
            let answer = output_text(label, output);
            let is = |text: Seq<char>| answer == Ok::<Seq<char>, ToolErrorView>(text);
            &&& !good ==> answer == Err::<Seq<char>, ToolErrorView>(
                ToolErrorView::CommandFailed(command_error_text(label, output)),
            )
            &&& good && out.len() > 0 && err.len() == 0 ==> is(out)
            &&& good && out.len() == 0 && err.len() > 0 ==> is(err)
            &&& good && out.len() > 0 && err.len() > 0 ==> is(out + seq!['\n'] + err)
            &&& good && out.len() == 0 && err.len() == 0 ==> is(label + " completed successfully"@)
        }),
{
    reveal_strlit("\n");
    assert("\n"@ =~= seq!['\n']);
}

/// ADB is called to connect to the endpoint, and then with the arguments of the command. What the
/// command leaves is made the answer: as it is, as part of a report, or as the bytes of a file.
pub proof fn runs_end_with_their_answer(run: ToolRunView, output: ProcessOutput, message: String)
    ensures
        run.stage is Connect ==> run_args(run) == seq!["connect"@, run.endpoint],
        run.stage is Run ==> run_args(run) == run.command.args,
        run.stage is Run && run.command.finish is Text ==> tool_step(run, Ok(output))
            == ToolStepView::Done(output_text("adb"@, output)),
        run.stage is Run && run.command.finish is Text ==> tool_step(run, Err(message))
            == ToolStepView::Done(
            Err(ToolErrorView::CommandFailed("failed to execute adb: "@ + message@)),
        ),
        run.stage is Connect && run.command.finish !is Status ==> tool_step(run, Err(message))
            == ToolStepView::Done(
            Err(ToolErrorView::CommandFailed("failed to execute adb connect: "@ + message@)),
        ),
        run.stage is Connect && run.command.finish !is Status && output.code != Some(0i32)
            ==> tool_step(run, Ok(output)) == ToolStepView::Done(
            Err(ToolErrorView::CommandFailed(command_error_text("adb connect"@, output))),
        ),
        run.stage is Run ==> (run.command.finish matches ToolFinishView::Screenshot(path) ==> (
        output.code == Some(0i32) ==> tool_step(run, Ok(output)) == ToolStepView::Save(
            path,
            output.stdout@,
        )) && (output.code != Some(0i32) ==> tool_step(run, Ok(output)) == ToolStepView::Done(
            Err(ToolErrorView::CommandFailed(command_error_text("adb screenshot"@, output))),
        )) && tool_step(run, Err(message)) == ToolStepView::Done(
            Err(ToolErrorView::CommandFailed("failed to execute adb: "@ + message@)),
        )),
{
}

/// A report names the container and the endpoint, and then what ADB left, or why it left nothing;
/// it is never an error.
pub proof fn reports_name_the_runtime(run: ToolRunView, output: ProcessOutput, message: String)
    requires
        run.command.finish is Status,
    ensures
        ({
            let head = "Android runtime: "@ + run.container + "\nADB endpoint: "@ + run.endpoint;
            let reports = |step: ToolStepView, rest: Seq<char>|
                step == ToolStepView::Done(Ok::<Seq<char>, ToolErrorView>(head + rest));
            &&& run.stage is Run ==> (match output_text("adb"@, output) {
                Ok(text) => reports(tool_step(run, Ok(output)), "\n\n"@ + text),
                Err(error) => reports(
                    tool_step(run, Ok(output)),
                    "\nADB status error: "@ + tool_error_text(error),
                ),
            })
            &&& run.stage is Run ==> reports(
                tool_step(run, Err(message)),
                "\nADB status error: "@ + ("failed to execute adb: "@ + message@),
            )
            &&& run.stage is Connect ==> reports(
                tool_step(run, Err(message)),
                "\nADB status error: "@ + ("failed to execute adb connect: "@ + message@),
            )
            &&& run.stage is Connect && output.code != Some(0i32) ==> reports(
                tool_step(run, Ok(output)),
                "\nADB status error: "@ + command_error_text("adb connect"@, output),
            )
        }),
{
}

/// An error is told as what it is.
pub proof fn errors_are_told_as_they_are(text: Seq<char>)
    ensures
        tool_error_text(ToolErrorView::MissingArgument(text)) == "missing required argument: "@ + text,
        tool_error_text(ToolErrorView::InvalidArgument(text)) == "invalid argument: "@ + text,
        tool_error_text(ToolErrorView::AdbProbeDisabled)
            == "ADB probing is disabled for this server"@,
        tool_error_text(ToolErrorView::CommandFailed(text)) == text,
        tool_error_text(ToolErrorView::Io(text)) == text,
{
}

/// The reply to a call holds the text of its outcome, once, and says whether it is an error.
pub proof fn replies_hold_the_outcome(id: JsonView, outcome: Result<Seq<char>, ToolErrorView>)
    ensures
        ({
            let text = match outcome {
                Ok(text) => text,
                Err(error) => tool_error_text(error),
            };
            field_of(tool_reply(id, outcome), "result"@) matches Some(result) && field_of(
                result,
                "isError"@,
            ) == Some(JsonView::Bool(outcome is Err)) && (field_of(result, "content"@) matches Some(
                JsonView::List(parts),
            ) && parts.len() == 1 && field_of(parts[0], "type"@) == Some(JsonView::Text("text"@))
                && field_of(parts[0], "text"@) == Some(JsonView::Text(text)))
        }),
        field_of(tool_reply(id, outcome), "jsonrpc"@) == Some(JsonView::Text("2.0"@)),
        field_of(tool_reply(id, outcome), "error"@) is None,
{
    lemma_told_names();
}

/// A reply is of the protocol and carries its id, and either a result or an error with its code and
/// its message.
pub proof fn replies_are_of_the_protocol(
    id: JsonView,
    result: JsonView,
    code: int,
    message: Seq<char>,
)
    ensures
        field_of(result_reply(id, result), "jsonrpc"@) == Some(JsonView::Text("2.0"@)),
        field_of(result_reply(id, result), "id"@) == Some(id),
        field_of(result_reply(id, result), "result"@) == Some(result),
        field_of(result_reply(id, result), "error"@) is None,
        field_of(error_reply(id, code, message), "jsonrpc"@) == Some(JsonView::Text("2.0"@)),
        field_of(error_reply(id, code, message), "id"@) == Some(id),
        field_of(error_reply(id, code, message), "result"@) is None,
        field_of(error_reply(id, code, message), "error"@) matches Some(error) && field_of(
            error,
            "code"@,
        ) == Some(JsonView::Integer(code)) && field_of(error, "message"@) == Some(
            JsonView::Text(message),
        ),
{
    lemma_told_names();
}

/// A request is answered by its method: the server tells of itself, lists its tools, or does what
/// the tool does that is called. A method that it does not know is refused by its name. A
/// notification, which has no id and says so by its method, is not answered.
pub proof fn requests_are_answered_by_their_method(request: JsonRpcRequestView, state: McpStateView)
    ensures
        ({
            let silent = request.id is None && begins_with(request.method, "notifications/"@);
            let id = match request.id {
                Some(id) => id,
                None => JsonView::Null,
            };
            let handled = handling(request, state);
            &&& silent <==> handled is NoReply
            &&& !silent && request.method == "initialize"@ ==> handled == HandlingView::Reply(
                result_reply(id, initialize_json()),
            )
            &&& !silent && request.method == "tools/list"@ ==> (
            handled matches HandlingView::Reply(reply) && (field_of(reply, "result"@) matches Some(
                result,
            ) && field_of(result, "tools"@) == Some(tools_json())))
            &&& !silent && request.method == "tools/call"@ ==> (match tool_plan(
                request.params,
                state,
            ) {
                ToolPlanView::Done(outcome) => handled == HandlingView::Reply(
                    tool_reply(id, outcome),
                ),
                ToolPlanView::Run(run) => handled == HandlingView::Run(id, run),
            })
            &&& !silent && request.method != "initialize"@ && request.method != "tools/list"@
                && request.method != "tools/call"@ ==> handled == HandlingView::Reply(
                error_reply(id, -32601, "method not found: "@ + request.method),
            )
        }),
{
    lemma_told_names();
    reveal_strlit("initialize");
    reveal_strlit("tools/list");
    reveal_strlit("tools/call");
    assert("initialize"@[0] == 'i' && "tools/list"@[0] == 't' && "tools/call"@[0] == 't');
    assert("tools/list"@[6] == 'l' && "tools/call"@[6] == 'c');
}

/// The tools are listed in their order, each by its name and what it does.
pub proof fn tools_are_listed_one_by_one(i: int)
    requires
        0 <= i < 11,
    ensures
        ({
            let names = seq![
                "android_status"@, "android_devices"@, "android_screenshot"@, "android_tap"@,
                "android_swipe"@, "android_type_text"@, "android_press_key"@, "android_launch_app"@,
                "android_open_url"@, "android_logcat"@, "android_install_apk"@,
            ];
            let descriptions = seq![
                "Return the configured Android runtime and optional ADB status."@,
                "List Android devices visible to adb."@,
                "Capture a PNG screenshot into the workspace."@,
                "Tap screen coordinates."@,
                "Swipe between screen coordinates."@,
                "Type text into the active Android input field."@,
                "Send an Android keycode."@,
                "Launch an installed Android package."@,
                "Open a URL through Android intent handling."@,
                "Read recent logcat output."@,
                "Install an APK from the workspace when explicitly enabled."@,
            ];
            &&& tool_list().len() == 11
            &&& tool_list()[i] == (names[i], descriptions[i])
            &&& tools_json() matches JsonView::List(items) && items.len() == 11 && field_of(
                items[i],
                "name"@,
            ) == Some(JsonView::Text(names[i])) && field_of(items[i], "description"@) == Some(
                JsonView::Text(descriptions[i]),
            ) && (field_of(items[i], "inputSchema"@) matches Some(schema) && field_of(
                schema,
                "type"@,
            ) == Some(JsonView::Text("object"@)) && field_of(schema, "additionalProperties"@) == Some(
                JsonView::Bool(true),
            ))
        }),
{
    lemma_told_names();
    let (name, description) = tool_list()[i];
    assert(tools_json()->List_0[i] == tool_json(name, description));
}

/// The server tells its name, its version and that of the protocol, and that it has tools.
pub proof fn servers_tell_of_themselves()
    ensures
        field_of(initialize_json(), "protocolVersion"@) == Some(JsonView::Text("2024-11-05"@)),
        field_of(initialize_json(), "capabilities"@) matches Some(capabilities) && field_of(
            capabilities,
            "tools"@,
        ) is Some,
        field_of(initialize_json(), "serverInfo"@) matches Some(info) && field_of(info, "name"@)
            == Some(JsonView::Text("android-connection"@)) && field_of(info, "version"@) == Some(
            JsonView::Text(SERVER_VERSION@),
        ),
{
    lemma_told_names();
}

/// The state of a server, a request and an error are seen as they are.
pub proof fn servers_are_seen_as_they_are(
    state: McpState,
    request: JsonRpcRequest,
    command: ToolCommand,
    name: &'static str,
    text: String,
)
    ensures
        state@.spec == state.spec@,
        state@.workspace == state.workspace@,
        state@.adb_probe == state.adb_probe,
        state@.allow_install == state.allow_install,
        request@.method == request.method@,
        request.id matches Some(id) ==> request@.id == Some(id@),
        request.id is None ==> request@.id is None,
        request.params matches Some(params) ==> request@.params == Some(params@),
        request.params is None ==> request@.params is None,
        command@.args == texts(command.args@),
        command@.finish == command.finish@,
        McpToolError::MissingArgument(name)@ == ToolErrorView::MissingArgument(name@),
        McpToolError::InvalidArgument(text)@ == ToolErrorView::InvalidArgument(text@),
        McpToolError::AdbProbeDisabled@ is AdbProbeDisabled,
        McpToolError::CommandFailed(text)@ == ToolErrorView::CommandFailed(text@),
        McpToolError::Io(text)@ == ToolErrorView::Io(text@),
        ToolFinish::Text@ is Text,
        ToolFinish::Status@ is Status,
        ToolFinish::Screenshot(text)@ == ToolFinishView::Screenshot(text@),
{
}

} // verus!
