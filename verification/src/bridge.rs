//! The bridge between a command line and the browser tab that holds the phone: a queue of
//! commands, the results that come back, and the files that go along.
use crate::decimal::{decimal, decimal_exec, digits_value, lemma_decimal_value};
use crate::http::{
    header_value, http_header_value, is_local, is_local_http_host, ContentType, HttpResponse,
    HttpResponseView, HttpStatus,
};
use crate::json::{
    compact_text, distinct_fields, field_of, fields_seq, is_plain, lemma_flat_is_plain, no_fields,
    object_text, opt_text_json, opt_text_view, ordered_text, parsed_json, put, read_back, text_json,
    texts_json, texts_view, Json, JsonView,
};
use crate::paths::{file_name, file_name_exec};
use crate::scan::{trim_start_text, trim_start_text_exec};
use crate::text::{begins_with, concat2, has_prefix, opt_text, same_opt_text, same_text, texts};
use std::collections::VecDeque;
use vstd::hash_map::StringHashMap;
use vstd::prelude::*;

verus! {

pub const BRIDGE_CLIENT_ID_HEADER: &'static str = "x-bridge-client-id";

/// The most bytes that are read of what a client reports.
pub const MAX_WEB_CLIENT_LOG_BYTES: usize = 16384;

/// The most bytes that are read of a command or of a result.
pub const MAX_WEB_BRIDGE_BODY_BYTES: usize = 33554432;

// What the bridge holds.

/// A file that goes along with a command, as the browser sees it.
#[derive(Debug)]
pub struct BridgeCommandFile {
    pub name: String,
    pub size: u64,
    pub url: String,
}

pub struct CommandFileView {
    pub name: Seq<char>,
    pub size: nat,
    pub url: Seq<char>,
}

impl View for BridgeCommandFile {
    type V = CommandFileView;

    open spec fn view(&self) -> CommandFileView {
        CommandFileView { name: self.name@, size: self.size as nat, url: self.url@ }
    }
}

/// A command for the phone.
#[derive(Debug)]
pub struct BridgeCommand {
    pub id: String,
    pub kind: String,
    pub args: Vec<String>,
    pub file: Option<BridgeCommandFile>,
}

pub struct CommandView {
    pub id: Seq<char>,
    pub kind: Seq<char>,
    pub args: Seq<Seq<char>>,
    pub file: Option<CommandFileView>,
}

impl View for BridgeCommand {
    type V = CommandView;

    open spec fn view(&self) -> CommandView {
        CommandView {
            id: self.id@,
            kind: self.kind@,
            args: texts(self.args@),
            file: match self.file {
                Some(file) => Some(file@),
                None => None,
            },
        }
    }
}

/// A command that a client asks for.
#[derive(Debug)]
pub struct BridgeCommandRequest {
    pub kind: String,
    pub args: Vec<String>,
    pub file_path: Option<String>,
}

pub struct CommandRequestView {
    pub kind: Seq<char>,
    pub args: Seq<Seq<char>>,
    pub file_path: Option<Seq<char>>,
}

impl View for BridgeCommandRequest {
    type V = CommandRequestView;

    open spec fn view(&self) -> CommandRequestView {
        CommandRequestView {
            kind: self.kind@,
            args: texts(self.args@),
            file_path: opt_text(self.file_path),
        }
    }
}

/// What became of a command.
#[derive(Debug)]
pub struct BridgeCommandResult {
    pub id: String,
    pub exit_code: Option<i32>,
    pub stdout: Option<String>,
    pub stdout_base64: Option<String>,
    pub stderr: Option<String>,
    pub error: Option<String>,
}

pub struct CommandResultView {
    pub id: Seq<char>,
    pub exit_code: Option<i32>,
    pub stdout: Option<Seq<char>>,
    pub stdout_base64: Option<Seq<char>>,
    pub stderr: Option<Seq<char>>,
    pub error: Option<Seq<char>>,
}

impl View for BridgeCommandResult {
    type V = CommandResultView;

    open spec fn view(&self) -> CommandResultView {
        CommandResultView {
            id: self.id@,
            exit_code: self.exit_code,
            stdout: opt_text(self.stdout),
            stdout_base64: opt_text(self.stdout_base64),
            stderr: opt_text(self.stderr),
            error: opt_text(self.error),
        }
    }
}

/// The state of the bridge.
pub struct BridgeState {
    pub next_id: u64,
    pub next_client_id: u64,
    pub active_client_id: Option<String>,
    pub queue: VecDeque<BridgeCommand>,
    pub results: StringHashMap<BridgeCommandResult>,
    pub files: StringHashMap<String>,
}

pub struct BridgeView {
    /// How many commands were taken in.
    pub next_id: nat,
    /// How many sessions were opened.
    pub next_client_id: nat,
    /// The client whose session was opened last.
    pub active: Option<Seq<char>>,
    pub queue: Seq<CommandView>,
    pub results: Map<Seq<char>, CommandResultView>,
    pub files: Map<Seq<char>, Seq<char>>,
}

impl View for BridgeState {
    type V = BridgeView;

    open spec fn view(&self) -> BridgeView {
        BridgeView {
            next_id: self.next_id as nat,
            next_client_id: self.next_client_id as nat,
            active: opt_text(self.active_client_id),
            queue: self.queue@.map_values(|command: BridgeCommand| command@),
            results: self.results@.map_values(|result: BridgeCommandResult| result@),
            files: self.files@.map_values(|path: String| path@),
        }
    }
}

/// Whether `id` was given to one of the first `count` commands.
pub open spec fn is_issued(id: Seq<char>, count: nat) -> bool {
    id == decimal(digits_value(id)) && 1 <= digits_value(id) <= count
}

impl BridgeView {
    /// The bridge before anything came.
    pub open spec fn empty() -> BridgeView {
        BridgeView {
            next_id: 0,
            next_client_id: 0,
            active: None,
            queue: Seq::empty(),
            results: Map::empty(),
            files: Map::empty(),
        }
    }

    /// Commands and files go by ids that were given out, no two commands by the same one, and
    /// the active client by an id that was given out.
    pub open spec fn wf(self) -> bool {
        &&& forall|i: int|
            0 <= i < self.queue.len() ==> is_issued((#[trigger] self.queue[i]).id, self.next_id)
        &&& forall|i: int, j: int|
            0 <= i < j < self.queue.len() ==> (#[trigger] self.queue[i]).id != (
            #[trigger] self.queue[j]).id
        &&& forall|id: Seq<char>| #[trigger]
            self.files.contains_key(id) ==> is_issued(id, self.next_id)
        &&& self.active matches Some(client) ==> self.next_client_id > 0 && client == client_name(
            self.next_client_id,
        )
    }
}

/// The id of a client.
pub open spec fn client_name(number: nat) -> Seq<char> {
    "client-"@ + decimal(number)
}

impl BridgeState {
    /// The bridge before anything came.
    pub fn new() -> (bridge: BridgeState)
        ensures
            bridge@ == BridgeView::empty(),
            bridge@.wf(),
    {
        let bridge = BridgeState {
            next_id: 0,
            next_client_id: 0,
            active_client_id: None,
            queue: VecDeque::new(),
            results: StringHashMap::new(),
            files: StringHashMap::new(),
        };
        assert(bridge@.queue =~= Seq::empty());
        assert(bridge@.results =~= Map::empty());
        assert(bridge@.files =~= Map::empty());
        bridge
    }

    /// Whether another command and another session can be given an id.
    pub fn has_ids_left(&self) -> (left: bool)
        ensures
            left == (self.next_id < u64::MAX && self.next_client_id < u64::MAX),
    {
        self.next_id < u64::MAX && self.next_client_id < u64::MAX
    }
}

// JSON.

/// A file as the browser is told of it.
pub open spec fn file_json(file: CommandFileView) -> JsonView {
    JsonView::Object(
        map![
            "name"@ => JsonView::Text(file.name),
            "size"@ => JsonView::Integer(file.size as int),
            "url"@ => JsonView::Text(file.url),
        ],
    )
}

/// The fields of a command as the browser is told of it.
pub open spec fn command_fields(command: CommandView) -> Map<Seq<char>, JsonView> {
    let fields = map![
        "id"@ => JsonView::Text(command.id),
        "kind"@ => JsonView::Text(command.kind),
        "args"@ => texts_view(command.args),
    ];
    match command.file {
        Some(file) => fields.insert("file"@, file_json(file)),
        None => fields,
    }
}

/// The next command, or null where there is none.
pub open spec fn opt_command_json(command: Option<CommandView>) -> JsonView {
    match command {
        Some(command) => JsonView::Object(command_fields(command)),
        None => JsonView::Null,
    }
}

fn file_to_json(file: &BridgeCommandFile) -> (json: Json)
    ensures
        json@ == file_json(file@),
{
    let mut fields = no_fields();
    put(&mut fields, "name", text_json(file.name.as_str()));
    put(&mut fields, "size", Json::Unsigned(file.size));
    put(&mut fields, "url", text_json(file.url.as_str()));
    Json::Object(fields)
}

fn command_to_json(command: &Option<BridgeCommand>) -> (json: Json)
    ensures
        json@ == opt_command_json(
            match *command {
                Some(command) => Some(command@),
                None => None,
            },
        ),
{
    match command {
        Some(command) => {
            let mut fields = no_fields();
            put(&mut fields, "id", text_json(command.id.as_str()));
            put(&mut fields, "kind", text_json(command.kind.as_str()));
            put(&mut fields, "args", texts_json(command.args.as_slice()));
            if let Some(file) = &command.file {
                put(&mut fields, "file", file_to_json(file));
            }
            Json::Object(fields)
        },
        None => Json::Null,
    }
}

/// An exit code, or null where there is none.
pub open spec fn code_view(code: Option<i32>) -> JsonView {
    match code {
        Some(code) => JsonView::Integer(code as int),
        None => JsonView::Null,
    }
}

/// The fields of a result, in the order in which they are written.
pub open spec fn result_fields(result: CommandResultView) -> Seq<(Seq<char>, JsonView)> {
    seq![
        ("id"@, JsonView::Text(result.id)),
        ("exitCode"@, code_view(result.exit_code)),
        ("stdout"@, opt_text_view(result.stdout)),
        ("stdoutBase64"@, opt_text_view(result.stdout_base64)),
        ("stderr"@, opt_text_view(result.stderr)),
        ("error"@, opt_text_view(result.error)),
    ]
}

/// The object that the fields of a result make up.
pub open spec fn result_json(result: CommandResultView) -> JsonView {
    JsonView::Object(
        map![
            "id"@ => JsonView::Text(result.id),
            "exitCode"@ => code_view(result.exit_code),
            "stdout"@ => opt_text_view(result.stdout),
            "stdoutBase64"@ => opt_text_view(result.stdout_base64),
            "stderr"@ => opt_text_view(result.stderr),
            "error"@ => opt_text_view(result.error),
        ],
    )
}

proof fn lemma_result_names(result: CommandResultView)
    ensures
        distinct_fields(result_fields(result)),
{
    reveal_strlit("id");
    reveal_strlit("exitCode");
    reveal_strlit("stdout");
    reveal_strlit("stdoutBase64");
    reveal_strlit("stderr");
    reveal_strlit("error");
    assert("id"@.len() == 2 && "exitCode"@.len() == 8 && "stdout"@.len() == 6);
    assert("stdoutBase64"@.len() == 12 && "stderr"@.len() == 6 && "error"@.len() == 5);
    assert("stdout"@[3] == 'o' && "stderr"@[3] == 'e');
}

fn result_text(result: &BridgeCommandResult) -> (text: String)
    ensures
        text@ == ordered_text(result_fields(result@)),
        parsed_json(text@) == read_back(result_json(result@)),
{
    proof {
        lemma_result_names(result@);
    }
    let mut fields = no_fields();
    put(&mut fields, "id", text_json(result.id.as_str()));
    let code = match result.exit_code {
        Some(code) => Json::Signed(code as i64),
        None => Json::Null,
    };
    put(&mut fields, "exitCode", code);
    put(&mut fields, "stdout", opt_text_json(&result.stdout));
    put(&mut fields, "stdoutBase64", opt_text_json(&result.stdout_base64));
    put(&mut fields, "stderr", opt_text_json(&result.stderr));
    put(&mut fields, "error", opt_text_json(&result.error));
    assert(fields_seq(fields@) =~= result_fields(result@));
    proof {
        lemma_flat_is_plain(result_json(result@)->Object_0);
    }
    object_text(&fields)
}

// Routes.

/// What a request asks of the bridge.
#[derive(Debug)]
pub enum BridgeRoute {
    OpenSession,
    Enqueue,
    NextCommand,
    PostResult,
    GetResult(String),
    GetFile(String),
    Unknown,
}

pub enum BridgeRouteView {
    OpenSession,
    Enqueue,
    NextCommand,
    PostResult,
    GetResult(Seq<char>),
    GetFile(Seq<char>),
    Unknown,
}

impl View for BridgeRoute {
    type V = BridgeRouteView;

    open spec fn view(&self) -> BridgeRouteView {
        match self {
            BridgeRoute::OpenSession => BridgeRouteView::OpenSession,
            BridgeRoute::Enqueue => BridgeRouteView::Enqueue,
            BridgeRoute::NextCommand => BridgeRouteView::NextCommand,
            BridgeRoute::PostResult => BridgeRouteView::PostResult,
            BridgeRoute::GetResult(id) => BridgeRouteView::GetResult(id@),
            BridgeRoute::GetFile(id) => BridgeRouteView::GetFile(id@),
            BridgeRoute::Unknown => BridgeRouteView::Unknown,
        }
    }
}

/// What a method and a path ask of the bridge.
pub open spec fn bridge_route(method: Seq<char>, path: Seq<char>) -> BridgeRouteView {
    if method == "POST"@ && path == "/bridge/client/session"@ {
        BridgeRouteView::OpenSession
    } else if method == "POST"@ && path == "/bridge/commands"@ {
        BridgeRouteView::Enqueue
    } else if method == "GET"@ && path == "/bridge/commands/next"@ {
        BridgeRouteView::NextCommand
    } else if method == "POST"@ && path == "/bridge/commands/result"@ {
        BridgeRouteView::PostResult
    } else if method == "GET"@ && begins_with(path, "/bridge/commands/result/"@) {
        BridgeRouteView::GetResult(trim_start_text(path, "/bridge/commands/result/"@))
    } else if method == "GET"@ && begins_with(path, "/bridge/commands/file/"@) {
        BridgeRouteView::GetFile(trim_start_text(path, "/bridge/commands/file/"@))
    } else {
        BridgeRouteView::Unknown
    }
}

pub fn find_bridge_route(method: &str, path: &str) -> (route: BridgeRoute)
    ensures
        route@ == bridge_route(method@, path@),
{
    let post = same_text(method, "POST");
    let get = same_text(method, "GET");
    if post && same_text(path, "/bridge/client/session") {
        BridgeRoute::OpenSession
    } else if post && same_text(path, "/bridge/commands") {
        BridgeRoute::Enqueue
    } else if get && same_text(path, "/bridge/commands/next") {
        BridgeRoute::NextCommand
    } else if post && same_text(path, "/bridge/commands/result") {
        BridgeRoute::PostResult
    } else if get && has_prefix(path, "/bridge/commands/result/") {
        BridgeRoute::GetResult(trim_start_text_exec(path, "/bridge/commands/result/"))
    } else if get && has_prefix(path, "/bridge/commands/file/") {
        BridgeRoute::GetFile(trim_start_text_exec(path, "/bridge/commands/file/"))
    } else {
        BridgeRoute::Unknown
    }
}

impl BridgeRoute {
    /// Whether a request for this has a body.
    pub fn has_body(&self) -> (has: bool)
        ensures
            has == (self@ is Enqueue || self@ is PostResult),
    {
        match self {
            BridgeRoute::Enqueue | BridgeRoute::PostResult => true,
            _ => false,
        }
    }
}

// Events.

/// What is known of the file that goes along with a command.
#[derive(Debug)]
pub enum FileStat {
    /// Nothing was asked of the file system.
    Unasked,
    /// The file system gave an error.
    Failed(String),
    /// There is something at that path.
    Found { is_file: bool, size: u64 },
}

/// What a request asks of the bridge, with the body that came along.
#[derive(Debug)]
pub enum BridgeEvent {
    OpenSession,
    Enqueue(BridgeCommandRequest, FileStat),
    NextCommand,
    PostResult(BridgeCommandResult),
    GetResult(String),
    GetFile(String),
    Unknown,
}

pub enum FileStatView {
    Unasked,
    Failed(Seq<char>),
    Found { is_file: bool, size: nat },
}

impl View for FileStat {
    type V = FileStatView;

    open spec fn view(&self) -> FileStatView {
        match self {
            FileStat::Unasked => FileStatView::Unasked,
            FileStat::Failed(message) => FileStatView::Failed(message@),
            FileStat::Found { is_file, size } => FileStatView::Found {
                is_file: *is_file,
                size: *size as nat,
            },
        }
    }
}

pub enum BridgeEventView {
    OpenSession,
    Enqueue(CommandRequestView, FileStatView),
    NextCommand,
    PostResult(CommandResultView),
    GetResult(Seq<char>),
    GetFile(Seq<char>),
    Unknown,
}

impl View for BridgeEvent {
    type V = BridgeEventView;

    open spec fn view(&self) -> BridgeEventView {
        match self {
            BridgeEvent::OpenSession => BridgeEventView::OpenSession,
            BridgeEvent::Enqueue(request, stat) => BridgeEventView::Enqueue(request@, stat@),
            BridgeEvent::NextCommand => BridgeEventView::NextCommand,
            BridgeEvent::PostResult(result) => BridgeEventView::PostResult(result@),
            BridgeEvent::GetResult(id) => BridgeEventView::GetResult(id@),
            BridgeEvent::GetFile(id) => BridgeEventView::GetFile(id@),
            BridgeEvent::Unknown => BridgeEventView::Unknown,
        }
    }
}

/// What the bridge answers.
#[derive(Debug)]
pub enum BridgeReply {
    Respond(HttpResponse),
    /// The file at this path is sent.
    SendFile(String),
    /// The request ends with this error and without an answer.
    Fail(String),
}

pub enum BridgeReplyView {
    Respond(HttpResponseView),
    SendFile(Seq<char>),
    Fail(Seq<char>),
}

impl View for BridgeReply {
    type V = BridgeReplyView;

    open spec fn view(&self) -> BridgeReplyView {
        match self {
            BridgeReply::Respond(response) => BridgeReplyView::Respond(response@),
            BridgeReply::SendFile(path) => BridgeReplyView::SendFile(path@),
            BridgeReply::Fail(message) => BridgeReplyView::Fail(message@),
        }
    }
}

/// An answer in JSON.
pub open spec fn json_reply(status: HttpStatus, body: Seq<char>) -> BridgeReplyView {
    BridgeReplyView::Respond(
        HttpResponseView { status, content_type: ContentType::Json, body, headers_only: false },
    )
}

/// An answer in plain text.
pub open spec fn plain_reply(status: HttpStatus, body: Seq<char>) -> BridgeReplyView {
    BridgeReplyView::Respond(
        HttpResponseView { status, content_type: ContentType::Plain, body, headers_only: false },
    )
}

fn json_reply_exec(status: HttpStatus, body: String) -> (reply: BridgeReply)
    ensures
        reply@ == json_reply(status, body@),
{
    BridgeReply::Respond(
        HttpResponse { status, content_type: ContentType::Json, body, headers_only: false },
    )
}

fn plain_reply_exec(status: HttpStatus, body: &str) -> (reply: BridgeReply)
    ensures
        reply@ == plain_reply(status, body@),
{
    BridgeReply::Respond(
        HttpResponse {
            status,
            content_type: ContentType::Plain,
            body: body.to_string(),
            headers_only: false,
        },
    )
}

/// The answer to a client whose session is not the active one.
pub open spec fn stale_client_reply() -> BridgeReplyView {
    json_reply(
        HttpStatus::Conflict,
        compact_text(
            JsonView::Object(
                map![
                    "error"@ => JsonView::Text("staleClient"@),
                    "message"@ => JsonView::Text(
                        "another browser tab owns the active bridge session"@,
                    ),
                ],
            ),
        ),
    )
}

pub fn stale_bridge_client_response() -> (reply: BridgeReply)
    ensures
        reply@ == stale_client_reply(),
{
    let mut fields = no_fields();
    put(&mut fields, "error", text_json("staleClient"));
    put(&mut fields, "message", text_json("another browser tab owns the active bridge session"));
    json_reply_exec(HttpStatus::Conflict, Json::Object(fields).compact())
}

/// The client that a request comes from.
pub open spec fn client_of(initial: Seq<u8>) -> Option<Seq<char>> {
    header_value(initial, BRIDGE_CLIENT_ID_HEADER@)
}

/// Whether a command may be taken in: one that sends a file must come from this machine.
pub open spec fn is_admitted(initial: Seq<u8>, request: CommandRequestView) -> bool {
    request.file_path is None || is_local(header_value(initial, "host"@))
}

/// Whether the request `initial` begins comes from this machine.
fn comes_from_here(initial: &[u8]) -> (local: bool)
    ensures
        local == is_local(header_value(initial@, "host"@)),
{
    match http_header_value(initial, "host") {
        Some(host) => is_local_http_host(Some(host.as_str())),
        None => is_local_http_host(None),
    }
}

/// The path to look up before a command is taken in, if there is one.
pub fn wanted_stat(initial: &[u8], request: &BridgeCommandRequest) -> (path: Option<String>)
    ensures
        opt_text(path) == (if is_admitted(initial@, request@) {
            request@.file_path
        } else {
            None
        }),
{
    match &request.file_path {
        Some(path) => if comes_from_here(initial) {
            Some(path.clone())
        } else {
            None
        },
        None => None,
    }
}

/// The file at the Unix path `path` as the browser is told of it.
pub open spec fn attached_file(id: Seq<char>, path: Seq<char>, size: nat) -> CommandFileView {
    CommandFileView {
        name: match file_name(path) {
            Some(name) => name,
            None => "android-app.apk"@,
        },
        size,
        url: "/bridge/commands/file/"@ + id,
    }
}

/// The file at `path` as the browser is told of it, or why it cannot go along.
pub open spec fn command_file(id: Seq<char>, path: Seq<char>, stat: FileStatView) -> Result<
    CommandFileView,
    Seq<char>,
> {
    match stat {
        FileStatView::Unasked => Err("bridge file attachment was not looked up"@),
        FileStatView::Failed(message) => Err(message),
        FileStatView::Found { is_file, size } => if is_file {
            Ok(attached_file(id, path, size))
        } else {
            Err("bridge file attachment is not a regular file"@)
        },
    }
}

pub fn bridge_command_file(id: &str, path: &str, stat: &FileStat) -> (file: Result<
    BridgeCommandFile,
    String,
>)
    ensures
        match file {
            Ok(file) => command_file(id@, path@, stat@) == Ok::<CommandFileView, Seq<char>>(file@),
            Err(message) => command_file(id@, path@, stat@) == Err::<CommandFileView, Seq<char>>(
                message@,
            ),
        },
{
    match stat {
        FileStat::Unasked => Err("bridge file attachment was not looked up".to_string()),
        FileStat::Failed(message) => Err(message.clone()),
        FileStat::Found { is_file, size } => {
            if !*is_file {
                return Err("bridge file attachment is not a regular file".to_string());
            }
            let name = match file_name_exec(path) {
                Some(name) => name,
                None => "android-app.apk".to_string(),
            };
            Ok(BridgeCommandFile { name, size: *size, url: concat2("/bridge/commands/file/", id) })
        },
    }
}

/// What is told of a session that was opened.
pub open spec fn session_json(client: Seq<char>) -> JsonView {
    JsonView::Object(map!["clientId"@ => JsonView::Text(client)])
}

/// What is told of the next command.
pub open spec fn next_json(command: Option<CommandView>) -> JsonView {
    JsonView::Object(map!["command"@ => opt_command_json(command)])
}

proof fn lemma_next_is_plain(command: Option<CommandView>)
    ensures
        is_plain(next_json(command), 100),
{
    let whole = next_json(command)->Object_0;
    if let Some(command) = command {
        let fields = command_fields(command);
        let items = texts_view(command.args)->List_0;
        assert forall|i: int| 0 <= i < items.len() implies is_plain(#[trigger] items[i], 97) by {
            assert(items[i] == JsonView::Text(command.args[i]));
        }
        assert(is_plain(texts_view(command.args), 98));
        if let Some(file) = command.file {
            let parts = file_json(file)->Object_0;
            assert forall|name: Seq<char>| #[trigger] parts.contains_key(name) implies is_plain(
                parts[name],
                97,
            ) by {}
            assert(is_plain(file_json(file), 98));
        }
        assert forall|name: Seq<char>| #[trigger] fields.contains_key(name) implies is_plain(
            fields[name],
            98,
        ) by {}
        assert(is_plain(JsonView::Object(fields), 99));
    }
    assert(is_plain(opt_command_json(command), 99));
    assert forall|name: Seq<char>| #[trigger] whole.contains_key(name) implies is_plain(
        whole[name],
        99,
    ) by {}
}

/// What is told of a command that was queued.
pub open spec fn queued_json(id: Seq<char>) -> JsonView {
    JsonView::Object(map!["id"@ => JsonView::Text(id), "status"@ => JsonView::Text("queued"@)])
}

/// What is told of a command whose result has not come.
pub open spec fn pending_json(id: Seq<char>) -> JsonView {
    JsonView::Object(map!["id"@ => JsonView::Text(id), "pending"@ => JsonView::Bool(true)])
}

/// The bridge after a command came: the command gets the next id, and waits at the end of the
/// queue unless its file cannot go along.
pub open spec fn enqueue_step(
    bridge: BridgeView,
    request: CommandRequestView,
    stat: FileStatView,
) -> (BridgeView, BridgeReplyView) {
    let id = decimal(bridge.next_id + 1);
    let counted = BridgeView { next_id: bridge.next_id + 1, ..bridge };
    let queued = json_reply(HttpStatus::Okay, compact_text(queued_json(id)));
    match request.file_path {
        None => {
            let command = CommandView { id, kind: request.kind, args: request.args, file: None };
            (BridgeView { queue: bridge.queue.push(command), ..counted }, queued)
        },
        Some(path) => match command_file(id, path, stat) {
            Err(message) => (counted, BridgeReplyView::Fail(message)),
            Ok(file) => {
                let command = CommandView {
                    id,
                    kind: request.kind,
                    args: request.args,
                    file: Some(file),
                };
                (
                    BridgeView {
                        queue: bridge.queue.push(command),
                        files: bridge.files.insert(id, path),
                        ..counted
                    },
                    queued,
                )
            },
        },
    }
}

/// The bridge after an event, and its answer. `initial` are the first bytes of the request.
pub open spec fn bridge_step(bridge: BridgeView, initial: Seq<u8>, event: BridgeEventView) -> (
    BridgeView,
    BridgeReplyView,
) {
    match event {
        BridgeEventView::OpenSession => {
            let client = client_name(bridge.next_client_id + 1);
            (
                BridgeView {
                    next_client_id: bridge.next_client_id + 1,
                    active: Some(client),
                    ..bridge
                },
                json_reply(
                    HttpStatus::Okay,
                    compact_text(session_json(client)),
                ),
            )
        },
        BridgeEventView::Enqueue(request, stat) => if is_admitted(initial, request) {
            enqueue_step(bridge, request, stat)
        } else {
            (
                bridge,
                plain_reply(
                    HttpStatus::Forbidden,
                    "file attachments must be enqueued from localhost\n"@,
                ),
            )
        },
        BridgeEventView::NextCommand => if bridge.active == client_of(initial) {
            let next = if bridge.queue.len() > 0 {
                Some(bridge.queue[0])
            } else {
                None
            };
            let rest = if bridge.queue.len() > 0 {
                bridge.queue.skip(1)
            } else {
                bridge.queue
            };
            (
                BridgeView { queue: rest, ..bridge },
                json_reply(
                    HttpStatus::Okay,
                    compact_text(next_json(next)),
                ),
            )
        } else {
            (bridge, stale_client_reply())
        },
        BridgeEventView::PostResult(result) => if bridge.active == client_of(initial) {
            (
                BridgeView {
                    files: bridge.files.remove(result.id),
                    results: bridge.results.insert(result.id, result),
                    ..bridge
                },
                plain_reply(HttpStatus::NoContent, Seq::empty()),
            )
        } else {
            (bridge, stale_client_reply())
        },
        BridgeEventView::GetResult(id) => (
            bridge,
            if bridge.results.contains_key(id) {
                json_reply(HttpStatus::Okay, ordered_text(result_fields(bridge.results[id])))
            } else {
                json_reply(HttpStatus::Accepted, compact_text(pending_json(id)))
            },
        ),
        BridgeEventView::GetFile(id) => (
            bridge,
            if bridge.files.contains_key(id) {
                BridgeReplyView::SendFile(bridge.files[id])
            } else {
                plain_reply(HttpStatus::NotFound, "file not found\n"@)
            },
        ),
        BridgeEventView::Unknown => (bridge, plain_reply(HttpStatus::NotFound, "not found\n"@)),
    }
}

/// Whether an event can be taken in: the counter that it raises has room.
pub open spec fn has_room(bridge: BridgeState, event: BridgeEventView) -> bool {
    &&& event is OpenSession ==> bridge.next_client_id < u64::MAX
    &&& event is Enqueue ==> bridge.next_id < u64::MAX
}

fn open_session(bridge: &mut BridgeState) -> (reply: BridgeReply)
    requires
        old(bridge).next_client_id < u64::MAX,
    ensures
        forall|initial: Seq<u8>|
            (final(bridge)@, reply@) == #[trigger] bridge_step(
                old(bridge)@,
                initial,
                BridgeEventView::OpenSession,
            ),
        is_readable(old(bridge)@, BridgeEventView::OpenSession, reply@),
{
    bridge.next_client_id = bridge.next_client_id + 1;
    let client_id = concat2("client-", decimal_exec(bridge.next_client_id).as_str());
    bridge.active_client_id = Some(client_id.clone());
    let mut fields = no_fields();
    put(&mut fields, "clientId", text_json(client_id.as_str()));
    proof {
        lemma_flat_is_plain(session_json(client_id@)->Object_0);
    }
    json_reply_exec(HttpStatus::Okay, Json::Object(fields).compact())
}

fn enqueue(bridge: &mut BridgeState, request: BridgeCommandRequest, stat: &FileStat) -> (reply:
    BridgeReply)
    requires
        old(bridge).next_id < u64::MAX,
    ensures
        (final(bridge)@, reply@) == enqueue_step(old(bridge)@, request@, stat@),
        is_readable(old(bridge)@, BridgeEventView::Enqueue(request@, stat@), reply@),
{
    let ghost before = bridge@;
    bridge.next_id = bridge.next_id + 1;
    let id = decimal_exec(bridge.next_id);
    let file = match &request.file_path {
        Some(path) => match bridge_command_file(id.as_str(), path.as_str(), stat) {
            Ok(file) => Some(file),
            Err(message) => {
                return BridgeReply::Fail(message);
            },
        },
        None => None,
    };
    let ghost path = opt_text(request.file_path);
    if let Some(path) = request.file_path {
        bridge.files.insert(id.clone(), path);
        assert(bridge@.files =~= before.files.insert(id@, path@));
    }
    let command = BridgeCommand { id: id.clone(), kind: request.kind, args: request.args, file };
    let ghost queued = command@;
    bridge.queue.push_back(command);
    assert(bridge@.queue =~= before.queue.push(queued));
    let mut fields = no_fields();
    put(&mut fields, "id", text_json(id.as_str()));
    put(&mut fields, "status", text_json("queued"));
    proof {
        lemma_flat_is_plain(queued_json(id@)->Object_0);
    }
    json_reply_exec(HttpStatus::Okay, Json::Object(fields).compact())
}

fn next_command(bridge: &mut BridgeState) -> (reply: BridgeReply)
    ensures
        forall|initial: Seq<u8>|
            old(bridge)@.active == client_of(initial) ==> (final(bridge)@, reply@)
                == #[trigger] bridge_step(old(bridge)@, initial, BridgeEventView::NextCommand),
        is_readable(old(bridge)@, BridgeEventView::NextCommand, reply@),
{
    let ghost before = bridge@;
    let ghost held = bridge.queue@;
    let command = bridge.queue.pop_front();
    proof {
        if held.len() > 0 {
            assert(bridge@.queue =~= before.queue.skip(1));
            assert(before.queue[0] == held[0]@);
        } else {
            assert(bridge@.queue =~= before.queue);
        }
    }
    let mut fields = no_fields();
    put(&mut fields, "command", command_to_json(&command));
    proof {
        lemma_next_is_plain(
            match command {
                Some(command) => Some(command@),
                None => None,
            },
        );
    }
    json_reply_exec(HttpStatus::Okay, Json::Object(fields).compact())
}

fn post_result(bridge: &mut BridgeState, result: BridgeCommandResult) -> (reply: BridgeReply)
    ensures
        forall|initial: Seq<u8>|
            old(bridge)@.active == client_of(initial) ==> (final(bridge)@, reply@)
                == #[trigger] bridge_step(
                old(bridge)@,
                initial,
                BridgeEventView::PostResult(result@),
            ),
{
    let ghost before = bridge@;
    bridge.files.remove(result.id.as_str());
    bridge.results.insert(result.id.clone(), result);
    proof {
        assert(bridge@.files =~= before.files.remove(result@.id));
        assert(bridge@.results =~= before.results.insert(result@.id, result@));
        reveal_strlit("");
        assert(""@ =~= Seq::empty());
    }
    plain_reply_exec(HttpStatus::NoContent, "")
}

fn get_result(bridge: &BridgeState, id: &str) -> (reply: BridgeReply)
    ensures
        forall|initial: Seq<u8>|
            (bridge@, reply@) == #[trigger] bridge_step(
                bridge@,
                initial,
                BridgeEventView::GetResult(id@),
            ),
        is_readable(bridge@, BridgeEventView::GetResult(id@), reply@),
{
    match bridge.results.get(id) {
        Some(result) => json_reply_exec(HttpStatus::Okay, result_text(result)),
        None => {
            let mut fields = no_fields();
            put(&mut fields, "id", text_json(id));
            put(&mut fields, "pending", Json::Bool(true));
            proof {
                lemma_flat_is_plain(pending_json(id@)->Object_0);
            }
            json_reply_exec(HttpStatus::Accepted, Json::Object(fields).compact())
        },
    }
}

fn get_file(bridge: &BridgeState, id: &str) -> (reply: BridgeReply)
    ensures
        forall|initial: Seq<u8>|
            (bridge@, reply@) == #[trigger] bridge_step(
                bridge@,
                initial,
                BridgeEventView::GetFile(id@),
            ),
{
    match bridge.files.get(id) {
        Some(path) => BridgeReply::SendFile(path.clone()),
        None => plain_reply_exec(HttpStatus::NotFound, "file not found\n"),
    }
}

/// What is read out of an answer that tells the id of a command or its result.
pub open spec fn is_readable(
    bridge: BridgeView,
    event: BridgeEventView,
    reply: BridgeReplyView,
) -> bool {
    match (event, reply) {
        (
            BridgeEventView::Enqueue(_, _),
            BridgeReplyView::Respond(response),
        ) => response.status is Okay ==> parsed_json(response.body) == read_back(
            queued_json(decimal(bridge.next_id + 1)),
        ),
        (
            BridgeEventView::OpenSession,
            BridgeReplyView::Respond(response),
        ) => parsed_json(response.body) == read_back(
            session_json(client_name(bridge.next_client_id + 1)),
        ),
        (
            BridgeEventView::NextCommand,
            BridgeReplyView::Respond(response),
        ) => response.status is Okay ==> parsed_json(response.body) == read_back(
            next_json(
                if bridge.queue.len() > 0 {
                    Some(bridge.queue[0])
                } else {
                    None
                },
            ),
        ),
        (
            BridgeEventView::GetResult(id),
            BridgeReplyView::Respond(response),
        ) => {
            &&& bridge.results.contains_key(id) ==> parsed_json(response.body) == read_back(
                result_json(bridge.results[id]),
            )
            &&& !bridge.results.contains_key(id) ==> parsed_json(response.body) == read_back(
                pending_json(id),
            )
        },
        _ => true,
    }
}

/// Takes in an event, and gives the answer. `initial` are the first bytes of the request.
pub fn handle_bridge_request(bridge: &mut BridgeState, initial: &[u8], event: BridgeEvent) -> (reply:
    BridgeReply)
    requires
        has_room(*old(bridge), event@),
    ensures
        (final(bridge)@, reply@) == bridge_step(old(bridge)@, initial@, event@),
        is_readable(old(bridge)@, event@, reply@),
        old(bridge)@.wf() ==> final(bridge)@.wf(),
{
    proof {
        if bridge@.wf() {
            events_keep_the_bridge_sound(bridge@, initial@, event@);
        }
    }
    match event {
        BridgeEvent::OpenSession => open_session(bridge),
        BridgeEvent::Enqueue(request, stat) => {
            if request.file_path.is_some() && !comes_from_here(initial) {
                return plain_reply_exec(
                    HttpStatus::Forbidden,
                    "file attachments must be enqueued from localhost\n",
                );
            }
            enqueue(bridge, request, &stat)
        },
        BridgeEvent::NextCommand => {
            let client_id = http_header_value(initial, BRIDGE_CLIENT_ID_HEADER);
            if !same_opt_text(&bridge.active_client_id, &client_id) {
                return stale_bridge_client_response();
            }
            next_command(bridge)
        },
        BridgeEvent::PostResult(result) => {
            let client_id = http_header_value(initial, BRIDGE_CLIENT_ID_HEADER);
            if !same_opt_text(&bridge.active_client_id, &client_id) {
                return stale_bridge_client_response();
            }
            post_result(bridge, result)
        },
        BridgeEvent::GetResult(id) => get_result(bridge, id.as_str()),
        BridgeEvent::GetFile(id) => get_file(bridge, id.as_str()),
        BridgeEvent::Unknown => plain_reply_exec(HttpStatus::NotFound, "not found\n"),
    }
}

// Laws.

/// Every event keeps the ids of the bridge in order.
pub proof fn events_keep_the_bridge_sound(
    bridge: BridgeView,
    initial: Seq<u8>,
    event: BridgeEventView,
)
    requires
        bridge.wf(),
    ensures
        bridge_step(bridge, initial, event).0.wf(),
{
    let after = bridge_step(bridge, initial, event).0;
    lemma_decimal_value(bridge.next_id + 1);
    assert forall|i: int| 0 <= i < after.queue.len() implies is_issued(
        (#[trigger] after.queue[i]).id,
        after.next_id,
    ) by {
        if event is NextCommand && after.queue.len() < bridge.queue.len() {
            assert(after.queue[i] == bridge.queue[i + 1]);
        } else if i < bridge.queue.len() {
            assert(after.queue[i] == bridge.queue[i]);
        }
    }
    assert forall|i: int, j: int| 0 <= i < j < after.queue.len() implies (
    #[trigger] after.queue[i]).id != (#[trigger] after.queue[j]).id by {
        if event is NextCommand && after.queue.len() < bridge.queue.len() {
            assert(after.queue[i] == bridge.queue[i + 1]);
            assert(after.queue[j] == bridge.queue[j + 1]);
        } else {
            assert(after.queue[i] == bridge.queue[i]);
            if j < bridge.queue.len() {
                assert(after.queue[j] == bridge.queue[j]);
            }
        }
    }
}

/// The id of a new command is borne by no other command that waits, and by no file.
pub proof fn new_ids_are_fresh(bridge: BridgeView)
    requires
        bridge.wf(),
    ensures
        forall|i: int|
            0 <= i < bridge.queue.len() ==> (#[trigger] bridge.queue[i]).id != decimal(
                bridge.next_id + 1,
            ),
        !bridge.files.contains_key(decimal(bridge.next_id + 1)),
{
    lemma_decimal_value(bridge.next_id + 1);
}

/// A command that is taken in waits behind all others, which keep their places.
pub proof fn commands_queue_up(
    bridge: BridgeView,
    initial: Seq<u8>,
    request: CommandRequestView,
    stat: FileStatView,
)
    requires
        is_admitted(initial, request),
        request.file_path is Some ==> (stat matches FileStatView::Found { is_file, size }
            && is_file),
    ensures
        ({
            let (after, reply) = bridge_step(
                bridge,
                initial,
                BridgeEventView::Enqueue(request, stat),
            );
            &&& after.queue.len() == bridge.queue.len() + 1
            &&& after.queue.drop_last() == bridge.queue
            &&& after.queue.last().id == decimal(bridge.next_id + 1)
            &&& after.queue.last().kind == request.kind
            &&& after.queue.last().args == request.args
            &&& reply matches BridgeReplyView::Respond(response) && response.status is Okay
        }),
{
    let (after, reply) = bridge_step(bridge, initial, BridgeEventView::Enqueue(request, stat));
    assert(after.queue.drop_last() =~= bridge.queue);
}

/// The bridge after a client asked for the next command `count` times.
pub open spec fn drained(bridge: BridgeView, initial: Seq<u8>, count: nat) -> BridgeView
    decreases count,
{
    if count == 0 {
        bridge
    } else {
        bridge_step(
            drained(bridge, initial, (count - 1) as nat),
            initial,
            BridgeEventView::NextCommand,
        ).0
    }
}

/// The active client is given the commands in the order in which they were queued, each once.
pub proof fn commands_come_out_in_order(bridge: BridgeView, initial: Seq<u8>, count: nat)
    requires
        bridge.active == client_of(initial),
        count <= bridge.queue.len(),
    ensures
        drained(bridge, initial, count) == (BridgeView {
            queue: bridge.queue.skip(count as int),
            ..bridge
        }),
        count < bridge.queue.len() ==> bridge_step(
            drained(bridge, initial, count),
            initial,
            BridgeEventView::NextCommand,
        ).1 == json_reply(
            HttpStatus::Okay,
            compact_text(next_json(Some(bridge.queue[count as int]))),
        ),
    decreases count,
{
    if count == 0 {
        assert(bridge.queue.skip(0) =~= bridge.queue);
    } else {
        commands_come_out_in_order(bridge, initial, (count - 1) as nat);
        assert(bridge.queue.skip(count - 1).skip(1) =~= bridge.queue.skip(count as int));
    }
}

/// A client whose session is not the active one is told so, gets no command and leaves no result.
pub proof fn stale_clients_change_nothing(
    bridge: BridgeView,
    initial: Seq<u8>,
    event: BridgeEventView,
)
    requires
        bridge.active != client_of(initial),
        event is NextCommand || event is PostResult,
    ensures
        bridge_step(bridge, initial, event) == (bridge, stale_client_reply()),
{
}

/// Asking for a result or a file, or for what there is not, changes nothing.
pub proof fn reading_changes_nothing(bridge: BridgeView, initial: Seq<u8>, event: BridgeEventView)
    requires
        event is GetResult || event is GetFile || event is Unknown,
    ensures
        bridge_step(bridge, initial, event).0 == bridge,
{
}

/// A session that is opened ends the one before: its client is another, and the old client is
/// turned away.
pub proof fn sessions_supersede(
    bridge: BridgeView,
    opening: Seq<u8>,
    initial: Seq<u8>,
    event: BridgeEventView,
)
    requires
        bridge.wf(),
        bridge.active is Some,
        client_of(initial) == bridge.active,
        event is NextCommand || event is PostResult,
    ensures
        ({
            let opened = bridge_step(bridge, opening, BridgeEventView::OpenSession).0;
            &&& opened.active is Some && opened.active != bridge.active
            &&& bridge_step(opened, initial, event) == (opened, stale_client_reply())
        }),
{
    let old_number = decimal(bridge.next_client_id);
    let new_number = decimal(bridge.next_client_id + 1);
    lemma_decimal_value(bridge.next_client_id);
    lemma_decimal_value(bridge.next_client_id + 1);
    let prefix = "client-"@;
    if prefix + old_number == prefix + new_number {
        assert((prefix + old_number).skip(prefix.len() as int) =~= old_number);
        assert((prefix + new_number).skip(prefix.len() as int) =~= new_number);
    }
}

/// The bridge after requests came, one after the other.
pub open spec fn bridge_run(
    bridge: BridgeView,
    requests: Seq<(Seq<u8>, BridgeEventView)>,
) -> BridgeView
    decreases requests.len(),
{
    if requests.len() == 0 {
        bridge
    } else {
        bridge_step(
            bridge_run(bridge, requests.drop_last()),
            requests.last().0,
            requests.last().1,
        ).0
    }
}

/// Whatever requests come, the ids of the bridge are in order.
pub proof fn reachable_bridges_are_sound(requests: Seq<(Seq<u8>, BridgeEventView)>)
    ensures
        bridge_run(BridgeView::empty(), requests).wf(),
    decreases requests.len(),
{
    if requests.len() > 0 {
        reachable_bridges_are_sound(requests.drop_last());
        events_keep_the_bridge_sound(
            bridge_run(BridgeView::empty(), requests.drop_last()),
            requests.last().0,
            requests.last().1,
        );
    }
}

/// Whether one of the requests posts a result with the given id.
pub open spec fn posts_result(requests: Seq<(Seq<u8>, BridgeEventView)>, id: Seq<char>) -> bool {
    exists|i: int|
        0 <= i < requests.len() && ((#[trigger] requests[i]).1 matches BridgeEventView::PostResult(
            result,
        ) && result.id == id)
}

proof fn lemma_results_stay(
    bridge: BridgeView,
    requests: Seq<(Seq<u8>, BridgeEventView)>,
    id: Seq<char>,
)
    requires
        !posts_result(requests, id),
    ensures
        bridge_run(bridge, requests).results.contains_key(id) == bridge.results.contains_key(id),
        bridge.results.contains_key(id) ==> bridge_run(bridge, requests).results[id]
            == bridge.results[id],
    decreases requests.len(),
{
    if requests.len() > 0 {
        let before = requests.drop_last();
        if posts_result(before, id) {
            let i = choose|i: int|
                0 <= i < before.len() && ((#[trigger] before[i]).1 matches BridgeEventView::PostResult(
                    result,
                ) && result.id == id);
            assert(requests[i] == before[i]);
        }
        lemma_results_stay(bridge, before, id);
        assert(requests.last() == requests[requests.len() - 1]);
    }
}

/// A result that the active client posts is what is read by its id from then on, until a result
/// with the same id is posted.
pub proof fn results_are_read_back(
    bridge: BridgeView,
    posting: Seq<u8>,
    result: CommandResultView,
    later: Seq<(Seq<u8>, BridgeEventView)>,
    reading: Seq<u8>,
)
    requires
        bridge.active == client_of(posting),
        !posts_result(later, result.id),
    ensures
        ({
            let posted = bridge_step(bridge, posting, BridgeEventView::PostResult(result)).0;
            bridge_step(
                bridge_run(posted, later),
                reading,
                BridgeEventView::GetResult(result.id),
            ).1 == json_reply(HttpStatus::Okay, ordered_text(result_fields(result)))
        }),
{
    let posted = bridge_step(bridge, posting, BridgeEventView::PostResult(result)).0;
    lemma_results_stay(posted, later, result.id);
}

/// A command is answered as pending, by its id, as long as no result for it is posted.
pub proof fn results_are_pending_until_posted(
    requests: Seq<(Seq<u8>, BridgeEventView)>,
    id: Seq<char>,
    reading: Seq<u8>,
)
    requires
        !posts_result(requests, id),
    ensures
        bridge_step(
            bridge_run(BridgeView::empty(), requests),
            reading,
            BridgeEventView::GetResult(id),
        ).1 == json_reply(HttpStatus::Accepted, compact_text(pending_json(id))),
{
    lemma_results_stay(BridgeView::empty(), requests, id);
}

/// The file of a command is served by the id of the command from the moment that it is queued,
/// and no longer once its result is there.
pub proof fn files_are_served_until_the_result(
    bridge: BridgeView,
    initial: Seq<u8>,
    request: CommandRequestView,
    size: nat,
    posting: Seq<u8>,
    result: CommandResultView,
    reading: Seq<u8>,
)
    requires
        request.file_path is Some,
        is_admitted(initial, request),
        result.id == decimal(bridge.next_id + 1),
        bridge.active == client_of(posting),
    ensures
        ({
            let id = decimal(bridge.next_id + 1);
            let stat = FileStatView::Found { is_file: true, size };
            let queued = bridge_step(
                bridge,
                initial,
                BridgeEventView::Enqueue(request, stat),
            ).0;
            let posted = bridge_step(queued, posting, BridgeEventView::PostResult(result)).0;
            &&& bridge_step(queued, reading, BridgeEventView::GetFile(id)).1
                == BridgeReplyView::SendFile(request.file_path->0)
            &&& bridge_step(posted, reading, BridgeEventView::GetFile(id)).1 == plain_reply(
                HttpStatus::NotFound,
                "file not found\n"@,
            )
        }),
{
}

/// A command that sends a file is refused unless it comes from this machine, and gets no id.
pub proof fn files_come_from_this_machine(
    bridge: BridgeView,
    initial: Seq<u8>,
    request: CommandRequestView,
    stat: FileStatView,
)
    requires
        request.file_path is Some,
        !is_local(header_value(initial, "host"@)),
    ensures
        bridge_step(bridge, initial, BridgeEventView::Enqueue(request, stat)) == (
            bridge,
            plain_reply(
                HttpStatus::Forbidden,
                "file attachments must be enqueued from localhost\n"@,
            ),
        ),
{
}

/// The path of a result, and the URL of a file that the browser is told, lead to the command whose
/// id they were made with.
pub proof fn paths_lead_to_their_command(number: nat, path: Seq<char>, size: nat)
    ensures
        bridge_route("GET"@, "/bridge/commands/result/"@ + decimal(number))
            == BridgeRouteView::GetResult(decimal(number)),
        bridge_route("GET"@, attached_file(decimal(number), path, size).url)
            == BridgeRouteView::GetFile(decimal(number)),
{
    let id = decimal(number);
    let results = "/bridge/commands/result/"@;
    let files = "/bridge/commands/file/"@;
    reveal_strlit("/bridge/commands/result/");
    reveal_strlit("/bridge/commands/file/");
    reveal_strlit("/bridge/commands/next");
    reveal_strlit("GET");
    reveal_strlit("POST");
    lemma_decimal_value(number);
    assert(crate::decimal::is_digit(id[0]));
    lemma_trim_prefix(results, id);
    lemma_trim_prefix(files, id);
    assert((results + id)[17] == 'r');
    assert((files + id)[17] == 'f');
    assert("/bridge/commands/next"@[17] == 'n');
    assert("GET"@.len() != "POST"@.len());
    if begins_with(files + id, results) {
        assert((files + id).take(results.len() as int)[17] == results[17]);
    }
}

/// A prefix is cut off once where what follows begins otherwise.
proof fn lemma_trim_prefix(prefix: Seq<char>, rest: Seq<char>)
    requires
        prefix.len() > 0,
        rest.len() > 0,
        prefix[0] != rest[0],
    ensures
        begins_with(prefix + rest, prefix),
        trim_start_text(prefix + rest, prefix) == rest,
{
    assert((prefix + rest).take(prefix.len() as int) =~= prefix);
    assert((prefix + rest).skip(prefix.len() as int) =~= rest);
    if begins_with(rest, prefix) {
        assert(rest.take(prefix.len() as int)[0] == rest[0]);
    }
    assert(trim_start_text(rest, prefix) == rest);
}

/// The text under a name, where a text stands there.
pub open spec fn text_under(json: JsonView, name: Seq<char>) -> Option<Seq<char>> {
    match field_of(json, name) {
        Some(JsonView::Text(text)) => Some(text),
        _ => None,
    }
}

/// The exit code under a name, where an integer of 32 bits stands there.
pub open spec fn code_under(json: JsonView, name: Seq<char>) -> Option<i32> {
    match field_of(json, name) {
        Some(JsonView::Integer(number)) if i32::MIN <= number <= i32::MAX => Some(number as i32),
        _ => None,
    }
}

/// The result that is read out of a value, if it names a command.
pub open spec fn result_in(json: JsonView) -> Option<CommandResultView> {
    match text_under(json, "id"@) {
        None => None,
        Some(id) => Some(
            CommandResultView {
                id,
                exit_code: code_under(json, "exitCode"@),
                stdout: text_under(json, "stdout"@),
                stdout_base64: text_under(json, "stdoutBase64"@),
                stderr: text_under(json, "stderr"@),
                error: text_under(json, "error"@),
            },
        ),
    }
}

/// Whether `json` tells each part of a result under its own name, and null where it has none.
pub open spec fn tells_result(json: JsonView, result: CommandResultView) -> bool {
    let text = |name: Seq<char>, value: Option<Seq<char>>| match value {
        Some(value) => field_of(json, name) == Some(JsonView::Text(value)),
        None => field_of(json, name) == Some(JsonView::Null),
    };
    &&& field_of(json, "id"@) == Some(JsonView::Text(result.id))
    &&& match result.exit_code {
        Some(code) => field_of(json, "exitCode"@) == Some(JsonView::Integer(code as int)),
        None => field_of(json, "exitCode"@) == Some(JsonView::Null),
    }
    &&& text("stdout"@, result.stdout)
    &&& text("stdoutBase64"@, result.stdout_base64)
    &&& text("stderr"@, result.stderr)
    &&& text("error"@, result.error)
}

/// What is answered to a request for a result that is there tells that result whole: each part is
/// read back under its own name, and so the result itself is.
pub proof fn results_are_told_whole(bridge: BridgeView, id: Seq<char>, response: HttpResponseView)
    requires
        bridge.results.contains_key(id),
        is_readable(bridge, BridgeEventView::GetResult(id), BridgeReplyView::Respond(response)),
    ensures
        parsed_json(response.body) matches Ok(json) && tells_result(json, bridge.results[id])
            && result_in(json) == Some(bridge.results[id]),
{
    lemma_result_names(bridge.results[id]);
    lemma_told_result(bridge.results[id]);
}

proof fn lemma_told_result(result: CommandResultView)
    ensures
        tells_result(result_json(result), result),
        result_in(result_json(result)) == Some(result),
{
    let fields = result_fields(result);
    lemma_result_names(result);
    assert(fields[0].0 == "id"@ && fields[1].0 == "exitCode"@ && fields[2].0 == "stdout"@);
    assert(fields[3].0 == "stdoutBase64"@ && fields[4].0 == "stderr"@ && fields[5].0 == "error"@);
}

/// The fields of a result are written in this order, each with what the object of the result has
/// under that name.
pub proof fn results_are_written_in_order(result: CommandResultView, i: int)
    requires
        0 <= i < 6,
    ensures
        ({
            let names = seq![
                "id"@, "exitCode"@, "stdout"@, "stdoutBase64"@, "stderr"@, "error"@,
            ];
            let fields = result_fields(result);
            &&& fields.len() == 6
            &&& fields[i].0 == names[i]
            &&& field_of(result_json(result), fields[i].0) == Some(fields[i].1)
        }),
{
    let fields = result_fields(result);
    lemma_result_names(result);
    assert(fields[0].0 == "id"@ && fields[1].0 == "exitCode"@ && fields[2].0 == "stdout"@);
    assert(fields[3].0 == "stdoutBase64"@ && fields[4].0 == "stderr"@ && fields[5].0 == "error"@);
}

/// A result that the active client posts is told whole to whoever asks for it by its id, whatever
/// comes in between, until another is posted by the same id.
pub proof fn posted_results_are_told_whole(
    bridge: BridgeView,
    posting: Seq<u8>,
    result: CommandResultView,
    later: Seq<(Seq<u8>, BridgeEventView)>,
    reading: Seq<u8>,
)
    requires
        bridge.active == client_of(posting),
        !posts_result(later, result.id),
    ensures
        ({
            let posted = bridge_step(bridge, posting, BridgeEventView::PostResult(result)).0;
            let then = bridge_run(posted, later);
            let asking = BridgeEventView::GetResult(result.id);
            bridge_step(then, reading, asking).1 matches BridgeReplyView::Respond(response)
                && response.status.code_view() == 200 && (is_readable(
                then,
                asking,
                BridgeReplyView::Respond(response),
            ) ==> (parsed_json(response.body) matches Ok(json) && tells_result(json, result)
                && result_in(json) == Some(result)))
        }),
{
    let posted = bridge_step(bridge, posting, BridgeEventView::PostResult(result)).0;
    lemma_results_stay(posted, later, result.id);
    lemma_told_result(result);
}

/// As long as no result is there, what is answered names the command that was asked for, and says
/// that it is pending.
pub proof fn pending_answers_name_their_command(
    bridge: BridgeView,
    id: Seq<char>,
    reading: Seq<u8>,
    response: HttpResponseView,
)
    requires
        !bridge.results.contains_key(id),
        bridge_step(bridge, reading, BridgeEventView::GetResult(id)).1 == BridgeReplyView::Respond(
            response,
        ),
        is_readable(bridge, BridgeEventView::GetResult(id), BridgeReplyView::Respond(response)),
    ensures
        response.status.code_view() == 202,
        parsed_json(response.body) matches Ok(json) && field_of(json, "id"@) == Some(
            JsonView::Text(id),
        ) && field_of(json, "pending"@) == Some(JsonView::Bool(true)),
{
    reveal_strlit("id");
    reveal_strlit("pending");
    assert("id"@.len() != "pending"@.len());
}

/// Whether `json` tells a command with its arguments in their order, and the file that goes along
/// exactly where there is one.
pub open spec fn tells_command(json: JsonView, command: CommandView) -> bool {
    &&& field_of(json, "id"@) == Some(JsonView::Text(command.id))
    &&& field_of(json, "kind"@) == Some(JsonView::Text(command.kind))
    &&& field_of(json, "args"@) matches Some(JsonView::List(items))
    &&& items.len() == command.args.len()
    &&& forall|i: int| 0 <= i < items.len() ==> #[trigger] items[i] == JsonView::Text(command.args[i])
    &&& match command.file {
        None => field_of(json, "file"@) is None,
        Some(told) => field_of(json, "file"@) matches Some(file) && {
            &&& field_of(file, "name"@) == Some(JsonView::Text(told.name))
            &&& field_of(file, "size"@) == Some(JsonView::Integer(told.size as int))
            &&& field_of(file, "url"@) == Some(JsonView::Text(told.url))
        },
    }
}

proof fn lemma_command_names()
    ensures
        "id"@.len() == 2,
        "kind"@.len() == 4 && "kind"@[0] == 'k',
        "args"@.len() == 4 && "args"@[0] == 'a',
        "file"@.len() == 4 && "file"@[0] == 'f',
        "name"@.len() == 4 && "name"@[0] == 'n',
        "size"@.len() == 4 && "size"@[0] == 's',
        "url"@.len() == 3,
        "status"@.len() == 6,
{
    reveal_strlit("id");
    reveal_strlit("kind");
    reveal_strlit("args");
    reveal_strlit("file");
    reveal_strlit("name");
    reveal_strlit("size");
    reveal_strlit("url");
    reveal_strlit("status");
}

/// The active client that asks for the next command is told the one that waited longest, whole,
/// and that one waits no longer. Where none waits it is told so.
pub proof fn waiting_commands_are_told_whole(
    bridge: BridgeView,
    initial: Seq<u8>,
    response: HttpResponseView,
)
    requires
        bridge.active == client_of(initial),
        bridge_step(bridge, initial, BridgeEventView::NextCommand).1 == BridgeReplyView::Respond(
            response,
        ),
        is_readable(bridge, BridgeEventView::NextCommand, BridgeReplyView::Respond(response)),
    ensures
        response.status.code_view() == 200,
        parsed_json(response.body) matches Ok(json) && (bridge.queue.len() > 0 ==> (field_of(
            json,
            "command"@,
        ) matches Some(command) && tells_command(command, bridge.queue[0]))) && (bridge.queue.len()
            == 0 ==> field_of(json, "command"@) == Some(JsonView::Null)),
        bridge.queue.len() > 0 ==> seq![bridge.queue[0]] + bridge_step(
            bridge,
            initial,
            BridgeEventView::NextCommand,
        ).0.queue == bridge.queue,
{
    lemma_command_names();
    if bridge.queue.len() > 0 {
        assert(seq![bridge.queue[0]] + bridge.queue.skip(1) =~= bridge.queue);
        let command = bridge.queue[0];
        let items = texts_view(command.args)->List_0;
        assert forall|i: int| 0 <= i < items.len() implies #[trigger] items[i] == JsonView::Text(
            command.args[i],
        ) by {}
        assert(tells_command(JsonView::Object(command_fields(command)), command));
    }
}

/// A command that is taken in is queued with its kind, its arguments and a new id, and with the
/// file at its path where it has one: the name of that file, its size, and the path by which the
/// bridge serves it. Whoever hands it over is told that id.
pub proof fn commands_are_queued_whole(
    bridge: BridgeView,
    initial: Seq<u8>,
    request: CommandRequestView,
    size: nat,
    response: HttpResponseView,
)
    requires
        ({
            let event = BridgeEventView::Enqueue(request, FileStatView::Found { is_file: true, size });
            &&& is_admitted(initial, request)
            &&& bridge_step(bridge, initial, event).1 == BridgeReplyView::Respond(response)
            &&& is_readable(bridge, event, BridgeReplyView::Respond(response))
        }),
    ensures
        ({
            let event = BridgeEventView::Enqueue(request, FileStatView::Found { is_file: true, size });
            let after = bridge_step(bridge, initial, event).0;
            let command = after.queue.last();
            &&& after.next_id == bridge.next_id + 1
            &&& after.active == bridge.active && after.results == bridge.results
            &&& after.queue == bridge.queue.push(command)
            &&& command.id == decimal(bridge.next_id + 1)
            &&& command.kind == request.kind
            &&& command.args == request.args
            &&& request.file_path is None ==> command.file is None && after.files == bridge.files
            &&& request.file_path matches Some(path) ==> after.files == bridge.files.insert(
                command.id,
                path,
            ) && (command.file matches Some(file) && file.size == size && file.url
                == "/bridge/commands/file/"@ + command.id && (match file_name(path) {
                Some(name) => file.name == name,
                None => file.name == "android-app.apk"@,
            }))
            &&& response.status.code_view() == 200
            &&& parsed_json(response.body) matches Ok(json) && field_of(json, "id"@) == Some(
                JsonView::Text(command.id),
            ) && field_of(json, "status"@) == Some(JsonView::Text("queued"@))
        }),
{
    lemma_command_names();
}

/// A command whose file cannot be looked up, or is none, is not queued and leaves no file behind:
/// it ends with the reason, and its id is used up.
pub proof fn files_that_are_none_are_refused(
    bridge: BridgeView,
    initial: Seq<u8>,
    request: CommandRequestView,
    stat: FileStatView,
)
    requires
        request.file_path is Some,
        is_admitted(initial, request),
        !(stat matches FileStatView::Found { is_file, size } && is_file),
    ensures
        ({
            let (after, reply) = bridge_step(bridge, initial, BridgeEventView::Enqueue(request, stat));
            &&& after == (BridgeView { next_id: bridge.next_id + 1, ..bridge })
            &&& reply matches BridgeReplyView::Fail(message) && (
            stat matches FileStatView::Failed(why) ==> message == why) && (stat is Found ==> message
                == "bridge file attachment is not a regular file"@)
        }),
{
}

/// A client that opens a session is told its id, which has not been given out before, and is the
/// active one from then on. Nothing else changes.
pub proof fn sessions_are_told_to_their_client(
    bridge: BridgeView,
    initial: Seq<u8>,
    response: HttpResponseView,
)
    requires
        bridge_step(bridge, initial, BridgeEventView::OpenSession).1 == BridgeReplyView::Respond(
            response,
        ),
        is_readable(bridge, BridgeEventView::OpenSession, BridgeReplyView::Respond(response)),
    ensures
        ({
            let after = bridge_step(bridge, initial, BridgeEventView::OpenSession).0;
            let client = "client-"@ + decimal(bridge.next_client_id + 1);
            &&& after == (BridgeView {
                next_client_id: bridge.next_client_id + 1,
                active: Some(client),
                ..bridge
            })
            &&& response.status.code_view() == 200
            &&& parsed_json(response.body) matches Ok(json) && field_of(json, "clientId"@) == Some(
                JsonView::Text(client),
            )
        }),
{
}

/// A result that the active client posts is kept under its id, and the file of its command is let
/// go. No other result or file is touched, and nothing waits less or more.
pub proof fn results_are_kept_by_their_id(
    bridge: BridgeView,
    initial: Seq<u8>,
    result: CommandResultView,
    other: Seq<char>,
)
    requires
        bridge.active == client_of(initial),
        other != result.id,
    ensures
        ({
            let (after, reply) = bridge_step(bridge, initial, BridgeEventView::PostResult(result));
            &&& after.results.contains_key(result.id) && after.results[result.id] == result
            &&& after.results.contains_key(other) == bridge.results.contains_key(other)
            &&& bridge.results.contains_key(other) ==> after.results[other] == bridge.results[other]
            &&& !after.files.contains_key(result.id)
            &&& after.files.contains_key(other) == bridge.files.contains_key(other)
            &&& bridge.files.contains_key(other) ==> after.files[other] == bridge.files[other]
            &&& after.queue == bridge.queue && after.active == bridge.active
            &&& after.next_id == bridge.next_id && after.next_client_id == bridge.next_client_id
            &&& reply matches BridgeReplyView::Respond(response) && response.status.code_view()
                == 204 && response.body.len() == 0
        }),
{
}

/// A client is known by the header of that name, and one that is not the active one is answered
/// with a conflict that tells it why.
pub proof fn stale_clients_are_told_why(initial: Seq<u8>)
    ensures
        client_of(initial) == header_value(initial, "x-bridge-client-id"@),
        stale_client_reply() matches BridgeReplyView::Respond(response)
            && response.status.code_view() == 409 && response.content_type is Json
            && !response.headers_only && exists|json: JsonView|
            response.body == #[trigger] compact_text(json) && field_of(json, "error"@) == Some(
                JsonView::Text("staleClient"@),
            ) && field_of(json, "message"@) == Some(
                JsonView::Text("another browser tab owns the active bridge session"@),
            ),
{
    reveal_strlit("error");
    reveal_strlit("message");
    assert("error"@.len() == 5 && "message"@.len() == 7);
    let json = JsonView::Object(
        map![
            "error"@ => JsonView::Text("staleClient"@),
            "message"@ => JsonView::Text("another browser tab owns the active bridge session"@),
        ],
    );
    assert(field_of(json, "error"@) == Some(JsonView::Text("staleClient"@)));
    if let BridgeReplyView::Respond(response) = stale_client_reply() {
        assert(response.body == compact_text(json));
    }
}

/// Answers are sent with their body, and say whether it is JSON or plain text.
pub proof fn answers_say_what_they_are(status: HttpStatus, body: Seq<char>)
    ensures
        json_reply(status, body) matches BridgeReplyView::Respond(response) && response.status
            == status && response.body == body && response.content_type is Json
            && !response.headers_only,
        plain_reply(status, body) matches BridgeReplyView::Respond(response) && response.status
            == status && response.body == body && response.content_type is Plain
            && !response.headers_only,
{
}

/// Each path of the bridge is for one method, and asks for one thing. Every other is unknown.
pub proof fn bridge_paths_ask_for_one_thing(method: Seq<char>, path: Seq<char>)
    ensures
        ({
            let route = bridge_route(method, path);
            let result_path = begins_with(path, "/bridge/commands/result/"@);
            let file_path = begins_with(path, "/bridge/commands/file/"@);
            &&& route is OpenSession <==> method == "POST"@ && path == "/bridge/client/session"@
            &&& route is Enqueue <==> method == "POST"@ && path == "/bridge/commands"@
            &&& route is NextCommand <==> method == "GET"@ && path == "/bridge/commands/next"@
            &&& route is PostResult <==> method == "POST"@ && path == "/bridge/commands/result"@
            &&& route is GetResult <==> method == "GET"@ && result_path
            &&& route is GetFile <==> method == "GET"@ && file_path
            &&& route matches BridgeRouteView::GetResult(id) ==> id == trim_start_text(
                path,
                "/bridge/commands/result/"@,
            )
            &&& route matches BridgeRouteView::GetFile(id) ==> id == trim_start_text(
                path,
                "/bridge/commands/file/"@,
            )
        }),
{
    reveal_strlit("/bridge/client/session");
    reveal_strlit("/bridge/commands");
    reveal_strlit("/bridge/commands/next");
    reveal_strlit("/bridge/commands/result");
    reveal_strlit("/bridge/commands/result/");
    reveal_strlit("/bridge/commands/file/");
    reveal_strlit("GET");
    reveal_strlit("POST");
    assert("GET"@.len() == 3 && "POST"@.len() == 4);
    assert("/bridge/client/session"@.len() == 22 && "/bridge/commands"@.len() == 16);
    assert("/bridge/commands/next"@.len() == 21 && "/bridge/commands/result"@.len() == 23);
    let results = "/bridge/commands/result/"@;
    let files = "/bridge/commands/file/"@;
    assert(results.len() == 24 && files.len() == 22);
    assert(results[17] == 'r' && files[17] == 'f');
    if begins_with(path, results) && begins_with(path, files) {
        assert(path.take(24)[17] == results[17]);
        assert(path.take(22)[17] == files[17]);
    }
}

/// A bridge begins without commands, results, files and clients.
pub proof fn bridges_begin_with_nothing()
    ensures
        ({
            let bridge = BridgeView::empty();
            &&& bridge.next_id == 0 && bridge.next_client_id == 0
            &&& bridge.active is None
            &&& bridge.queue.len() == 0
            &&& forall|id: Seq<char>| !bridge.results.contains_key(id) && !bridge.files.contains_key(id)
        }),
{
}

/// A command without a file is taken in wherever it comes from, and one with a file from this
/// machine alone.
pub proof fn commands_are_admitted_by_their_file(initial: Seq<u8>, request: CommandRequestView)
    ensures
        request.file_path is None ==> is_admitted(initial, request),
        request.file_path is Some ==> (is_admitted(initial, request) <==> is_local(
            header_value(initial, "host"@),
        )),
{
}

/// A report of a client may be 16 KiB long, and any other request to the bridge 32 MiB.
pub proof fn requests_are_bounded()
    ensures
        MAX_WEB_CLIENT_LOG_BYTES == 16 * 1024,
        MAX_WEB_BRIDGE_BODY_BYTES == 32 * 1024 * 1024,
{
}

/// Commands, what asks for them and what they leave are seen as they are: each part by its own
/// name, and what is missing as missing.
pub proof fn commands_are_seen_as_they_are(
    file: BridgeCommandFile,
    command: BridgeCommand,
    request: BridgeCommandRequest,
    result: BridgeCommandResult,
)
    ensures
        file@.name == file.name@,
        file@.size == file.size,
        file@.url == file.url@,
        command@.id == command.id@,
        command@.kind == command.kind@,
        command@.args == texts(command.args@),
        command.file matches Some(file) ==> command@.file == Some(file@),
        command.file is None ==> command@.file is None,
        request@.kind == request.kind@,
        request@.args == texts(request.args@),
        request@.file_path == opt_text(request.file_path),
        result@.id == result.id@,
        result@.exit_code == result.exit_code,
        result@.stdout == opt_text(result.stdout),
        result@.stdout_base64 == opt_text(result.stdout_base64),
        result@.stderr == opt_text(result.stderr),
        result@.error == opt_text(result.error),
{
}

/// Routes, replies and what is known of a file are seen as they are.
pub proof fn replies_are_seen_as_they_are(
    text: String,
    response: HttpResponse,
    is_file: bool,
    size: u64,
)
    ensures
        BridgeRoute::OpenSession@ is OpenSession,
        BridgeRoute::Enqueue@ is Enqueue,
        BridgeRoute::NextCommand@ is NextCommand,
        BridgeRoute::PostResult@ is PostResult,
        BridgeRoute::Unknown@ is Unknown,
        BridgeRoute::GetResult(text)@ == BridgeRouteView::GetResult(text@),
        BridgeRoute::GetFile(text)@ == BridgeRouteView::GetFile(text@),
        BridgeReply::Respond(response)@ == BridgeReplyView::Respond(response@),
        BridgeReply::SendFile(text)@ == BridgeReplyView::SendFile(text@),
        BridgeReply::Fail(text)@ == BridgeReplyView::Fail(text@),
        FileStat::Unasked@ is Unasked,
        FileStat::Failed(text)@ == FileStatView::Failed(text@),
        (FileStat::Found { is_file, size })@ == (FileStatView::Found { is_file, size: size as nat }),
{
}

} // verus!
