//! Commands for a phone that a browser tab holds: they are handed to the bridge, and their
//! results are waited for.
use crate::bridge::{queued_json, BridgeCommandResult, CommandRequestView, CommandResultView};
use crate::decimal::{decimal, decimal_exec};
use crate::http::{
    http_request, http_url, parse_http_url, request_text, urls_lead_to_what_they_are_made_of,
    HttpUrlView, DEFAULT_WEB_BIND_HOST, DEFAULT_WEB_PORT,
};
use crate::json::{
    compact_text, field_of, is_plain, no_fields, opt_text_json, opt_text_view, parse_json,
    parsed_json, put, read_back, text_json, text_of, texts_json, texts_view, Json, JsonView,
};
use crate::scan::{trim_end_char, trim_end_char_exec};
use crate::text::{chars_of, concat2, concat3, opt_text, same_text, texts};
use vstd::prelude::*;
use vstd::utf8::encode_utf8;

verus! {

pub const PHONE_COMMAND_NAME: &'static str = "phone";

pub const DEFAULT_PHONE_BRIDGE_URL: &'static str = "http://127.0.0.1:8080";

/// For how many milliseconds a result is waited for.
pub const PHONE_BRIDGE_TIMEOUT_MILLIS: u64 = 900000;

/// For how many milliseconds to wait before a result is asked for again.
pub const PHONE_BRIDGE_POLL_MILLIS: u64 = 500;

/// The arguments of `phone`.
#[derive(Debug)]
pub struct PhoneArgs {
    pub url: String,
    pub command: PhoneCommand,
}

#[derive(Debug)]
pub enum PhoneCommand {
    Adb(PhoneAdbArgs),
}

#[derive(Debug)]
pub struct PhoneAdbArgs {
    pub dry_run: bool,
    pub args: Vec<String>,
}

// Attachments.

/// Whether the first of `args` is `install`.
pub open spec fn is_install(args: Seq<Seq<char>>) -> bool {
    args.len() > 0 && args[0] == "install"@
}

/// The path that must lead to a file, if there is one: the last of the arguments that install an
/// app, unless it is an option.
pub open spec fn attachment_path(args: Seq<Seq<char>>) -> Option<Seq<char>> {
    if is_install(args) && !(args.last().len() > 0 && args.last()[0] == '-') {
        Some(args.last())
    } else {
        None
    }
}

/// The file to send along with `args`, or why they cannot be sent. `is_file` says whether the path
/// leads to a file.
pub open spec fn attachment(args: Seq<Seq<char>>, is_file: bool) -> Result<
    Option<Seq<char>>,
    Seq<char>,
> {
    if !is_install(args) {
        Ok(None)
    } else if attachment_path(args) is None {
        Err("adb install requires a final APK path argument"@)
    } else if !is_file {
        Err("APK file not found: "@ + args.last())
    } else {
        Ok(Some(args.last()))
    }
}

/// The path to look up before `args` are sent, if there is one.
pub fn phone_attachment_path(args: &[String]) -> (path: Option<String>)
    ensures
        opt_text(path) == attachment_path(texts(args@)),
{
    if args.len() == 0 || !same_text(args[0].as_str(), "install") {
        return None;
    }
    let last = &args[args.len() - 1];
    assert(texts(args@).last() == last@);
    let chars = chars_of(last.as_str());
    if chars.len() > 0 && chars[0] == '-' {
        None
    } else {
        Some(last.clone())
    }
}

pub fn phone_adb_file_attachment(args: &[String], is_file: bool) -> (file: Result<
    Option<String>,
    String,
>)
    ensures
        match file {
            Ok(path) => attachment(texts(args@), is_file) == Ok::<Option<Seq<char>>, Seq<char>>(
                opt_text(path),
            ),
            Err(message) => attachment(texts(args@), is_file) == Err::<Option<Seq<char>>, Seq<char>>(
                message@,
            ),
        },
{
    if args.len() == 0 || !same_text(args[0].as_str(), "install") {
        return Ok(None);
    }
    match phone_attachment_path(args) {
        None => Err("adb install requires a final APK path argument".to_string()),
        Some(path) => if is_file {
            Ok(Some(path))
        } else {
            Err(concat2("APK file not found: ", path.as_str()))
        },
    }
}

// Plans.

/// What a dry run of `phone adb` prints.
pub open spec fn phone_json(
    url: Seq<char>,
    args: Seq<Seq<char>>,
    file_path: Option<Seq<char>>,
) -> JsonView {
    JsonView::Object(
        map![
            "url"@ => JsonView::Text(url),
            "kind"@ => JsonView::Text("adb"@),
            "args"@ => texts_view(args),
            "filePath"@ => opt_text_view(file_path),
            "transport"@ => JsonView::Text("browser-webusb-bridge"@),
        ],
    )
}

/// What a command line hands to the bridge.
pub open spec fn payload_json(
    kind: Seq<char>,
    args: Seq<Seq<char>>,
    file_path: Option<Seq<char>>,
) -> JsonView {
    let fields = map!["kind"@ => JsonView::Text(kind), "args"@ => texts_view(args)];
    match file_path {
        Some(path) => JsonView::Object(fields.insert("filePath"@, JsonView::Text(path))),
        None => JsonView::Object(fields),
    }
}

/// The body with which a command is handed to the bridge.
pub open spec fn payload_text(
    kind: Seq<char>,
    args: Seq<Seq<char>>,
    file_path: Option<Seq<char>>,
) -> Seq<char> {
    compact_text(payload_json(kind, args, file_path))
}

proof fn lemma_payload_is_plain(
    kind: Seq<char>,
    args: Seq<Seq<char>>,
    file_path: Option<Seq<char>>,
)
    ensures
        is_plain(payload_json(kind, args, file_path), 100),
{
    let fields = payload_json(kind, args, file_path)->Object_0;
    let items = texts_view(args)->List_0;
    assert forall|i: int| 0 <= i < items.len() implies is_plain(#[trigger] items[i], 98) by {
        assert(items[i] == JsonView::Text(args[i]));
    }
    assert(is_plain(texts_view(args), 99));
    assert forall|name: Seq<char>| #[trigger] fields.contains_key(name) implies is_plain(
        fields[name],
        99,
    ) by {}
}

/// The URL of a path below that of a bridge.
pub open spec fn url_of(base_url: Seq<char>, path: Seq<char>) -> Seq<char> {
    trim_end_char(base_url, '/') + path
}

pub fn bridge_url(base_url: &str, path: &str) -> (url: String)
    ensures
        url@ == url_of(base_url@, path@),
{
    concat2(trim_end_char_exec(base_url, '/').as_str(), path)
}

/// How far a command has come: it is handed over, or its result is waited for.
#[derive(Debug)]
pub enum PhoneStage {
    Enqueue,
    Poll(String),
}

/// A command on its way to the phone.
#[derive(Debug)]
pub struct PhoneJob {
    pub url: String,
    pub payload: String,
    pub stage: PhoneStage,
}

pub enum PhoneStageView {
    Enqueue,
    Poll(Seq<char>),
}

pub struct PhoneJobView {
    pub url: Seq<char>,
    pub payload: Seq<char>,
    pub stage: PhoneStageView,
}

impl View for PhoneJob {
    type V = PhoneJobView;

    open spec fn view(&self) -> PhoneJobView {
        PhoneJobView {
            url: self.url@,
            payload: self.payload@,
            stage: match self.stage {
                PhoneStage::Enqueue => PhoneStageView::Enqueue,
                PhoneStage::Poll(id) => PhoneStageView::Poll(id@),
            },
        }
    }
}

/// Starts a command.
pub fn run_phone_bridge_command(
    url: &str,
    kind: &str,
    args: &[String],
    file_path: &Option<String>,
) -> (job: PhoneJob)
    ensures
        job@ == (PhoneJobView {
            url: url@,
            payload: payload_text(kind@, texts(args@), opt_text(*file_path)),
            stage: PhoneStageView::Enqueue,
        }),
        parsed_json(job@.payload) == read_back(
            payload_json(kind@, texts(args@), opt_text(*file_path)),
        ),
{
    proof {
        lemma_payload_is_plain(kind@, texts(args@), opt_text(*file_path));
    }
    let mut fields = no_fields();
    put(&mut fields, "kind", text_json(kind));
    put(&mut fields, "args", texts_json(args));
    if let Some(path) = file_path {
        put(&mut fields, "filePath", text_json(path.as_str()));
    }
    PhoneJob {
        url: url.to_string(),
        payload: Json::Object(fields).compact(),
        stage: PhoneStage::Enqueue,
    }
}

/// What `phone` does.
#[derive(Debug)]
pub enum PhonePlan {
    /// The value is printed.
    Print(Json),
    /// The command is run.
    Run(PhoneJob),
}

/// What `phone` does. `is_file` says whether the path that `phone_attachment_path` gives leads to
/// a file.
pub fn phone(args: &PhoneArgs, is_file: bool) -> (plan: Result<PhonePlan, String>)
    ensures
        ({
            let PhoneCommand::Adb(adb) = args.command;
            match attachment(texts(adb.args@), is_file) {
                Err(message) => plan matches Err(text) && text@ == message,
                Ok(file) => match plan {
                    Err(_) => false,
                    Ok(PhonePlan::Print(json)) => adb.dry_run && json@ == phone_json(
                        args.url@,
                        texts(adb.args@),
                        file,
                    ),
                    Ok(PhonePlan::Run(job)) => !adb.dry_run && job@ == (PhoneJobView {
                        url: args.url@,
                        payload: payload_text("adb"@, texts(adb.args@), file),
                        stage: PhoneStageView::Enqueue,
                    }),
                },
            }
        }),
{
    match &args.command {
        PhoneCommand::Adb(adb_args) => phone_adb(args.url.as_str(), adb_args, is_file),
    }
}

fn phone_adb(url: &str, args: &PhoneAdbArgs, is_file: bool) -> (plan: Result<PhonePlan, String>)
    ensures
        match attachment(texts(args.args@), is_file) {
            Err(message) => plan matches Err(text) && text@ == message,
            Ok(file) => match plan {
                Err(_) => false,
                Ok(PhonePlan::Print(json)) => args.dry_run && json@ == phone_json(
                    url@,
                    texts(args.args@),
                    file,
                ),
                Ok(PhonePlan::Run(job)) => !args.dry_run && job@ == (PhoneJobView {
                    url: url@,
                    payload: payload_text("adb"@, texts(args.args@), file),
                    stage: PhoneStageView::Enqueue,
                }),
            },
        },
{
    let file_path = match phone_adb_file_attachment(args.args.as_slice(), is_file) {
        Ok(file_path) => file_path,
        Err(message) => {
            return Err(message);
        },
    };
    if args.dry_run {
        let mut fields = no_fields();
        put(&mut fields, "url", text_json(url));
        put(&mut fields, "kind", text_json("adb"));
        put(&mut fields, "args", texts_json(args.args.as_slice()));
        put(&mut fields, "filePath", opt_text_json(&file_path));
        put(&mut fields, "transport", text_json("browser-webusb-bridge"));
        return Ok(PhonePlan::Print(Json::Object(fields)));
    }
    Ok(
        PhonePlan::Run(
            run_phone_bridge_command(url, "adb", args.args.as_slice(), &file_path),
        ),
    )
}

// Running.

/// A request to send: where to connect, and what to write there.
#[derive(Debug)]
pub struct PhoneRequest {
    pub host: String,
    pub port: u16,
    pub text: String,
}

pub struct PhoneRequestView {
    pub host: Seq<char>,
    pub port: int,
    pub text: Seq<char>,
}

impl View for PhoneRequest {
    type V = PhoneRequestView;

    open spec fn view(&self) -> PhoneRequestView {
        PhoneRequestView { host: self.host@, port: self.port as int, text: self.text@ }
    }
}

/// A request for a URL, or why it cannot be sent.
pub open spec fn request_to(method: Seq<char>, url: Seq<char>, body: Seq<char>) -> Result<
    PhoneRequestView,
    Seq<char>,
> {
    match http_url(url) {
        Err(message) => Err(message),
        Ok(parts) => Ok(
            PhoneRequestView {
                host: parts.host,
                port: parts.port,
                text: request_text(method, parts.path, parts.host, body),
            },
        ),
    }
}

pub fn http_request_json(method: &str, url: &str, body: &str) -> (request: Result<
    PhoneRequest,
    String,
>)
    ensures
        match request {
            Ok(request) => request_to(method@, url@, body@) == Ok::<PhoneRequestView, Seq<char>>(
                request@,
            ),
            Err(message) => request_to(method@, url@, body@) == Err::<PhoneRequestView, Seq<char>>(
                message@,
            ),
        },
{
    match parse_http_url(url) {
        Err(message) => Err(message),
        Ok(parts) => {
            let text = http_request(method, &parts, body);
            Ok(PhoneRequest { host: parts.host, port: parts.port, text })
        },
    }
}

/// What a job sends at its stage.
pub open spec fn job_request(job: PhoneJobView) -> Result<PhoneRequestView, Seq<char>> {
    match job.stage {
        PhoneStageView::Enqueue => request_to(
            "POST"@,
            url_of(job.url, "/bridge/commands"@),
            job.payload,
        ),
        PhoneStageView::Poll(id) => request_to(
            "GET"@,
            url_of(job.url, "/bridge/commands/result/"@ + id),
            Seq::empty(),
        ),
    }
}

/// What follows a reply of the bridge.
#[derive(Debug)]
pub enum PhoneStep {
    /// The job goes on at once.
    Next(PhoneJob),
    /// The job goes on after a pause.
    Wait(PhoneJob),
    /// This text holds the result.
    Finished(String),
    /// The job cannot go on.
    Failed(String),
}

pub enum PhoneStepView {
    Next(PhoneJobView),
    Wait(PhoneJobView),
    Finished(Seq<char>),
    Failed(Seq<char>),
}

impl View for PhoneStep {
    type V = PhoneStepView;

    open spec fn view(&self) -> PhoneStepView {
        match self {
            PhoneStep::Next(job) => PhoneStepView::Next(job@),
            PhoneStep::Wait(job) => PhoneStepView::Wait(job@),
            PhoneStep::Finished(text) => PhoneStepView::Finished(text@),
            PhoneStep::Failed(message) => PhoneStepView::Failed(message@),
        }
    }
}

/// The id of the command in what the bridge answers, or why there is none.
pub open spec fn id_in(parsed: Result<JsonView, Seq<char>>) -> Result<Seq<char>, Seq<char>> {
    match parsed {
        Err(message) => Err(message),
        Ok(json) => match field_of(json, "id"@) {
            Some(field) if text_of(field) is Some => Ok(text_of(field)->0),
            _ => Err("bridge response did not include command id"@),
        },
    }
}

/// The value of a parsed text, or the text of the error.
pub open spec fn parsed_view(parsed: Result<Json, String>) -> Result<JsonView, Seq<char>> {
    match parsed {
        Ok(json) => Ok(json@),
        Err(message) => Err(message@),
    }
}

/// The id of the command in what the bridge answered, given what was read out of the answer.
pub fn command_id(parsed: Result<Json, String>) -> (id: Result<String, String>)
    ensures
        match id {
            Ok(id) => id_in(parsed_view(parsed)) == Ok::<Seq<char>, Seq<char>>(id@),
            Err(message) => id_in(parsed_view(parsed)) == Err::<Seq<char>, Seq<char>>(message@),
        },
{
    match parsed {
        Err(message) => Err(message),
        Ok(json) => {
            if let Some(field) = json.get("id") {
                if let Some(id) = field.as_str() {
                    return Ok(id.to_string());
                }
            }
            Err("bridge response did not include command id".to_string())
        },
    }
}

/// What follows a reply of the bridge, given its status, its body, and what was read out of the
/// body where a command was handed over.
pub open spec fn phone_step(
    job: PhoneJobView,
    status: nat,
    body: Seq<char>,
    parsed: Result<JsonView, Seq<char>>,
) -> PhoneStepView {
    match job.stage {
        PhoneStageView::Enqueue => if status != 200 {
            PhoneStepView::Failed(
                "bridge enqueue failed with HTTP "@ + decimal(status) + ": "@ + body,
            )
        } else {
            match id_in(parsed) {
                Ok(id) => PhoneStepView::Next(
                    PhoneJobView { stage: PhoneStageView::Poll(id), ..job },
                ),
                Err(message) => PhoneStepView::Failed(message),
            }
        },
        PhoneStageView::Poll(_) => if status == 200 {
            PhoneStepView::Finished(body)
        } else if status == 202 {
            PhoneStepView::Wait(job)
        } else {
            PhoneStepView::Failed(
                "bridge result failed with HTTP "@ + decimal(status) + ": "@ + body,
            )
        },
    }
}

fn http_failure(what: &str, status: u16, body: &str) -> (message: String)
    ensures
        message@ == what@ + decimal(status as nat) + ": "@ + body@,
{
    let mut message = concat3(what, decimal_exec(status as u64).as_str(), ": ");
    message.append(body);
    message
}

impl PhoneJob {
    /// What to send next.
    pub fn request(&self) -> (request: Result<PhoneRequest, String>)
        ensures
            match request {
                Ok(request) => job_request(self@) == Ok::<PhoneRequestView, Seq<char>>(request@),
                Err(message) => job_request(self@) == Err::<PhoneRequestView, Seq<char>>(message@),
            },
    {
        match &self.stage {
            PhoneStage::Enqueue => {
                let url = bridge_url(self.url.as_str(), "/bridge/commands");
                http_request_json("POST", url.as_str(), self.payload.as_str())
            },
            PhoneStage::Poll(id) => {
                let path = concat2("/bridge/commands/result/", id.as_str());
                let url = bridge_url(self.url.as_str(), path.as_str());
                proof {
                    reveal_strlit("");
                    assert(""@ =~= Seq::empty());
                }
                http_request_json("GET", url.as_str(), "")
            },
        }
    }

    /// The error with which the job ends that has waited for so long, if it has waited too long.
    pub fn timed_out(&self, elapsed_millis: u64) -> (message: Option<String>)
        ensures
            opt_text(message) == (match self@.stage {
                PhoneStageView::Poll(id) if elapsed_millis >= PHONE_BRIDGE_TIMEOUT_MILLIS => Some(
                    "timed out waiting for phone bridge command "@ + id
                        + "; keep the browser tab open and connected"@,
                ),
                _ => None,
            }),
    {
        match &self.stage {
            PhoneStage::Poll(id) => if elapsed_millis >= PHONE_BRIDGE_TIMEOUT_MILLIS {
                Some(
                    concat3(
                        "timed out waiting for phone bridge command ",
                        id.as_str(),
                        "; keep the browser tab open and connected",
                    ),
                )
            } else {
                None
            },
            PhoneStage::Enqueue => None,
        }
    }

    /// Takes in a reply of the bridge, and what was read out of its body.
    pub fn take_reply(self, status: u16, body: String, parsed: Result<Json, String>) -> (step:
        PhoneStep)
        ensures
            step@ == phone_step(self@, status as nat, body@, parsed_view(parsed)),
    {
        match self.stage {
            PhoneStage::Enqueue => {
                if status != 200 {
                    return PhoneStep::Failed(
                        http_failure("bridge enqueue failed with HTTP ", status, body.as_str()),
                    );
                }
                match command_id(parsed) {
                    Ok(id) => PhoneStep::Next(
                        PhoneJob {
                            url: self.url,
                            payload: self.payload,
                            stage: PhoneStage::Poll(id),
                        },
                    ),
                    Err(message) => PhoneStep::Failed(message),
                }
            },
            PhoneStage::Poll(id) => if status == 200 {
                PhoneStep::Finished(body)
            } else if status == 202 {
                PhoneStep::Wait(
                    PhoneJob { url: self.url, payload: self.payload, stage: PhoneStage::Poll(id) },
                )
            } else {
                PhoneStep::Failed(
                    http_failure("bridge result failed with HTTP ", status, body.as_str()),
                )
            },
        }
    }

    /// Takes in a reply of the bridge.
    pub fn advance(self, status: u16, body: String) -> (step: PhoneStep)
        ensures
            step@ == phone_step(self@, status as nat, body@, parsed_json(body@)),
    {
        let parsed = match &self.stage {
            PhoneStage::Enqueue if status == 200 => parse_json(body.as_str()),
            _ => Ok(Json::Null),
        };
        self.take_reply(status, body, parsed)
    }
}

// Results.

/// What `base64::Engine::decode` of the standard engine reads out of a text: the bytes, or the
/// text of its error.
pub uninterp spec fn base64_bytes(text: Seq<char>) -> Result<Seq<u8>, Seq<char>>;

/// Calls `decode` of `base64::engine::general_purpose::STANDARD`, which depends on the text
/// alone. An error is given as the text that it prints.
#[verifier::external_body]
fn decode_base64(text: &str) -> (bytes: Result<Vec<u8>, String>)
    ensures
        match bytes {
            Ok(bytes) => base64_bytes(text@) == Ok::<Seq<u8>, Seq<char>>(bytes@),
            Err(message) => base64_bytes(text@) == Err::<Seq<u8>, Seq<char>>(message@),
        },
{
    let engine = base64::engine::general_purpose::STANDARD;
    base64::Engine::decode(&engine, text).map_err(|error| error.to_string())
}

/// What is left to do with a result: `stderr` is written first, then `stdout`, and the exit code
/// is handed on. Where `stdout` could not be read, its error is the outcome.
#[derive(Debug)]
pub struct PhoneOutput {
    pub stderr: String,
    pub stdout: Result<Vec<u8>, String>,
    pub exit_code: i32,
}

pub struct PhoneOutputView {
    pub stderr: Seq<char>,
    pub stdout: Result<Seq<u8>, Seq<char>>,
    pub exit_code: i32,
}

/// The bytes that were read, or the text of the error.
pub open spec fn bytes_view(bytes: Result<Vec<u8>, String>) -> Result<Seq<u8>, Seq<char>> {
    match bytes {
        Ok(bytes) => Ok(bytes@),
        Err(message) => Err(message@),
    }
}

impl View for PhoneOutput {
    type V = PhoneOutputView;

    open spec fn view(&self) -> PhoneOutputView {
        PhoneOutputView {
            stderr: self.stderr@,
            stdout: bytes_view(self.stdout),
            exit_code: self.exit_code,
        }
    }
}

/// What is left to do with a result, or the error that it reports. `decoded` is what was read out
/// of its encoded output, where it has one.
pub open spec fn phone_outcome(
    result: CommandResultView,
    decoded: Result<Seq<u8>, Seq<char>>,
) -> Result<PhoneOutputView, Seq<char>> {
    match result.error {
        Some(error) => Err(error),
        None => Ok(
            PhoneOutputView {
                stderr: match result.stderr {
                    Some(text) => text,
                    None => Seq::empty(),
                },
                stdout: match (result.stdout_base64, result.stdout) {
                    (Some(_), _) => decoded,
                    (None, Some(text)) => Ok(encode_utf8(text)),
                    (None, None) => Ok(Seq::empty()),
                },
                exit_code: match result.exit_code {
                    Some(code) => code,
                    None => 0,
                },
            },
        ),
    }
}

/// What is left to do with a result, given what was read out of its encoded output.
pub fn phone_output(result: &BridgeCommandResult, decoded: Result<Vec<u8>, String>) -> (outcome:
    Result<PhoneOutput, String>)
    ensures
        match outcome {
            Ok(output) => phone_outcome(result@, bytes_view(decoded)) == Ok::<
                PhoneOutputView,
                Seq<char>,
            >(output@),
            Err(message) => phone_outcome(result@, bytes_view(decoded)) == Err::<
                PhoneOutputView,
                Seq<char>,
            >(message@),
        },
{
    if let Some(error) = &result.error {
        return Err(error.clone());
    }
    let stderr = match &result.stderr {
        Some(text) => text.clone(),
        None => String::new(),
    };
    let stdout = match (&result.stdout_base64, &result.stdout) {
        (Some(_), _) => decoded,
        (None, Some(text)) => {
            let mut bytes: Vec<u8> = Vec::new();
            bytes.extend_from_slice(text.as_str().as_bytes());
            assert(bytes@ =~= encode_utf8(text@));
            Ok(bytes)
        },
        (None, None) => Ok(Vec::new()),
    };
    let exit_code = match result.exit_code {
        Some(code) => code,
        None => 0,
    };
    Ok(PhoneOutput { stderr, stdout, exit_code })
}

/// What is left to do with a result.
pub fn finish_phone_adb(result: &BridgeCommandResult) -> (outcome: Result<PhoneOutput, String>)
    ensures
        ({
            let decoded = match result@.stdout_base64 {
                Some(text) => base64_bytes(text),
                None => Ok(Seq::<u8>::empty()),
            };
            match outcome {
                Ok(output) => phone_outcome(result@, decoded) == Ok::<PhoneOutputView, Seq<char>>(
                    output@,
                ),
                Err(message) => phone_outcome(result@, decoded) == Err::<PhoneOutputView, Seq<char>>(
                    message@,
                ),
            }
        }),
        match result.error {
            Some(error) => outcome matches Err(message) && message@ == error@,
            None => outcome matches Ok(output) && (match result.exit_code {
                Some(code) => output.exit_code == code,
                None => output.exit_code == 0,
            }),
        },
{
    let decoded = match &result.stdout_base64 {
        Some(text) => decode_base64(text.as_str()),
        None => Ok(Vec::new()),
    };
    phone_output(result, decoded)
}

// Laws.

/// A job ends with a result only where the bridge answers that it has one, and with an error only
/// where the bridge answers with neither a result nor a promise of one.
pub proof fn jobs_wait_while_results_are_pending(
    job: PhoneJobView,
    id: Seq<char>,
    status: nat,
    body: Seq<char>,
    parsed: Result<JsonView, Seq<char>>,
)
    requires
        job.stage == PhoneStageView::Poll(id),
    ensures
        phone_step(job, status, body, parsed) is Finished <==> status == 200,
        phone_step(job, status, body, parsed) == PhoneStepView::Wait(job) <==> status == 202,
        phone_step(job, status, body, parsed) is Failed <==> status != 200 && status != 202,
{
}

/// A command line that reads the answer of the bridge to its command asks for the result of that
/// command from then on.
pub proof fn queued_commands_are_asked_for_by_their_id(
    job: PhoneJobView,
    id: Seq<char>,
    body: Seq<char>,
)
    requires
        job.stage is Enqueue,
    ensures
        phone_step(job, 200, body, read_back(queued_json(id))) == PhoneStepView::Next(
            PhoneJobView { stage: PhoneStageView::Poll(id), ..job },
        ),
{
    reveal_strlit("id");
    reveal_strlit("status");
    assert("id"@.len() != "status"@.len());
}

/// The exit code of a command is handed on as it was reported, and as zero where none was, whatever
/// the command wrote. A result that reports an error is that error, and nothing else of it counts.
pub proof fn exit_codes_are_handed_on(
    result: CommandResultView,
    other: CommandResultView,
    decoded: Result<Seq<u8>, Seq<char>>,
    other_decoded: Result<Seq<u8>, Seq<char>>,
)
    ensures
        result.error matches Some(error) ==> phone_outcome(result, decoded) == Err::<
            PhoneOutputView,
            Seq<char>,
        >(error),
        result.error is None ==> phone_outcome(result, decoded) is Ok,
        result.error is None ==> (result.exit_code matches Some(code) ==> phone_outcome(
            result,
            decoded,
        )->Ok_0.exit_code == code),
        result.error is None && result.exit_code is None ==> phone_outcome(
            result,
            decoded,
        )->Ok_0.exit_code == 0,
        result.error is None && other.error is None && result.exit_code == other.exit_code
            ==> phone_outcome(result, decoded)->Ok_0.exit_code == phone_outcome(
            other,
            other_decoded,
        )->Ok_0.exit_code,
{
}

/// What a command wrote is written out as it was reported: its standard error as it is, and its
/// standard output out of its encoded form where there is one, and else as it is. What was not
/// reported is empty.
pub proof fn outputs_are_written_out(
    result: CommandResultView,
    decoded: Result<Seq<u8>, Seq<char>>,
)
    requires
        result.error is None,
    ensures
        phone_outcome(result, decoded) matches Ok(output) && {
            &&& result.stderr matches Some(text) ==> output.stderr == text
            &&& result.stderr is None ==> output.stderr.len() == 0
            &&& result.stdout_base64 is Some ==> output.stdout == decoded
            &&& result.stdout_base64 is None ==> (result.stdout matches Some(text)
                ==> output.stdout == Ok::<Seq<u8>, Seq<char>>(encode_utf8(text)))
            &&& result.stdout_base64 is None && result.stdout is None ==> output.stdout == Ok::<
                Seq<u8>,
                Seq<char>,
            >(Seq::empty())
        },
{
}

/// A file goes along exactly with arguments that begin with `install` and end with the path of a
/// file, and it is that file. Other arguments go without one. Where the last argument is an option,
/// or leads to no file, nothing is sent.
pub proof fn installs_send_their_file(args: Seq<Seq<char>>, is_file: bool)
    ensures
        args.len() == 0 || args[0] != "install"@ ==> attachment(args, is_file) == Ok::<
            Option<Seq<char>>,
            Seq<char>,
        >(None) && attachment_path(args) is None,
        args.len() > 0 && args[0] == "install"@ ==> ({
            let last = args[args.len() - 1];
            let option = last.len() > 0 && last[0] == '-';
            &&& option ==> attachment(args, is_file) == Err::<Option<Seq<char>>, Seq<char>>(
                "adb install requires a final APK path argument"@,
            ) && attachment_path(args) is None
            &&& !option ==> attachment_path(args) == Some(last)
            &&& !option && is_file ==> attachment(args, is_file) == Ok::<
                Option<Seq<char>>,
                Seq<char>,
            >(Some(last))
            &&& !option && !is_file ==> attachment(args, is_file) == Err::<
                Option<Seq<char>>,
                Seq<char>,
            >("APK file not found: "@ + last)
        }),
{
}

/// The command that is read out of what a command line hands over.
pub open spec fn request_in(json: JsonView) -> Option<CommandRequestView> {
    match (field_of(json, "kind"@), field_of(json, "args"@)) {
        (Some(JsonView::Text(kind)), Some(JsonView::List(items))) => Some(
            CommandRequestView {
                kind,
                args: items.map_values(
                    |item: JsonView|
                        match item {
                            JsonView::Text(text) => text,
                            _ => Seq::empty(),
                        },
                ),
                file_path: match field_of(json, "filePath"@) {
                    Some(JsonView::Text(path)) => Some(path),
                    _ => None,
                },
            },
        ),
        _ => None,
    }
}

/// What a command line hands over is the command that was asked for: its kind, its arguments in
/// their order, and its file where it has one, each under its own name.
pub proof fn payloads_are_read_back(
    kind: Seq<char>,
    args: Seq<Seq<char>>,
    file_path: Option<Seq<char>>,
)
    ensures
        ({
            let json = payload_json(kind, args, file_path);
            &&& field_of(json, "kind"@) == Some(JsonView::Text(kind))
            &&& field_of(json, "args"@) matches Some(JsonView::List(items)) && items.len()
                == args.len() && forall|i: int|
                0 <= i < items.len() ==> #[trigger] items[i] == JsonView::Text(args[i])
            &&& file_path matches Some(path) ==> field_of(json, "filePath"@) == Some(
                JsonView::Text(path),
            )
            &&& file_path is None ==> field_of(json, "filePath"@) is None
            &&& request_in(json) == Some(CommandRequestView { kind, args, file_path })
            &&& payload_text(kind, args, file_path) == compact_text(json)
        }),
{
    lemma_payload_names();
    let json = payload_json(kind, args, file_path);
    assert(request_in(json)->0.args =~= args);
}

proof fn lemma_payload_names()
    ensures
        "kind"@.len() == 4 && "kind"@[0] == 'k',
        "args"@.len() == 4 && "args"@[0] == 'a',
        "filePath"@.len() == 8,
        "url"@.len() == 3,
        "transport"@.len() == 9,
{
    reveal_strlit("kind");
    reveal_strlit("args");
    reveal_strlit("filePath");
    reveal_strlit("url");
    reveal_strlit("transport");
}

/// What a dry run prints is the URL of the bridge and the very command that a run hands over.
pub proof fn phone_dry_runs_show_what_is_sent(
    url: Seq<char>,
    args: Seq<Seq<char>>,
    file_path: Option<Seq<char>>,
)
    ensures
        ({
            let json = phone_json(url, args, file_path);
            &&& field_of(json, "url"@) == Some(JsonView::Text(url))
            &&& field_of(json, "transport"@) == Some(JsonView::Text("browser-webusb-bridge"@))
            &&& field_of(json, "kind"@) == Some(JsonView::Text("adb"@))
            &&& request_in(json) == request_in(payload_json("adb"@, args, file_path))
            &&& file_path is None ==> field_of(json, "filePath"@) == Some(JsonView::Null)
        }),
{
    lemma_payload_names();
    payloads_are_read_back("adb"@, args, file_path);
}

/// A path is put behind the URL of the bridge, whose slashes at the end do not count.
pub proof fn urls_are_put_together(base_url: Seq<char>, path: Seq<char>)
    ensures
        url_of(base_url + seq!['/'], path) == url_of(base_url, path),
        base_url.len() == 0 || base_url.last() != '/' ==> url_of(base_url, path) == base_url + path,
{
    assert((base_url + seq!['/']).drop_last() =~= base_url);
}

/// A job hands its command over with a post to the queue of the bridge, and then asks for the
/// result of the command by its id, without a body. A URL that cannot be read ends it.
pub proof fn jobs_send_what_their_stage_asks_for(
    url: Seq<char>,
    payload: Seq<char>,
    id: Seq<char>,
)
    ensures
        ({
            let hand_over = PhoneJobView { url, payload, stage: PhoneStageView::Enqueue };
            match http_url(trim_end_char(url, '/') + "/bridge/commands"@) {
                Err(message) => job_request(hand_over) == Err::<PhoneRequestView, Seq<char>>(message),
                Ok(parts) => job_request(hand_over) matches Ok(request) && request.host
                    == parts.host && request.port == parts.port && request.text == request_text(
                    "POST"@,
                    parts.path,
                    parts.host,
                    payload,
                ),
            }
        }),
        ({
            let asking = PhoneJobView { url, payload, stage: PhoneStageView::Poll(id) };
            match http_url(trim_end_char(url, '/') + ("/bridge/commands/result/"@ + id)) {
                Err(message) => job_request(asking) == Err::<PhoneRequestView, Seq<char>>(message),
                Ok(parts) => job_request(asking) matches Ok(request) && request.host == parts.host
                    && request.port == parts.port && request.text == request_text(
                    "GET"@,
                    parts.path,
                    parts.host,
                    Seq::empty(),
                ),
            }
        }),
{
}

/// A job goes on as the bridge answers. A command that is not queued fails with the status and the
/// answer, and so does one that is queued without an id. A result that has come is handed on as it
/// is, and any other answer fails with its status.
pub proof fn jobs_go_on_as_they_are_answered(
    job: PhoneJobView,
    status: nat,
    body: Seq<char>,
    json: JsonView,
    message: Seq<char>,
)
    ensures
        job.stage is Enqueue && status != 200 ==> phone_step(job, status, body, Ok(json))
            == PhoneStepView::Failed(
            "bridge enqueue failed with HTTP "@ + decimal(status) + ": "@ + body,
        ),
        job.stage is Enqueue && status == 200 ==> phone_step(job, status, body, Err(message))
            == PhoneStepView::Failed(message),
        job.stage is Enqueue && status == 200 ==> match field_of(json, "id"@) {
            Some(JsonView::Text(id)) => phone_step(job, status, body, Ok(json))
                == PhoneStepView::Next(
                PhoneJobView {
                    url: job.url,
                    payload: job.payload,
                    stage: PhoneStageView::Poll(id),
                },
            ),
            _ => phone_step(job, status, body, Ok(json)) == PhoneStepView::Failed(
                "bridge response did not include command id"@,
            ),
        },
        job.stage is Poll && status == 200 ==> phone_step(job, status, body, Ok(json))
            == PhoneStepView::Finished(body),
        job.stage is Poll && status != 200 && status != 202 ==> phone_step(
            job,
            status,
            body,
            Ok(json),
        ) == PhoneStepView::Failed(
            "bridge result failed with HTTP "@ + decimal(status) + ": "@ + body,
        ),
{
}

/// Where nothing else is asked for, commands go to the connector on this machine, by the port that
/// it serves by itself. A result is asked for twice a second, for a quarter of an hour.
pub proof fn commands_go_to_the_connector_by_themselves()
    ensures
        http_url(DEFAULT_PHONE_BRIDGE_URL@) == Ok::<HttpUrlView, Seq<char>>(
            HttpUrlView { host: "127.0.0.1"@, port: 8080, path: seq!['/'] },
        ),
        DEFAULT_WEB_BIND_HOST@ == "127.0.0.1"@,
        DEFAULT_WEB_PORT == 8080,
        2 * PHONE_BRIDGE_POLL_MILLIS == 1000,
        PHONE_BRIDGE_TIMEOUT_MILLIS == 15 * 60 * 1000,
{
    let host = "127.0.0.1"@;
    reveal_strlit("127.0.0.1");
    reveal_strlit("http://");
    reveal_strlit("http://127.0.0.1:8080");
    assert(host =~= seq!['1', '2', '7', '.', '0', '.', '0', '.', '1']);
    reveal_with_fuel(decimal, 5);
    assert(decimal(8080) =~= seq!['8', '0', '8', '0']) by {
        assert(decimal(8) =~= seq!['8']);
        assert(decimal(80) =~= seq!['8', '0']);
        assert(decimal(808) =~= seq!['8', '0', '8']);
    }
    urls_lead_to_what_they_are_made_of(host, 8080, seq!['/'], Seq::empty());
    assert(DEFAULT_PHONE_BRIDGE_URL@ =~= "http://"@ + (host + (seq![':'] + decimal(8080))));
}

/// A job, what it sends, what follows and what it leaves are seen as they are.
pub proof fn jobs_are_seen_as_they_are(
    job: PhoneJob,
    request: PhoneRequest,
    output: PhoneOutput,
    text: String,
)
    ensures
        request@.host == request.host@,
        request@.port == request.port,
        request@.text == request.text@,
        output@.stderr == output.stderr@,
        output.stdout matches Ok(bytes) ==> output@.stdout == Ok::<Seq<u8>, Seq<char>>(bytes@),
        output.stdout matches Err(message) ==> output@.stdout == Err::<Seq<u8>, Seq<char>>(
            message@,
        ),
        output@.exit_code == output.exit_code,
        PhoneStep::Next(job)@ == PhoneStepView::Next(job@),
        PhoneStep::Wait(job)@ == PhoneStepView::Wait(job@),
        PhoneStep::Finished(text)@ == PhoneStepView::Finished(text@),
        PhoneStep::Failed(text)@ == PhoneStepView::Failed(text@),
{
}

} // verus!
