//! The commands of the command line on a project: starting, inspecting and stopping its runtime,
//! and the ADB commands for it.
use crate::adb::{
    container_adb_proxy_command, container_proxy, container_targeted,
    container_targeted_adb_command, copy_args, docker_cp_args, first_stage, host_adb_proxy_command,
    host_proxy_line, host_targeted_adb_command, host_targeted_line, install_job,
    installs_use_the_copied_file, is_job_for, jobs_are_for_their_project, launch_app_adb_args,
    launch_args, mode_text, proxy_job, quoted, quoted_words, run_adb_proxy_command, run_install_apk,
    run_targeted_adb_command, shell_command, targeted, targeted_job, AdbJob, AdbMode, JobView,
    CONTAINER_INSTALL_APK_PATH,
};
use crate::decimal::{decimal, decimal_exec};
use crate::docker_command::{
    code_text, command_error, command_error_text, docker_error, docker_label, docker_status_error,
    ProcessOutput,
};
use crate::json::{
    field_of, no_fields, object_view, opt_text_json, opt_text_view, put, text_json, texts_json, texts_view,
    Json, JsonView,
};
use crate::names::{
    android_spec, container_name, endpoint_error_text, is_safe_endpoint, normalized, spec_of,
    volume_name, AndroidSpec, EndpointError, SpecView,
};
use crate::runtime::{
    android_resource_limits, android_runtime_options, base_args, docker_run_args, docker_stop_args,
    endpoint_of, environment_args, first_binding, image_args, no_vnc_endpoint, options_of,
    parse_docker_no_vnc_port, profiles_are_what_they_are_for, publish_args, published, run_args,
    stop_args, url_host_of, AndroidResourceLimits, AndroidRuntimeOptions, LimitsView, NoVncEndpoint,
    NoVncView, OptionsView, DEFAULT_NOVNC_CONTAINER_PORT,
};
use crate::scan::{join, lines, trim};
use crate::text::{
    concat2, concat3, debug_string, debug_text, lossy_string, lossy_text, opt_text, texts,
};
use vstd::prelude::*;

verus! {

/// How many ports are tried, from the one that was asked for.
pub const NO_VNC_PORT_FALLBACK_SPAN: u16 = 100;

pub const DEFAULT_ADB_MODE: &'static str = "container";

pub const DEFAULT_NETWORK: &'static str = "docker-git-shared";

// Arguments.

/// How the runtime of a project is reached.
#[derive(Debug)]
pub struct AndroidConnectionArgs {
    pub network: String,
    pub endpoint: String,
    pub image: String,
}

/// The arguments of `start`, `status` and `stop`.
#[derive(Debug)]
pub struct LifecycleArgs {
    pub connection: AndroidConnectionArgs,
    pub memory: String,
    pub memory_swap: String,
    pub cpus: String,
    pub runtime_profile: String,
    pub novnc_bind_host: String,
    pub novnc_host: String,
    pub novnc_port: u16,
    pub no_novnc_publish: bool,
    pub dry_run: bool,
}

/// The arguments of `adb`.
#[derive(Debug)]
pub struct AdbArgs {
    pub connection: AndroidConnectionArgs,
    pub adb_mode: AdbMode,
    pub dry_run: bool,
    pub args: Vec<String>,
}

/// The arguments of `install-apk`.
#[derive(Debug)]
pub struct InstallApkArgs {
    pub connection: AndroidConnectionArgs,
    pub adb_mode: AdbMode,
    pub dry_run: bool,
    pub path: String,
}

/// The arguments of `launch-app`.
#[derive(Debug)]
pub struct LaunchAppArgs {
    pub connection: AndroidConnectionArgs,
    pub adb_mode: AdbMode,
    pub dry_run: bool,
    pub package_name: String,
    pub activity: Option<String>,
}

// Configuration.

/// The spec that a project and its arguments call for, or why there is none.
pub open spec fn spec_for(project: Seq<char>, args: AndroidConnectionArgs) -> Result<
    SpecView,
    Seq<char>,
> {
    if is_safe_endpoint(args.endpoint@) {
        Ok(spec_of(project, args.network@, args.endpoint@, args.image@))
    } else {
        Err(endpoint_error_text(args.endpoint@))
    }
}

pub fn configured_spec(project: &str, args: &AndroidConnectionArgs) -> (spec: Result<
    AndroidSpec,
    EndpointError,
>)
    ensures
        match spec {
            Ok(spec) => spec_for(project@, *args) == Ok::<SpecView, Seq<char>>(spec@),
            Err(error) => error.value@ == args.endpoint@ && spec_for(project@, *args) == Err::<
                SpecView,
                Seq<char>,
            >(endpoint_error_text(args.endpoint@)),
        },
{
    android_spec(project, args.network.as_str(), args.endpoint.as_str(), args.image.as_str())
}

/// The limits that the arguments call for.
pub open spec fn limits_for(args: LifecycleArgs) -> LimitsView {
    LimitsView { memory: args.memory@, memory_swap: args.memory_swap@, cpus: args.cpus@ }
}

pub fn configured_resource_limits(args: &LifecycleArgs) -> (limits: AndroidResourceLimits)
    ensures
        limits@ == limits_for(*args),
        limits.memory@ == args.memory@,
        limits.memory_swap@ == args.memory_swap@,
        limits.cpus@ == args.cpus@,
{
    android_resource_limits(args.memory.as_str(), args.memory_swap.as_str(), args.cpus.as_str())
}

/// The runtime options that the arguments call for, or why there are none.
pub open spec fn options_for(args: LifecycleArgs) -> Result<OptionsView, Seq<char>> {
    match options_of(args.runtime_profile@) {
        Some(options) => Ok(options),
        None => Err("invalid runtime profile "@ + debug_text(args.runtime_profile@)),
    }
}

pub fn configured_runtime_options(args: &LifecycleArgs) -> (options: Result<
    AndroidRuntimeOptions,
    String,
>)
    ensures
        match options {
            Ok(options) => options_for(*args) == Ok::<OptionsView, Seq<char>>(options@),
            Err(message) => options_for(*args) == Err::<OptionsView, Seq<char>>(message@),
        },
{
    match android_runtime_options(args.runtime_profile.as_str()) {
        Some(options) => Ok(options),
        None => Err(
            concat2("invalid runtime profile ", debug_string(args.runtime_profile.as_str()).as_str()),
        ),
    }
}

/// Whether noVNC is to be published.
pub open spec fn wants_no_vnc(args: LifecycleArgs, options: OptionsView) -> bool {
    !args.no_novnc_publish && options.web_vnc_enabled
}

/// The noVNC endpoint that the arguments call for at a port of the host, if they call for one.
pub open spec fn no_vnc_for(args: LifecycleArgs, options: OptionsView, port: u16) -> Option<
    NoVncView,
> {
    if wants_no_vnc(args, options) {
        Some(endpoint_of(args.novnc_bind_host@, args.novnc_host@, port))
    } else {
        None
    }
}

/// An optional endpoint.
pub open spec fn endpoint_view(endpoint: Option<NoVncEndpoint>) -> Option<NoVncView> {
    match endpoint {
        Some(endpoint) => Some(endpoint@),
        None => None,
    }
}

pub fn configured_no_vnc(args: &LifecycleArgs, options: &AndroidRuntimeOptions, host_port: u16) -> (
    no_vnc: Option<NoVncEndpoint>)
    ensures
        endpoint_view(no_vnc) == no_vnc_for(*args, options@, host_port),
{
    if args.no_novnc_publish || !options.web_vnc_enabled.as_bool() {
        return None;
    }
    Some(no_vnc_endpoint(args.novnc_bind_host.as_str(), args.novnc_host.as_str(), host_port))
}

// The search for a port.

/// The last port that is tried.
pub open spec fn last_port(requested: u16) -> u16 {
    if requested + (NO_VNC_PORT_FALLBACK_SPAN - 1) <= u16::MAX {
        (requested + (NO_VNC_PORT_FALLBACK_SPAN - 1)) as u16
    } else {
        u16::MAX
    }
}

/// A search for a free port: those before `next` were taken.
#[derive(Clone, Copy, Debug)]
pub struct PortSearch {
    pub requested: u16,
    pub next: u16,
}

/// What follows a try.
#[derive(Debug)]
pub enum PortStep {
    Found(u16),
    Next(PortSearch),
    Failed(String),
}

pub enum PortStepView {
    Found(u16),
    Next(PortSearch),
    Failed(Seq<char>),
}

impl View for PortStep {
    type V = PortStepView;

    open spec fn view(&self) -> PortStepView {
        match self {
            PortStep::Found(port) => PortStepView::Found(*port),
            PortStep::Next(search) => PortStepView::Next(*search),
            PortStep::Failed(message) => PortStepView::Failed(message@),
        }
    }
}

/// The error of a search that found no port.
pub open spec fn no_port_text(bind_host: Seq<char>, requested: u16) -> Seq<char> {
    "no free noVNC port on "@ + bind_host + " in range "@ + decimal(requested as nat) + "..="@
        + decimal(last_port(requested) as nat)
}

/// What follows where the next port is free, or where it is not.
pub open spec fn port_step(search: PortSearch, bind_host: Seq<char>, free: bool) -> PortStepView {
    if free {
        PortStepView::Found(search.next)
    } else if search.next < last_port(search.requested) {
        PortStepView::Next(PortSearch { next: (search.next + 1) as u16, ..search })
    } else {
        PortStepView::Failed(no_port_text(bind_host, search.requested))
    }
}

impl PortSearch {
    pub open spec fn wf(self) -> bool {
        self.requested <= self.next <= last_port(self.requested)
    }

    /// Begins with the port that was asked for.
    pub fn new(requested: u16) -> (search: PortSearch)
        ensures
            search.wf(),
            search == (PortSearch { requested, next: requested }),
    {
        PortSearch { requested, next: requested }
    }

    /// Takes in whether the next port is free.
    pub fn advance(self, bind_host: &str, free: bool) -> (step: PortStep)
        ensures
            step@ == port_step(self, bind_host@, free),
            self.wf() ==> (step matches PortStep::Next(search) ==> search.wf()),
    {
        if free {
            return PortStep::Found(self.next);
        }
        let last: u16 = if self.requested <= u16::MAX - (NO_VNC_PORT_FALLBACK_SPAN - 1) {
            self.requested + (NO_VNC_PORT_FALLBACK_SPAN - 1)
        } else {
            u16::MAX
        };
        if self.next < last {
            PortStep::Next(PortSearch { requested: self.requested, next: self.next + 1 })
        } else {
            let mut message = concat3("no free noVNC port on ", bind_host, " in range ");
            message.append(decimal_exec(self.requested as u64).as_str());
            message.append("..=");
            message.append(decimal_exec(last as u64).as_str());
            PortStep::Failed(message)
        }
    }
}

/// How a search ends, where `free` says of each port whether it is free.
pub open spec fn search_end(
    search: PortSearch,
    bind_host: Seq<char>,
    free: spec_fn(u16) -> bool,
) -> PortStepView
    decreases u16::MAX - search.next,
{
    match port_step(search, bind_host, free(search.next)) {
        PortStepView::Next(next) => search_end(next, bind_host, free),
        end => end,
    }
}

/// A search ends with the first free port from the next on, and fails only where none is free.
pub proof fn searches_find_the_first_free_port(
    search: PortSearch,
    bind_host: Seq<char>,
    free: spec_fn(u16) -> bool,
)
    requires
        search.wf(),
    ensures
        match search_end(search, bind_host, free) {
            PortStepView::Found(port) => {
                &&& search.next <= port <= last_port(search.requested)
                &&& free(port)
                &&& forall|other: u16| search.next <= other < port ==> !#[trigger] free(other)
            },
            PortStepView::Failed(message) => {
                &&& message == no_port_text(bind_host, search.requested)
                &&& forall|other: u16|
                    search.next <= other <= last_port(search.requested) ==> !#[trigger] free(other)
            },
            PortStepView::Next(_) => false,
        },
    decreases u16::MAX - search.next,
{
    if let PortStepView::Next(next) = port_step(search, bind_host, free(search.next)) {
        searches_find_the_first_free_port(next, bind_host, free);
    }
}

// What is printed.

/// The limits as they are printed.
pub open spec fn limits_json(limits: LimitsView) -> JsonView {
    JsonView::Object(
        map![
            "memory"@ => JsonView::Text(limits.memory),
            "memorySwap"@ => JsonView::Text(limits.memory_swap),
            "cpus"@ => JsonView::Text(limits.cpus),
        ],
    )
}

fn limits_to_json(limits: &AndroidResourceLimits) -> (json: Json)
    ensures
        json@ == limits_json(limits@),
{
    let mut fields = no_fields();
    put(&mut fields, "memory", text_json(limits.memory.as_str()));
    put(&mut fields, "memorySwap", text_json(limits.memory_swap.as_str()));
    put(&mut fields, "cpus", text_json(limits.cpus.as_str()));
    Json::Object(fields)
}

/// The runtime options as they are printed.
pub open spec fn options_json(options: OptionsView) -> JsonView {
    JsonView::Object(
        map![
            "profile"@ => JsonView::Text(options.profile),
            "emulatorHeadless"@ => JsonView::Bool(options.emulator_headless),
            "appiumEnabled"@ => JsonView::Bool(options.appium_enabled),
            "webLogEnabled"@ => JsonView::Bool(options.web_log_enabled),
            "webVncEnabled"@ => JsonView::Bool(options.web_vnc_enabled),
            "skinEnabled"@ => JsonView::Bool(options.skin_enabled),
            "emulatorAdditionalArgs"@ => JsonView::Text(options.emulator_additional_args),
        ],
    )
}

fn options_to_json(options: &AndroidRuntimeOptions) -> (json: Json)
    ensures
        json@ == options_json(options@),
{
    let mut fields = no_fields();
    put(&mut fields, "profile", text_json(options.profile.as_str()));
    put(&mut fields, "emulatorHeadless", Json::Bool(options.emulator_headless.as_bool()));
    put(&mut fields, "appiumEnabled", Json::Bool(options.appium_enabled.as_bool()));
    put(&mut fields, "webLogEnabled", Json::Bool(options.web_log_enabled.as_bool()));
    put(&mut fields, "webVncEnabled", Json::Bool(options.web_vnc_enabled.as_bool()));
    put(&mut fields, "skinEnabled", Json::Bool(options.skin_enabled.as_bool()));
    put(
        &mut fields,
        "emulatorAdditionalArgs",
        text_json(options.emulator_additional_args.as_str()),
    );
    Json::Object(fields)
}

/// The fields that tell of a spec, its limits and its runtime.
pub open spec fn project_fields(spec: SpecView, limits: LimitsView, options: OptionsView) -> Map<
    Seq<char>,
    JsonView,
> {
    map![
        "projectId"@ => JsonView::Text(spec.project_id),
        "projectContainerName"@ => JsonView::Text(spec.project_container_name),
        "androidContainerName"@ => JsonView::Text(spec.android_container_name),
        "androidVolumeName"@ => JsonView::Text(spec.android_volume_name),
        "dockerNetwork"@ => JsonView::Text(spec.docker_network),
        "adbEndpoint"@ => JsonView::Text(spec.adb_endpoint),
        "image"@ => JsonView::Text(spec.image),
        "resourceLimits"@ => limits_json(limits),
        "runtime"@ => options_json(options),
    ]
}

/// A value, or null where there is no endpoint.
pub open spec fn endpoint_part(no_vnc: Option<NoVncView>, part: spec_fn(NoVncView) -> JsonView) ->
    JsonView {
    match no_vnc {
        Some(endpoint) => part(endpoint),
        None => JsonView::Null,
    }
}

/// The fields that tell of noVNC, added to others.
pub open spec fn with_no_vnc(fields: Map<Seq<char>, JsonView>, no_vnc: Option<NoVncView>) -> Map<
    Seq<char>,
    JsonView,
> {
    fields.insert("noVncPublished"@, JsonView::Bool(no_vnc is Some)).insert(
        "noVncUrl"@,
        endpoint_part(no_vnc, |endpoint: NoVncView| JsonView::Text(endpoint.url)),
    ).insert(
        "noVncBindHost"@,
        endpoint_part(no_vnc, |endpoint: NoVncView| JsonView::Text(endpoint.bind_host)),
    ).insert(
        "noVncHost"@,
        endpoint_part(no_vnc, |endpoint: NoVncView| JsonView::Text(endpoint.url_host)),
    ).insert(
        "noVncPort"@,
        endpoint_part(no_vnc, |endpoint: NoVncView| JsonView::Integer(endpoint.host_port as int)),
    ).insert(
        "noVncContainerPort"@,
        endpoint_part(
            no_vnc,
            |endpoint: NoVncView| JsonView::Integer(endpoint.container_port as int),
        ),
    )
}

/// What the lifecycle commands print.
pub open spec fn lifecycle_json(
    spec: SpecView,
    no_vnc: Option<NoVncView>,
    limits: LimitsView,
    options: OptionsView,
    container_id: Option<Seq<char>>,
    removed: Option<bool>,
) -> JsonView {
    JsonView::Object(
        with_no_vnc(project_fields(spec, limits, options), no_vnc).insert(
            "containerId"@,
            opt_text_view(container_id),
        ).insert(
            "removed"@,
            match removed {
                Some(flag) => JsonView::Bool(flag),
                None => JsonView::Null,
            },
        ),
    )
}

fn put_no_vnc(fields: &mut Vec<(String, Json)>, no_vnc: &Option<NoVncEndpoint>)
    ensures
        object_view(final(fields)@) == with_no_vnc(
            object_view(old(fields)@),
            endpoint_view(*no_vnc),
        ),
{
    match no_vnc {
        Some(endpoint) => {
            put(fields, "noVncPublished", Json::Bool(true));
            put(fields, "noVncUrl", text_json(endpoint.url.as_str()));
            put(fields, "noVncBindHost", text_json(endpoint.bind_host.as_str()));
            put(fields, "noVncHost", text_json(endpoint.url_host.as_str()));
            put(fields, "noVncPort", Json::Unsigned(endpoint.host_port as u64));
            put(fields, "noVncContainerPort", Json::Unsigned(endpoint.container_port as u64));
        },
        None => {
            put(fields, "noVncPublished", Json::Bool(false));
            put(fields, "noVncUrl", Json::Null);
            put(fields, "noVncBindHost", Json::Null);
            put(fields, "noVncHost", Json::Null);
            put(fields, "noVncPort", Json::Null);
            put(fields, "noVncContainerPort", Json::Null);
        },
    }
}

pub fn lifecycle_output(
    spec: &AndroidSpec,
    no_vnc: &Option<NoVncEndpoint>,
    resource_limits: &AndroidResourceLimits,
    runtime_options: &AndroidRuntimeOptions,
    container_id: &Option<String>,
    removed: Option<bool>,
) -> (output: Json)
    ensures
        output@ == lifecycle_json(
            spec@,
            endpoint_view(*no_vnc),
            resource_limits@,
            runtime_options@,
            opt_text(*container_id),
            removed,
        ),
{
    let mut fields = no_fields();
    put(&mut fields, "projectId", text_json(spec.project_id.as_str()));
    put(&mut fields, "projectContainerName", text_json(spec.project_container_name.as_str()));
    put(&mut fields, "androidContainerName", text_json(spec.android_container_name.as_str()));
    put(&mut fields, "androidVolumeName", text_json(spec.android_volume_name.as_str()));
    put(&mut fields, "dockerNetwork", text_json(spec.docker_network.as_str()));
    put(&mut fields, "adbEndpoint", text_json(spec.adb_endpoint.as_str()));
    put(&mut fields, "image", text_json(spec.image.as_str()));
    put(&mut fields, "resourceLimits", limits_to_json(resource_limits));
    put(&mut fields, "runtime", options_to_json(runtime_options));
    put_no_vnc(&mut fields, no_vnc);
    put(&mut fields, "containerId", opt_text_json(container_id));
    let removed_json = match removed {
        Some(flag) => Json::Bool(flag),
        None => Json::Null,
    };
    put(&mut fields, "removed", removed_json);
    Json::Object(fields)
}

/// An object with the Docker arguments added; another value as it is.
pub open spec fn with_docker(output: JsonView, args: Seq<Seq<char>>) -> JsonView {
    match output {
        JsonView::Object(fields) => JsonView::Object(fields.insert("docker"@, texts_view(args))),
        _ => output,
    }
}

pub fn with_docker_args(output: Json, docker_args: &[String]) -> (whole: Json)
    ensures
        whole@ == with_docker(output@, texts(docker_args@)),
{
    match output {
        Json::Object(fields) => {
            let mut fields = fields;
            put(&mut fields, "docker", texts_json(docker_args));
            Json::Object(fields)
        },
        other => other,
    }
}

// Starting.

/// How far a start has come.
#[derive(Clone, Copy, Debug)]
pub enum StartStage {
    /// A free port is looked for.
    FindPort(PortSearch),
    /// Docker is asked whether it has the image.
    Inspect,
    /// Docker fetches the image.
    Pull,
    /// Docker runs the container.
    Run,
}

/// A start on its way.
#[derive(Debug)]
pub struct StartJob {
    pub spec: AndroidSpec,
    pub resource_limits: AndroidResourceLimits,
    pub runtime_options: AndroidRuntimeOptions,
    pub bind_host: String,
    pub url_host: String,
    pub no_vnc: Option<NoVncEndpoint>,
    pub stage: StartStage,
}

pub struct StartView {
    pub spec: SpecView,
    pub limits: LimitsView,
    pub options: OptionsView,
    pub bind_host: Seq<char>,
    pub url_host: Seq<char>,
    pub no_vnc: Option<NoVncView>,
    pub stage: StartStage,
}

impl View for StartJob {
    type V = StartView;

    open spec fn view(&self) -> StartView {
        StartView {
            spec: self.spec@,
            limits: self.resource_limits@,
            options: self.runtime_options@,
            bind_host: self.bind_host@,
            url_host: self.url_host@,
            no_vnc: endpoint_view(self.no_vnc),
            stage: self.stage,
        }
    }
}

/// What a start does next.
#[derive(Debug)]
pub enum StartAction {
    /// The port of the host is tried.
    TryPort(String, u16),
    /// Docker is called, and what it writes is kept.
    Docker(Vec<String>),
    /// Docker is called, and what it writes is passed on as it comes.
    StreamDocker(Vec<String>),
}

pub enum StartActionView {
    TryPort(Seq<char>, u16),
    Docker(Seq<Seq<char>>),
    StreamDocker(Seq<Seq<char>>),
}

impl View for StartAction {
    type V = StartActionView;

    open spec fn view(&self) -> StartActionView {
        match self {
            StartAction::TryPort(host, port) => StartActionView::TryPort(host@, *port),
            StartAction::Docker(args) => StartActionView::Docker(texts(args@)),
            StartAction::StreamDocker(args) => StartActionView::StreamDocker(texts(args@)),
        }
    }
}

/// What became of an action.
#[derive(Debug)]
pub enum StartEvent {
    /// Whether the port is free.
    Port(bool),
    /// What Docker left, or the error with which it could not be started.
    Output(Result<ProcessOutput, String>),
    /// The exit code of Docker, or the error with which it could not be followed.
    Streamed(Result<Option<i32>, String>),
}

/// What follows.
#[derive(Debug)]
pub enum StartStep {
    Next(StartJob),
    Print(Json),
    Failed(String),
}

pub enum StartStepView {
    Next(StartView),
    Print(JsonView),
    Failed(Seq<char>),
}

impl View for StartStep {
    type V = StartStepView;

    open spec fn view(&self) -> StartStepView {
        match self {
            StartStep::Next(job) => StartStepView::Next(job@),
            StartStep::Print(json) => StartStepView::Print(json@),
            StartStep::Failed(message) => StartStepView::Failed(message@),
        }
    }
}

/// The Docker arguments that ask for an image.
pub open spec fn inspect_args(image: Seq<char>) -> Seq<Seq<char>> {
    seq!["image"@, "inspect"@, image]
}

/// The Docker arguments that fetch an image.
pub open spec fn pull_args(image: Seq<char>) -> Seq<Seq<char>> {
    seq!["pull"@, image]
}

fn inspect_args_exec(image: &str) -> (args: Vec<String>)
    ensures
        texts(args@) == inspect_args(image@),
{
    let args = vec!["image".to_string(), "inspect".to_string(), image.to_string()];
    assert(texts(args@) =~= inspect_args(image@));
    args
}

fn pull_args_exec(image: &str) -> (args: Vec<String>)
    ensures
        texts(args@) == pull_args(image@),
{
    let args = vec!["pull".to_string(), image.to_string()];
    assert(texts(args@) =~= pull_args(image@));
    args
}

/// The Docker arguments that a start runs the container with.
pub open spec fn start_args(job: StartView) -> Seq<Seq<char>> {
    run_args(job.spec, job.no_vnc, job.limits, job.options)
}

/// What a start does at its stage.
pub open spec fn start_action(job: StartView) -> StartActionView {
    match job.stage {
        StartStage::FindPort(search) => StartActionView::TryPort(job.bind_host, search.next),
        StartStage::Inspect => StartActionView::Docker(inspect_args(job.spec.image)),
        StartStage::Pull => StartActionView::StreamDocker(pull_args(job.spec.image)),
        StartStage::Run => StartActionView::Docker(start_args(job)),
    }
}

/// Whether an event can follow the action of a stage.
pub open spec fn event_fits(stage: StartStage, event: StartEvent) -> bool {
    match stage {
        StartStage::FindPort(_) => event is Port,
        StartStage::Inspect => event is Output,
        StartStage::Pull => event is Streamed,
        StartStage::Run => event is Output,
    }
}

/// The rules by which a start goes on: a port is looked for; an image that is not there is fetched;
/// then the container is run, and what is known of it is printed.
pub open spec fn start_step(job: StartView, event: StartEvent) -> StartStepView {
    match (job.stage, event) {
        (StartStage::FindPort(search), StartEvent::Port(free)) => match port_step(
            search,
            job.bind_host,
            free,
        ) {
            PortStepView::Found(port) => StartStepView::Next(
                StartView {
                    no_vnc: Some(endpoint_of(job.bind_host, job.url_host, port)),
                    stage: StartStage::Inspect,
                    ..job
                },
            ),
            PortStepView::Next(next) => StartStepView::Next(
                StartView { stage: StartStage::FindPort(next), ..job },
            ),
            PortStepView::Failed(message) => StartStepView::Failed(message),
        },
        (StartStage::Inspect, StartEvent::Output(Ok(output))) if output.succeeded() =>
            StartStepView::Next(StartView { stage: StartStage::Run, ..job }),
        (StartStage::Inspect, _) => StartStepView::Next(
            StartView { stage: StartStage::Pull, ..job },
        ),
        (StartStage::Pull, StartEvent::Streamed(Ok(code))) => if code == Some(0i32) {
            StartStepView::Next(StartView { stage: StartStage::Run, ..job })
        } else {
            StartStepView::Failed(
                docker_label(pull_args(job.spec.image)) + " failed with status "@ + code_text(code),
            )
        },
        (StartStage::Run, StartEvent::Output(Ok(output))) => if output.succeeded() {
            StartStepView::Print(
                lifecycle_json(
                    job.spec,
                    job.no_vnc,
                    job.limits,
                    job.options,
                    Some(output.stdout_text()),
                    None,
                ),
            )
        } else {
            StartStepView::Failed(command_error_text(docker_label(start_args(job)), output))
        },
        (_, StartEvent::Output(Err(message))) => StartStepView::Failed(message@),
        (_, StartEvent::Streamed(Err(message))) => StartStepView::Failed(message@),
        _ => StartStepView::Next(job),
    }
}

impl StartJob {
    /// The Docker arguments that the container is run with.
    fn docker_args(&self) -> (args: Vec<String>)
        ensures
            texts(args@) == start_args(self@),
    {
        match &self.no_vnc {
            Some(endpoint) => docker_run_args(
                &self.spec,
                Some(endpoint),
                &self.resource_limits,
                &self.runtime_options,
            ),
            None => docker_run_args(
                &self.spec,
                None,
                &self.resource_limits,
                &self.runtime_options,
            ),
        }
    }

    /// What to do next.
    pub fn action(&self) -> (action: StartAction)
        ensures
            action@ == start_action(self@),
    {
        match self.stage {
            StartStage::FindPort(search) => StartAction::TryPort(
                self.bind_host.clone(),
                search.next,
            ),
            StartStage::Inspect => StartAction::Docker(inspect_args_exec(self.spec.image.as_str())),
            StartStage::Pull => StartAction::StreamDocker(pull_args_exec(self.spec.image.as_str())),
            StartStage::Run => StartAction::Docker(self.docker_args()),
        }
    }

    fn take_port(self, search: PortSearch, free: bool) -> (step: StartStep)
        requires
            self.stage == StartStage::FindPort(search),
        ensures
            step@ == start_step(self@, StartEvent::Port(free)),
    {
        match search.advance(self.bind_host.as_str(), free) {
            PortStep::Found(port) => {
                let no_vnc = Some(
                    no_vnc_endpoint(self.bind_host.as_str(), self.url_host.as_str(), port),
                );
                StartStep::Next(StartJob { no_vnc, stage: StartStage::Inspect, ..self })
            },
            PortStep::Next(next) => StartStep::Next(
                StartJob { stage: StartStage::FindPort(next), ..self },
            ),
            PortStep::Failed(message) => StartStep::Failed(message),
        }
    }

    fn take_container(self, outcome: Result<ProcessOutput, String>) -> (step: StartStep)
        requires
            self.stage is Run,
        ensures
            step@ == start_step(self@, StartEvent::Output(outcome)),
    {
        match outcome {
            Ok(output) => if output.success() {
                let container_id = Some(output.stdout_string());
                StartStep::Print(
                    lifecycle_output(
                        &self.spec,
                        &self.no_vnc,
                        &self.resource_limits,
                        &self.runtime_options,
                        &container_id,
                        None,
                    ),
                )
            } else {
                StartStep::Failed(docker_error(self.docker_args().as_slice(), &output))
            },
            Err(message) => StartStep::Failed(message),
        }
    }

    /// Takes in what became of the action.
    pub fn advance(self, event: StartEvent) -> (step: StartStep)
        requires
            event_fits(self.stage, event),
        ensures
            step@ == start_step(self@, event),
    {
        match (self.stage, event) {
            (StartStage::FindPort(search), StartEvent::Port(free)) => self.take_port(search, free),
            (StartStage::Inspect, StartEvent::Output(outcome)) => {
                let there = match &outcome {
                    Ok(output) => output.success(),
                    Err(_) => false,
                };
                if there {
                    StartStep::Next(StartJob { stage: StartStage::Run, ..self })
                } else {
                    StartStep::Next(StartJob { stage: StartStage::Pull, ..self })
                }
            },
            (StartStage::Pull, StartEvent::Streamed(outcome)) => match outcome {
                Ok(code) => {
                    let fetched = match code {
                        Some(code) => code == 0,
                        None => false,
                    };
                    if fetched {
                        StartStep::Next(StartJob { stage: StartStage::Run, ..self })
                    } else {
                        let args = pull_args_exec(self.spec.image.as_str());
                        StartStep::Failed(docker_status_error(args.as_slice(), code))
                    }
                },
                Err(message) => StartStep::Failed(message),
            },
            (_, StartEvent::Output(outcome)) => self.take_container(outcome),
            _ => StartStep::Next(self),
        }
    }
}

/// What `start` does.
#[derive(Debug)]
pub enum StartPlan {
    /// The value is printed.
    Print(Json),
    Run(StartJob),
}

pub enum StartPlanView {
    Print(JsonView),
    Run(StartView),
}

impl View for StartPlan {
    type V = StartPlanView;

    open spec fn view(&self) -> StartPlanView {
        match self {
            StartPlan::Print(json) => StartPlanView::Print(json@),
            StartPlan::Run(job) => StartPlanView::Run(job@),
        }
    }
}

/// What `start` does, or why it cannot. A dry run tries no port.
pub open spec fn start_plan(project: Seq<char>, args: LifecycleArgs) -> Result<
    StartPlanView,
    Seq<char>,
> {
    match (spec_for(project, args.connection), options_for(args)) {
        (Err(message), _) => Err(message),
        (Ok(_), Err(message)) => Err(message),
        (Ok(spec), Ok(options)) => {
            let limits = limits_for(args);
            let no_vnc = no_vnc_for(args, options, args.novnc_port);
            if args.dry_run {
                Ok(
                    StartPlanView::Print(
                        with_docker(
                            lifecycle_json(spec, no_vnc, limits, options, None, None),
                            run_args(spec, no_vnc, limits, options),
                        ),
                    ),
                )
            } else {
                Ok(
                    StartPlanView::Run(
                        StartView {
                            spec,
                            limits,
                            options,
                            bind_host: args.novnc_bind_host@,
                            url_host: args.novnc_host@,
                            no_vnc: None,
                            stage: if wants_no_vnc(args, options) {
                                StartStage::FindPort(
                                    PortSearch {
                                        requested: args.novnc_port,
                                        next: args.novnc_port,
                                    },
                                )
                            } else {
                                StartStage::Inspect
                            },
                        },
                    ),
                )
            }
        },
    }
}

pub fn start(project: &str, args: &LifecycleArgs) -> (plan: Result<StartPlan, String>)
    ensures
        match plan {
            Ok(plan) => start_plan(project@, *args) == Ok::<StartPlanView, Seq<char>>(plan@),
            Err(message) => start_plan(project@, *args) == Err::<StartPlanView, Seq<char>>(
                message@,
            ),
        },
{
    let spec = match configured_spec(project, &args.connection) {
        Ok(spec) => spec,
        Err(error) => {
            return Err(error.message());
        },
    };
    let runtime_options = match configured_runtime_options(args) {
        Ok(options) => options,
        Err(message) => {
            return Err(message);
        },
    };
    let wanted = !args.no_novnc_publish && runtime_options.web_vnc_enabled.as_bool();
    let resource_limits = configured_resource_limits(args);
    let stage = if wanted {
        StartStage::FindPort(PortSearch::new(args.novnc_port))
    } else {
        StartStage::Inspect
    };
    let no_vnc = if args.dry_run {
        configured_no_vnc(args, &runtime_options, args.novnc_port)
    } else {
        None
    };
    let job = StartJob {
        spec,
        resource_limits,
        runtime_options,
        bind_host: args.novnc_bind_host.clone(),
        url_host: args.novnc_host.clone(),
        no_vnc,
        stage,
    };
    if args.dry_run {
        let output = lifecycle_output(
            &job.spec,
            &job.no_vnc,
            &job.resource_limits,
            &job.runtime_options,
            &None,
            None,
        );
        let docker_args = job.docker_args();
        return Ok(StartPlan::Print(with_docker_args(output, docker_args.as_slice())));
    }
    Ok(StartPlan::Run(job))
}

// Status.

/// A question to Docker about a runtime.
#[derive(Debug)]
pub struct StatusJob {
    pub spec: AndroidSpec,
    pub resource_limits: AndroidResourceLimits,
    pub runtime_options: AndroidRuntimeOptions,
    pub url_host: String,
    /// What the arguments call for.
    pub configured: Option<NoVncEndpoint>,
}

pub struct StatusView {
    pub spec: SpecView,
    pub limits: LimitsView,
    pub options: OptionsView,
    pub url_host: Seq<char>,
    pub configured: Option<NoVncView>,
}

impl View for StatusJob {
    type V = StatusView;

    open spec fn view(&self) -> StatusView {
        StatusView {
            spec: self.spec@,
            limits: self.resource_limits@,
            options: self.runtime_options@,
            url_host: self.url_host@,
            configured: endpoint_view(self.configured),
        }
    }
}

/// What `status` does.
#[derive(Debug)]
pub enum StatusPlan {
    /// The value is printed.
    Print(Json),
    /// Docker is asked.
    Ask(StatusJob),
}

pub enum StatusPlanView {
    Print(JsonView),
    Ask(StatusView),
}

impl View for StatusPlan {
    type V = StatusPlanView;

    open spec fn view(&self) -> StatusPlanView {
        match self {
            StatusPlan::Print(json) => StatusPlanView::Print(json@),
            StatusPlan::Ask(job) => StatusPlanView::Ask(job@),
        }
    }
}

/// What `status` does, or why it cannot: Docker is asked only where noVNC may be published.
pub open spec fn status_plan(project: Seq<char>, args: LifecycleArgs) -> Result<
    StatusPlanView,
    Seq<char>,
> {
    match (spec_for(project, args.connection), options_for(args)) {
        (Err(message), _) => Err(message),
        (Ok(_), Err(message)) => Err(message),
        (Ok(spec), Ok(options)) => {
            let limits = limits_for(args);
            if wants_no_vnc(args, options) {
                Ok(
                    StatusPlanView::Ask(
                        StatusView {
                            spec,
                            limits,
                            options,
                            url_host: args.novnc_host@,
                            configured: no_vnc_for(args, options, args.novnc_port),
                        },
                    ),
                )
            } else {
                Ok(
                    StatusPlanView::Print(
                        lifecycle_json(spec, None, limits, options, None, None),
                    ),
                )
            }
        },
    }
}

pub fn status(project: &str, args: &LifecycleArgs) -> (plan: Result<StatusPlan, String>)
    ensures
        match plan {
            Ok(plan) => status_plan(project@, *args) == Ok::<StatusPlanView, Seq<char>>(plan@),
            Err(message) => status_plan(project@, *args) == Err::<StatusPlanView, Seq<char>>(
                message@,
            ),
        },
{
    let spec = match configured_spec(project, &args.connection) {
        Ok(spec) => spec,
        Err(error) => {
            return Err(error.message());
        },
    };
    let runtime_options = match configured_runtime_options(args) {
        Ok(options) => options,
        Err(message) => {
            return Err(message);
        },
    };
    let resource_limits = configured_resource_limits(args);
    if args.no_novnc_publish || !runtime_options.web_vnc_enabled.as_bool() {
        return Ok(
            StatusPlan::Print(
                lifecycle_output(&spec, &None, &resource_limits, &runtime_options, &None, None),
            ),
        );
    }
    let configured = configured_no_vnc(args, &runtime_options, args.novnc_port);
    Ok(
        StatusPlan::Ask(
            StatusJob {
                spec,
                resource_limits,
                runtime_options,
                url_host: args.novnc_host.clone(),
                configured,
            },
        ),
    )
}

/// The Docker arguments that ask on which port noVNC of a container is published.
pub open spec fn port_args(container: Seq<char>) -> Seq<Seq<char>> {
    seq!["port"@, container, decimal(DEFAULT_NOVNC_CONTAINER_PORT as nat) + "/tcp"@]
}

/// The endpoint that Docker tells of, if it tells of one.
pub open spec fn told_endpoint(
    outcome: Result<ProcessOutput, String>,
    default_url_host: Seq<char>,
) -> Option<NoVncView> {
    match outcome {
        Ok(output) if output.succeeded() => match first_binding(
            lines(lossy_text(output.stdout@)),
        ) {
            Some((host, port)) => Some(
                endpoint_of(host, url_host_of(host, default_url_host), port),
            ),
            None => None,
        },
        _ => None,
    }
}

/// The endpoint that Docker tells of, given what it left, or the error with which it could not be
/// started.
pub fn docker_no_vnc_endpoint(outcome: &Result<ProcessOutput, String>, default_url_host: &str) -> (
    endpoint: Option<NoVncEndpoint>)
    ensures
        endpoint_view(endpoint) == told_endpoint(*outcome, default_url_host@),
{
    match outcome {
        Ok(output) => if output.success() {
            let text = lossy_string(output.stdout.as_slice());
            parse_docker_no_vnc_port(text.as_str(), default_url_host)
        } else {
            None
        },
        Err(_) => None,
    }
}

impl StatusJob {
    /// The Docker arguments of the question.
    pub fn docker_args(&self) -> (args: Vec<String>)
        ensures
            texts(args@) == port_args(self@.spec.android_container_name),
    {
        let port = concat2(
            decimal_exec(DEFAULT_NOVNC_CONTAINER_PORT as u64).as_str(),
            "/tcp",
        );
        let args = vec!["port".to_string(), self.spec.android_container_name.clone(), port];
        assert(texts(args@) =~= port_args(self@.spec.android_container_name));
        args
    }

    /// What to print, given what Docker left, or the error with which it could not be started:
    /// what Docker tells comes before what the arguments call for.
    pub fn finish(self, outcome: Result<ProcessOutput, String>) -> (output: Json)
        ensures
            output@ == lifecycle_json(
                self@.spec,
                match told_endpoint(outcome, self@.url_host) {
                    Some(endpoint) => Some(endpoint),
                    None => self@.configured,
                },
                self@.limits,
                self@.options,
                None,
                None,
            ),
    {
        let told = docker_no_vnc_endpoint(&outcome, self.url_host.as_str());
        let no_vnc = match told {
            Some(endpoint) => Some(endpoint),
            None => self.configured,
        };
        lifecycle_output(
            &self.spec,
            &no_vnc,
            &self.resource_limits,
            &self.runtime_options,
            &None,
            None,
        )
    }
}

// Stopping.

/// A stop on its way.
#[derive(Debug)]
pub struct StopJob {
    pub spec: AndroidSpec,
    pub resource_limits: AndroidResourceLimits,
    pub runtime_options: AndroidRuntimeOptions,
}

pub struct StopView {
    pub spec: SpecView,
    pub limits: LimitsView,
    pub options: OptionsView,
}

impl View for StopJob {
    type V = StopView;

    open spec fn view(&self) -> StopView {
        StopView {
            spec: self.spec@,
            limits: self.resource_limits@,
            options: self.runtime_options@,
        }
    }
}

/// What `stop` does.
#[derive(Debug)]
pub enum StopPlan {
    /// The value is printed.
    Print(Json),
    Run(StopJob),
}

pub enum StopPlanView {
    Print(JsonView),
    Run(StopView),
}

impl View for StopPlan {
    type V = StopPlanView;

    open spec fn view(&self) -> StopPlanView {
        match self {
            StopPlan::Print(json) => StopPlanView::Print(json@),
            StopPlan::Run(job) => StopPlanView::Run(job@),
        }
    }
}

/// What `stop` does, or why it cannot.
pub open spec fn stop_plan(project: Seq<char>, args: LifecycleArgs) -> Result<
    StopPlanView,
    Seq<char>,
> {
    match (spec_for(project, args.connection), options_for(args)) {
        (Err(message), _) => Err(message),
        (Ok(_), Err(message)) => Err(message),
        (Ok(spec), Ok(options)) => {
            let limits = limits_for(args);
            if args.dry_run {
                Ok(
                    StopPlanView::Print(
                        with_docker(
                            lifecycle_json(spec, None, limits, options, None, None),
                            stop_args(spec),
                        ),
                    ),
                )
            } else {
                Ok(StopPlanView::Run(StopView { spec, limits, options }))
            }
        },
    }
}

pub fn stop(project: &str, args: &LifecycleArgs) -> (plan: Result<StopPlan, String>)
    ensures
        match plan {
            Ok(plan) => stop_plan(project@, *args) == Ok::<StopPlanView, Seq<char>>(plan@),
            Err(message) => stop_plan(project@, *args) == Err::<StopPlanView, Seq<char>>(message@),
        },
{
    let spec = match configured_spec(project, &args.connection) {
        Ok(spec) => spec,
        Err(error) => {
            return Err(error.message());
        },
    };
    let runtime_options = match configured_runtime_options(args) {
        Ok(options) => options,
        Err(message) => {
            return Err(message);
        },
    };
    let resource_limits = configured_resource_limits(args);
    if args.dry_run {
        let output = lifecycle_output(
            &spec,
            &None,
            &resource_limits,
            &runtime_options,
            &None,
            None,
        );
        let docker_args = docker_stop_args(&spec);
        return Ok(StopPlan::Print(with_docker_args(output, docker_args.as_slice())));
    }
    Ok(StopPlan::Run(StopJob { spec, resource_limits, runtime_options }))
}

impl StopJob {
    /// The Docker arguments that remove the container.
    pub fn docker_args(&self) -> (args: Vec<String>)
        ensures
            texts(args@) == stop_args(self@.spec),
    {
        docker_stop_args(&self.spec)
    }

    /// What to print, or the error to end with, given what Docker left.
    pub fn finish(self, outcome: Result<ProcessOutput, String>) -> (output: Result<Json, String>)
        ensures
            match outcome {
                Ok(left) if left.succeeded() => output matches Ok(json) && json@ == lifecycle_json(
                    self@.spec,
                    None,
                    self@.limits,
                    self@.options,
                    None,
                    Some(true),
                ),
                Ok(left) => output matches Err(message) && message@ == command_error_text(
                    docker_label(stop_args(self@.spec)),
                    left,
                ),
                Err(error) => output matches Err(message) && message@ == error@,
            },
    {
        match outcome {
            Ok(left) => if left.success() {
                Ok(
                    lifecycle_output(
                        &self.spec,
                        &None,
                        &self.resource_limits,
                        &self.runtime_options,
                        &None,
                        Some(true),
                    ),
                )
            } else {
                Err(docker_error(self.docker_args().as_slice(), &left))
            },
            Err(error) => Err(error),
        }
    }
}

// ADB.

/// The fields that tell where an ADB command goes.
pub open spec fn adb_fields(spec: SpecView, mode: AdbMode) -> Map<Seq<char>, JsonView> {
    map![
        "projectId"@ => JsonView::Text(spec.project_id),
        "androidContainerName"@ => JsonView::Text(spec.android_container_name),
        "adbEndpoint"@ => JsonView::Text(spec.adb_endpoint),
        "adbMode"@ => JsonView::Text(mode_text(mode)),
    ]
}

fn put_adb_fields(spec: &AndroidSpec, mode: AdbMode) -> (fields: Vec<(String, Json)>)
    ensures
        object_view(fields@) == adb_fields(spec@, mode),
{
    let mut fields = no_fields();
    put(&mut fields, "projectId", text_json(spec.project_id.as_str()));
    put(&mut fields, "androidContainerName", text_json(spec.android_container_name.as_str()));
    put(&mut fields, "adbEndpoint", text_json(spec.adb_endpoint.as_str()));
    put(&mut fields, "adbMode", text_json(mode.as_str()));
    fields
}

/// What a dry run of `adb` prints.
pub open spec fn adb_proxy_json(spec: SpecView, mode: AdbMode, args: Seq<Seq<char>>) -> JsonView {
    JsonView::Object(
        adb_fields(spec, mode).insert(
            "host"@,
            texts_view(shell_command(host_proxy_line(spec.adb_endpoint, args))),
        ).insert(
            "container"@,
            texts_view(seq!["docker"@] + container_proxy(spec.android_container_name, args)),
        ),
    )
}

pub fn adb_proxy_dry_run_output(spec: &AndroidSpec, mode: AdbMode, adb_args: &[String]) -> (output:
    Json)
    ensures
        output@ == adb_proxy_json(spec@, mode, texts(adb_args@)),
{
    let mut fields = put_adb_fields(spec, mode);
    let host = host_adb_proxy_command(spec.adb_endpoint.as_str(), adb_args);
    put(&mut fields, "host", texts_json(host.as_slice()));
    let container = container_adb_proxy_command(spec.android_container_name.as_str(), adb_args);
    put(&mut fields, "container", texts_json(container.as_slice()));
    Json::Object(fields)
}

/// What a dry run of a command for the device of the project prints.
pub open spec fn targeted_adb_json(spec: SpecView, mode: AdbMode, args: Seq<Seq<char>>) -> JsonView {
    JsonView::Object(
        adb_fields(spec, mode).insert(
            "host"@,
            texts_view(shell_command(host_targeted_line(spec.adb_endpoint, args))),
        ).insert(
            "container"@,
            texts_view(seq!["docker"@] + container_targeted(spec.android_container_name, args)),
        ),
    )
}

pub fn targeted_adb_dry_run_output(spec: &AndroidSpec, mode: AdbMode, adb_args: &[String]) -> (
    output: Json)
    ensures
        output@ == targeted_adb_json(spec@, mode, texts(adb_args@)),
{
    let mut fields = put_adb_fields(spec, mode);
    let host = host_targeted_adb_command(spec.adb_endpoint.as_str(), adb_args);
    put(&mut fields, "host", texts_json(host.as_slice()));
    let container = container_targeted_adb_command(spec.android_container_name.as_str(), adb_args);
    put(&mut fields, "container", texts_json(container.as_slice()));
    Json::Object(fields)
}

/// What a dry run of `install-apk` prints.
pub open spec fn install_apk_json(spec: SpecView, mode: AdbMode, apk_path: Seq<char>) -> JsonView {
    JsonView::Object(
        adb_fields(spec, mode).insert(
            "host"@,
            texts_view(
                shell_command(
                    host_targeted_line(spec.adb_endpoint, seq!["install"@, apk_path]),
                ),
            ),
        ).insert(
            "containerCopy"@,
            texts_view(copy_args(apk_path, spec.android_container_name)),
        ).insert(
            "container"@,
            texts_view(
                seq!["docker"@] + container_targeted(
                    spec.android_container_name,
                    seq!["install"@, CONTAINER_INSTALL_APK_PATH@],
                ),
            ),
        ),
    )
}

pub fn install_apk_dry_run_output(spec: &AndroidSpec, mode: AdbMode, apk_path: &str) -> (output:
    Json)
    ensures
        output@ == install_apk_json(spec@, mode, apk_path@),
{
    let outside = vec!["install".to_string(), apk_path.to_string()];
    let inside = vec!["install".to_string(), CONTAINER_INSTALL_APK_PATH.to_string()];
    assert(texts(outside@) =~= seq!["install"@, apk_path@]);
    assert(texts(inside@) =~= seq!["install"@, CONTAINER_INSTALL_APK_PATH@]);
    let mut fields = put_adb_fields(spec, mode);
    let host = host_targeted_adb_command(spec.adb_endpoint.as_str(), outside.as_slice());
    put(&mut fields, "host", texts_json(host.as_slice()));
    let copy = docker_cp_args(apk_path, spec.android_container_name.as_str());
    put(&mut fields, "containerCopy", texts_json(copy.as_slice()));
    let container = container_targeted_adb_command(
        spec.android_container_name.as_str(),
        inside.as_slice(),
    );
    put(&mut fields, "container", texts_json(container.as_slice()));
    Json::Object(fields)
}

/// What an ADB command does.
#[derive(Debug)]
pub enum AdbPlan {
    /// The value is printed.
    Print(Json),
    Run(AdbJob),
}

pub enum AdbPlanView {
    Print(JsonView),
    Run(JobView),
}

impl View for AdbPlan {
    type V = AdbPlanView;

    open spec fn view(&self) -> AdbPlanView {
        match self {
            AdbPlan::Print(json) => AdbPlanView::Print(json@),
            AdbPlan::Run(job) => AdbPlanView::Run(job@),
        }
    }
}

/// What `adb` does, or why it cannot.
pub open spec fn adb_plan(project: Seq<char>, args: AdbArgs) -> Result<AdbPlanView, Seq<char>> {
    match spec_for(project, args.connection) {
        Err(message) => Err(message),
        Ok(spec) => Ok(
            if args.dry_run {
                AdbPlanView::Print(adb_proxy_json(spec, args.adb_mode, texts(args.args@)))
            } else {
                AdbPlanView::Run(proxy_job(spec, args.adb_mode, texts(args.args@)))
            },
        ),
    }
}

pub fn adb(project: &str, args: &AdbArgs) -> (plan: Result<AdbPlan, String>)
    ensures
        match plan {
            Ok(plan) => adb_plan(project@, *args) == Ok::<AdbPlanView, Seq<char>>(plan@),
            Err(message) => adb_plan(project@, *args) == Err::<AdbPlanView, Seq<char>>(message@),
        },
{
    let spec = match configured_spec(project, &args.connection) {
        Ok(spec) => spec,
        Err(error) => {
            return Err(error.message());
        },
    };
    let adb_args = args.args.as_slice();
    if args.dry_run {
        return Ok(AdbPlan::Print(adb_proxy_dry_run_output(&spec, args.adb_mode, adb_args)));
    }
    Ok(AdbPlan::Run(run_adb_proxy_command(&spec, args.adb_mode, adb_args)))
}

/// What `install-apk` does, or why it cannot.
pub open spec fn install_plan(project: Seq<char>, args: InstallApkArgs) -> Result<
    AdbPlanView,
    Seq<char>,
> {
    match spec_for(project, args.connection) {
        Err(message) => Err(message),
        Ok(spec) => Ok(
            if args.dry_run {
                AdbPlanView::Print(install_apk_json(spec, args.adb_mode, args.path@))
            } else {
                AdbPlanView::Run(install_job(spec, args.adb_mode, args.path@))
            },
        ),
    }
}

pub fn install_apk(project: &str, args: &InstallApkArgs) -> (plan: Result<AdbPlan, String>)
    ensures
        match plan {
            Ok(plan) => install_plan(project@, *args) == Ok::<AdbPlanView, Seq<char>>(plan@),
            Err(message) => install_plan(project@, *args) == Err::<AdbPlanView, Seq<char>>(
                message@,
            ),
        },
{
    let spec = match configured_spec(project, &args.connection) {
        Ok(spec) => spec,
        Err(error) => {
            return Err(error.message());
        },
    };
    let path = args.path.as_str();
    if args.dry_run {
        return Ok(AdbPlan::Print(install_apk_dry_run_output(&spec, args.adb_mode, path)));
    }
    Ok(AdbPlan::Run(run_install_apk(&spec, args.adb_mode, path)))
}

/// What `launch-app` does, or why it cannot.
pub open spec fn launch_plan(project: Seq<char>, args: LaunchAppArgs) -> Result<
    AdbPlanView,
    Seq<char>,
> {
    let adb_args = launch_args(args.package_name@, opt_text(args.activity));
    match spec_for(project, args.connection) {
        Err(message) => Err(message),
        Ok(spec) => Ok(
            if args.dry_run {
                AdbPlanView::Print(targeted_adb_json(spec, args.adb_mode, adb_args))
            } else {
                AdbPlanView::Run(targeted_job(spec, args.adb_mode, adb_args))
            },
        ),
    }
}

pub fn launch_app(project: &str, args: &LaunchAppArgs) -> (plan: Result<AdbPlan, String>)
    ensures
        match plan {
            Ok(plan) => launch_plan(project@, *args) == Ok::<AdbPlanView, Seq<char>>(plan@),
            Err(message) => launch_plan(project@, *args) == Err::<AdbPlanView, Seq<char>>(message@),
        },
{
    let spec = match configured_spec(project, &args.connection) {
        Ok(spec) => spec,
        Err(error) => {
            return Err(error.message());
        },
    };
    let package_name = args.package_name.as_str();
    let adb_args = match &args.activity {
        Some(activity) => launch_app_adb_args(package_name, Some(activity.as_str())),
        None => launch_app_adb_args(package_name, None),
    };
    if args.dry_run {
        return Ok(
            AdbPlan::Print(
                targeted_adb_dry_run_output(&spec, args.adb_mode, adb_args.as_slice()),
            ),
        );
    }
    Ok(AdbPlan::Run(run_targeted_adb_command(&spec, args.adb_mode, adb_args.as_slice())))
}

/// The error with which a command ends after its output was written, if its ADB failed. `label`
/// says which command it is.
pub fn adb_failure(label: &str, output: &ProcessOutput) -> (message: Option<String>)
    ensures
        opt_text(message) == (if output.succeeded() {
            None
        } else {
            Some(command_error_text(label@, *output))
        }),
{
    if output.success() {
        None
    } else {
        Some(command_error(label, output))
    }
}

// Laws.

/// A command with an endpoint that is not safe does nothing but end with an error, whatever else
/// it is told.
pub proof fn unsafe_endpoints_are_refused(
    project: Seq<char>,
    lifecycle: LifecycleArgs,
    adb: AdbArgs,
    install: InstallApkArgs,
    launch: LaunchAppArgs,
)
    ensures
        !is_safe_endpoint(lifecycle.connection.endpoint@) ==> start_plan(project, lifecycle) is Err
            && status_plan(project, lifecycle) is Err && stop_plan(project, lifecycle) is Err,
        !is_safe_endpoint(adb.connection.endpoint@) ==> adb_plan(project, adb) is Err,
        !is_safe_endpoint(install.connection.endpoint@) ==> install_plan(project, install) is Err,
        !is_safe_endpoint(launch.connection.endpoint@) ==> launch_plan(project, launch) is Err,
{
}

/// A dry run runs nothing: it prints, or ends with an error.
pub proof fn dry_runs_run_nothing(
    project: Seq<char>,
    lifecycle: LifecycleArgs,
    adb: AdbArgs,
    install: InstallApkArgs,
    launch: LaunchAppArgs,
)
    ensures
        lifecycle.dry_run ==> (start_plan(project, lifecycle) matches Ok(plan) ==> plan is Print),
        lifecycle.dry_run ==> (stop_plan(project, lifecycle) matches Ok(plan) ==> plan is Print),
        adb.dry_run ==> (adb_plan(project, adb) matches Ok(plan) ==> plan is Print),
        install.dry_run ==> (install_plan(project, install) matches Ok(plan) ==> plan is Print),
        launch.dry_run ==> (launch_plan(project, launch) matches Ok(plan) ==> plan is Print),
{
}

/// What a dry run of `start` prints as its Docker arguments is what the start calls Docker with
/// that finds the requested port free.
pub proof fn dry_runs_show_what_is_run(
    project: Seq<char>,
    dry: LifecycleArgs,
    wet: LifecycleArgs,
)
    requires
        dry.dry_run,
        wet == (LifecycleArgs { dry_run: false, ..dry }),
        start_plan(project, dry) is Ok,
    ensures
        start_plan(project, wet) matches Ok(StartPlanView::Run(job)) && ({
            let ready = match job.stage {
                StartStage::FindPort(_) => start_step(job, StartEvent::Port(true))->Next_0,
                _ => job,
            };
            let running = StartView { stage: StartStage::Run, ..ready };
            &&& ready.stage is Inspect
            &&& start_plan(project, dry)->Ok_0 matches StartPlanView::Print(
                JsonView::Object(fields),
            ) && fields["docker"@] == texts_view(start_args(running))
        }),
{
    reveal_strlit("docker");
}

/// How many actions a start may still take.
pub open spec fn actions_left(stage: StartStage) -> int {
    match stage {
        StartStage::FindPort(search) => 4 + u16::MAX - search.next,
        StartStage::Inspect => 3,
        StartStage::Pull => 2,
        StartStage::Run => 1,
    }
}

/// Each event brings a start nearer to its end, and a container is run only after Docker said that
/// it has the image, or fetched it.
pub proof fn starts_end(job: StartView, event: StartEvent)
    requires
        event_fits(job.stage, event),
    ensures
        start_step(job, event) matches StartStepView::Next(next) ==> actions_left(next.stage)
            < actions_left(job.stage),
        start_step(job, event) matches StartStepView::Next(next) ==> (next.stage is Run ==> (
        event matches StartEvent::Output(Ok(output)) && output.succeeded()) || event
            == StartEvent::Streamed(Ok(Some(0i32)))),
{
}

proof fn lemma_printed_names()
    ensures
        "projectId"@.len() == 9,
        "projectContainerName"@.len() == 20 && "projectContainerName"@[0] == 'p',
        "androidContainerName"@.len() == 20 && "androidContainerName"@[0] == 'a',
        "androidVolumeName"@.len() == 17,
        "dockerNetwork"@.len() == 13 && "dockerNetwork"@[0] == 'd',
        "adbEndpoint"@.len() == 11 && "adbEndpoint"@[0] == 'a',
        "image"@.len() == 5,
        "resourceLimits"@.len() == 14 && "resourceLimits"@[0] == 'r',
        "runtime"@.len() == 7 && "runtime"@[1] == 'u',
        "noVncPublished"@.len() == 14 && "noVncPublished"@[0] == 'n',
        "noVncUrl"@.len() == 8,
        "noVncBindHost"@.len() == 13 && "noVncBindHost"@[0] == 'n',
        "projectId"@[0] == 'p',
        "noVncHost"@.len() == 9 && "noVncHost"@[0] == 'n' && "noVncHost"@[5] == 'H',
        "noVncPort"@.len() == 9 && "noVncPort"@[0] == 'n' && "noVncPort"@[5] == 'P',
        "noVncContainerPort"@.len() == 18,
        "containerId"@.len() == 11 && "containerId"@[0] == 'c',
        "removed"@.len() == 7 && "removed"@[1] == 'e',
        "docker"@.len() == 6,
{
    reveal_strlit("projectId");
    reveal_strlit("projectContainerName");
    reveal_strlit("androidContainerName");
    reveal_strlit("androidVolumeName");
    reveal_strlit("dockerNetwork");
    reveal_strlit("adbEndpoint");
    reveal_strlit("image");
    reveal_strlit("resourceLimits");
    reveal_strlit("runtime");
    reveal_strlit("noVncPublished");
    reveal_strlit("noVncUrl");
    reveal_strlit("noVncBindHost");
    reveal_strlit("noVncHost");
    reveal_strlit("noVncPort");
    reveal_strlit("noVncContainerPort");
    reveal_strlit("containerId");
    reveal_strlit("removed");
    reveal_strlit("docker");
}

/// What is printed tells of the spec, the limits, the options and noVNC each under its own name,
/// and null stands for what there is not. The Docker arguments that are added to it take away
/// nothing of that.
pub proof fn printed_values_go_by_their_names(
    spec: SpecView,
    no_vnc: Option<NoVncView>,
    limits: LimitsView,
    options: OptionsView,
    container_id: Option<Seq<char>>,
    removed: Option<bool>,
    args: Seq<Seq<char>>,
    name: Seq<char>,
)
    ensures
        ({
            let json = lifecycle_json(spec, no_vnc, limits, options, container_id, removed);
            let text = |name: Seq<char>, value: Seq<char>| field_of(json, name) == Some(
                JsonView::Text(value),
            );
            &&& text("projectId"@, spec.project_id)
            &&& text("projectContainerName"@, spec.project_container_name)
            &&& text("androidContainerName"@, spec.android_container_name)
            &&& text("androidVolumeName"@, spec.android_volume_name)
            &&& text("dockerNetwork"@, spec.docker_network)
            &&& text("adbEndpoint"@, spec.adb_endpoint)
            &&& text("image"@, spec.image)
            &&& field_of(json, "resourceLimits"@) == Some(limits_json(limits))
            &&& field_of(json, "runtime"@) == Some(options_json(options))
            &&& container_id matches Some(id) ==> text("containerId"@, id)
            &&& container_id is None ==> field_of(json, "containerId"@) == Some(JsonView::Null)
            &&& removed matches Some(flag) ==> field_of(json, "removed"@) == Some(
                JsonView::Bool(flag),
            )
            &&& removed is None ==> field_of(json, "removed"@) == Some(JsonView::Null)
        }),
        ({
            let json = lifecycle_json(spec, no_vnc, limits, options, container_id, removed);
            &&& field_of(with_docker(json, args), "docker"@) == Some(texts_view(args))
            &&& name != "docker"@ ==> field_of(with_docker(json, args), name) == field_of(json, name)
        }),
{
    lemma_printed_names();
}

/// What is printed of noVNC is its endpoint, each part under its own name, or null for each where
/// it is not published.
pub proof fn printed_endpoints_go_by_their_names(
    spec: SpecView,
    limits: LimitsView,
    options: OptionsView,
    container_id: Option<Seq<char>>,
    removed: Option<bool>,
    endpoint: NoVncView,
)
    ensures
        ({
            let json = lifecycle_json(spec, Some(endpoint), limits, options, container_id, removed);
            &&& field_of(json, "noVncPublished"@) == Some(JsonView::Bool(true))
            &&& field_of(json, "noVncUrl"@) == Some(JsonView::Text(endpoint.url))
            &&& field_of(json, "noVncBindHost"@) == Some(JsonView::Text(endpoint.bind_host))
            &&& field_of(json, "noVncHost"@) == Some(JsonView::Text(endpoint.url_host))
            &&& field_of(json, "noVncPort"@) == Some(JsonView::Integer(endpoint.host_port as int))
            &&& field_of(json, "noVncContainerPort"@) == Some(
                JsonView::Integer(endpoint.container_port as int),
            )
        }),
        ({
            let json = lifecycle_json(spec, None, limits, options, container_id, removed);
            &&& field_of(json, "noVncPublished"@) == Some(JsonView::Bool(false))
            &&& field_of(json, "noVncUrl"@) == Some(JsonView::Null)
            &&& field_of(json, "noVncBindHost"@) == Some(JsonView::Null)
            &&& field_of(json, "noVncHost"@) == Some(JsonView::Null)
            &&& field_of(json, "noVncPort"@) == Some(JsonView::Null)
            &&& field_of(json, "noVncContainerPort"@) == Some(JsonView::Null)
        }),
{
    lemma_printed_names();
}

/// The limits and the options are printed each under its own name.
pub proof fn printed_settings_go_by_their_names(limits: LimitsView, options: OptionsView)
    ensures
        field_of(limits_json(limits), "memory"@) == Some(JsonView::Text(limits.memory)),
        field_of(limits_json(limits), "memorySwap"@) == Some(JsonView::Text(limits.memory_swap)),
        field_of(limits_json(limits), "cpus"@) == Some(JsonView::Text(limits.cpus)),
        field_of(options_json(options), "profile"@) == Some(JsonView::Text(options.profile)),
        field_of(options_json(options), "emulatorHeadless"@) == Some(
            JsonView::Bool(options.emulator_headless),
        ),
        field_of(options_json(options), "appiumEnabled"@) == Some(
            JsonView::Bool(options.appium_enabled),
        ),
        field_of(options_json(options), "webLogEnabled"@) == Some(
            JsonView::Bool(options.web_log_enabled),
        ),
        field_of(options_json(options), "webVncEnabled"@) == Some(
            JsonView::Bool(options.web_vnc_enabled),
        ),
        field_of(options_json(options), "skinEnabled"@) == Some(
            JsonView::Bool(options.skin_enabled),
        ),
        field_of(options_json(options), "emulatorAdditionalArgs"@) == Some(
            JsonView::Text(options.emulator_additional_args),
        ),
{
    reveal_strlit("memory");
    reveal_strlit("memorySwap");
    reveal_strlit("cpus");
    assert("memory"@.len() == 6 && "memorySwap"@.len() == 10 && "cpus"@.len() == 4);
    reveal_strlit("profile");
    reveal_strlit("emulatorHeadless");
    reveal_strlit("appiumEnabled");
    reveal_strlit("webLogEnabled");
    reveal_strlit("webVncEnabled");
    reveal_strlit("skinEnabled");
    reveal_strlit("emulatorAdditionalArgs");
    assert("profile"@.len() == 7 && "emulatorHeadless"@.len() == 16 && "appiumEnabled"@.len() == 13);
    assert("webLogEnabled"@.len() == 13 && "webVncEnabled"@.len() == 13 && "skinEnabled"@.len() == 11);
    assert("emulatorAdditionalArgs"@.len() == 22);
    assert("appiumEnabled"@[0] == 'a' && "webLogEnabled"@[0] == 'w' && "webVncEnabled"@[0] == 'w');
    assert("webLogEnabled"@[3] == 'L' && "webVncEnabled"@[3] == 'V');
}

/// A project and its arguments call for the names of the project, and for the network, the
/// endpoint and the image of the arguments.
pub proof fn specs_are_those_of_the_arguments(project: Seq<char>, args: AndroidConnectionArgs)
    ensures
        spec_for(project, args) is Ok <==> is_safe_endpoint(args.endpoint@),
        spec_for(project, args) matches Ok(spec) ==> {
            &&& spec.project_id == normalized(project)
            &&& spec.project_container_name == normalized(project)
            &&& spec.android_container_name == container_name(project)
            &&& spec.android_volume_name == volume_name(project)
            &&& spec.docker_network == args.network@
            &&& spec.adb_endpoint == args.endpoint@
            &&& spec.image == args.image@
        },
        spec_for(project, args) matches Err(message) ==> message == endpoint_error_text(
            args.endpoint@,
        ),
{
}

/// Whether Docker is told to run the container of a project with the limits of the arguments: its
/// name, its network and each limit stand behind their options.
pub open spec fn runs_with(docker: Seq<Seq<char>>, project: Seq<char>, args: LifecycleArgs) -> bool {
    &&& docker.len() > 13
    &&& docker[0] == "run"@
    &&& docker[2] == "--name"@ && docker[3] == container_name(project)
    &&& docker[5] == "--network"@ && docker[6] == args.connection.network@
    &&& docker[7] == "--memory"@ && docker[8] == args.memory@
    &&& docker[9] == "--memory-swap"@ && docker[10] == args.memory_swap@
    &&& docker[11] == "--cpus"@ && docker[12] == args.cpus@
    &&& docker[docker.len() - 4] == "--volume"@
    &&& docker[docker.len() - 3] == volume_name(project) + ":/root/.android"@
    &&& docker[docker.len() - 2] == args.connection.image@
}

/// Whether what is printed tells the limits of the arguments.
pub open spec fn tells_limits(json: JsonView, args: LifecycleArgs) -> bool {
    &&& field_of(json, "resourceLimits"@) matches Some(limits)
    &&& field_of(limits, "memory"@) == Some(JsonView::Text(args.memory@))
    &&& field_of(limits, "memorySwap"@) == Some(JsonView::Text(args.memory_swap@))
    &&& field_of(limits, "cpus"@) == Some(JsonView::Text(args.cpus@))
}

/// Whether what is printed tells of a project and of the profile of the arguments.
pub open spec fn tells_project(json: JsonView, project: Seq<char>, args: LifecycleArgs) -> bool {
    let text = |name: Seq<char>, value: Seq<char>| field_of(json, name) == Some(
        JsonView::Text(value),
    );
    &&& text("projectId"@, normalized(project))
    &&& text("androidContainerName"@, container_name(project))
    &&& text("androidVolumeName"@, volume_name(project))
    &&& text("dockerNetwork"@, args.connection.network@)
    &&& text("adbEndpoint"@, args.connection.endpoint@)
    &&& text("image"@, args.connection.image@)
    &&& field_of(json, "runtime"@) matches Some(runtime)
    &&& field_of(runtime, "profile"@) == Some(JsonView::Text(args.runtime_profile@))
}

/// Whether a start on its way is for a project and its arguments.
pub open spec fn is_start_of(job: StartView, project: Seq<char>, args: LifecycleArgs) -> bool {
    &&& spec_for(project, args.connection) == Ok::<SpecView, Seq<char>>(job.spec)
    &&& options_for(args) == Ok::<OptionsView, Seq<char>>(job.options)
    &&& job.limits.memory == args.memory@
    &&& job.limits.memory_swap == args.memory_swap@
    &&& job.limits.cpus == args.cpus@
    &&& job.bind_host == args.novnc_bind_host@
    &&& job.url_host == args.novnc_host@
}

proof fn lemma_runs_with(job: StartView, project: Seq<char>, args: LifecycleArgs)
    requires
        is_start_of(job, project, args),
    ensures
        runs_with(start_args(job), project, args),
{
    let docker = start_args(job);
    let vnc = published(job.no_vnc, job.options) is Some;
    let front = base_args(job.spec, job.limits) + publish_args(published(job.no_vnc, job.options))
        + environment_args(vnc, job.options);
    assert(docker == front + image_args(job.spec, vnc));
    assert forall|i: int| 0 <= i < 13 implies docker[i] == base_args(job.spec, job.limits)[i] by {}
    let n = docker.len();
    assert(n == front.len() + 4);
    assert(docker[n - 4] == image_args(job.spec, vnc)[0]);
    assert(docker[n - 3] == image_args(job.spec, vnc)[1]);
    assert(docker[n - 2] == image_args(job.spec, vnc)[2]);
}

proof fn lemma_tells(
    spec: SpecView,
    no_vnc: Option<NoVncView>,
    options: OptionsView,
    container_id: Option<Seq<char>>,
    removed: Option<bool>,
    docker: Seq<Seq<char>>,
    project: Seq<char>,
    args: LifecycleArgs,
)
    requires
        spec_for(project, args.connection) == Ok::<SpecView, Seq<char>>(spec),
        options_for(args) == Ok::<OptionsView, Seq<char>>(options),
    ensures
        ({
            let limits = LimitsView {
                memory: args.memory@,
                memory_swap: args.memory_swap@,
                cpus: args.cpus@,
            };
            let json = lifecycle_json(spec, no_vnc, limits, options, container_id, removed);
            &&& tells_limits(json, args) && tells_limits(with_docker(json, docker), args)
            &&& tells_project(json, project, args)
            &&& tells_project(with_docker(json, docker), project, args)
            &&& field_of(with_docker(json, docker), "docker"@) == Some(texts_view(docker))
        }),
{
    let limits = LimitsView {
        memory: args.memory@,
        memory_swap: args.memory_swap@,
        cpus: args.cpus@,
    };
    lemma_printed_names();
    specs_are_those_of_the_arguments(project, args.connection);
    printed_settings_go_by_their_names(limits, options);
    profiles_are_what_they_are_for(args.runtime_profile@);
    printed_values_go_by_their_names(
        spec,
        no_vnc,
        limits,
        options,
        container_id,
        removed,
        docker,
        Seq::empty(),
    );
}

/// A start is for its project and its arguments from the beginning, and a dry run prints the
/// Docker arguments with the limits of the arguments and tells the same limits.
pub proof fn starts_keep_to_the_limits(project: Seq<char>, args: LifecycleArgs)
    ensures
        start_plan(project, args) is Ok <==> is_safe_endpoint(args.connection.endpoint@)
            && options_of(args.runtime_profile@) is Some,
        start_plan(project, args) matches Ok(StartPlanView::Run(job)) ==> !args.dry_run
            && is_start_of(job, project, args),
        start_plan(project, args) matches Ok(StartPlanView::Print(json)) ==> args.dry_run
            && tells_limits(json, args) && tells_project(json, project, args) && exists|
            docker: Seq<Seq<char>>,
        |
            #[trigger] texts_view(docker) == field_of(json, "docker"@)->0 && runs_with(
                docker,
                project,
                args,
            ),
{
    if let Ok(StartPlanView::Print(json)) = start_plan(project, args) {
        let spec = spec_for(project, args.connection)->Ok_0;
        let options = options_for(args)->Ok_0;
        let no_vnc = no_vnc_for(args, options, args.novnc_port);
        let job = StartView {
            spec,
            limits: limits_for(args),
            options,
            bind_host: args.novnc_bind_host@,
            url_host: args.novnc_host@,
            no_vnc,
            stage: StartStage::Run,
        };
        lemma_runs_with(job, project, args);
        lemma_tells(spec, no_vnc, options, None, None, start_args(job), project, args);
        assert(texts_view(start_args(job)) == field_of(json, "docker"@)->0);
    }
}

/// A start stays for its project and its arguments whatever comes. It calls Docker to ask for the
/// image of the arguments, to fetch it, or to run the container with the limits of the arguments,
/// and what it prints in the end tells those limits and the container that Docker named.
pub proof fn starts_stay_for_their_project(
    job: StartView,
    event: StartEvent,
    project: Seq<char>,
    args: LifecycleArgs,
)
    requires
        is_start_of(job, project, args),
    ensures
        start_step(job, event) matches StartStepView::Next(next) ==> is_start_of(
            next,
            project,
            args,
        ),
        start_step(job, event) matches StartStepView::Print(json) ==> tells_limits(json, args)
            && tells_project(json, project, args) && job.stage is Run && (
        event matches StartEvent::Output(Ok(output)) && output.code == Some(0i32) && field_of(
            json,
            "containerId"@,
        ) == Some(JsonView::Text(trim(lossy_text(output.stdout@))))),
        job.stage is Run ==> (start_action(job) matches StartActionView::Docker(docker)
            && runs_with(docker, project, args)),
        job.stage is Inspect ==> start_action(job) == StartActionView::Docker(
            seq!["image"@, "inspect"@, args.connection.image@],
        ),
        job.stage is Pull ==> start_action(job) == StartActionView::StreamDocker(
            seq!["pull"@, args.connection.image@],
        ),
        job.stage matches StartStage::FindPort(search) ==> start_action(job)
            == StartActionView::TryPort(args.novnc_bind_host@, search.next),
{
    lemma_runs_with(job, project, args);
    lemma_printed_names();
    if let StartEvent::Output(Ok(output)) = event {
        lemma_tells(
            job.spec,
            job.no_vnc,
            job.options,
            Some(output.stdout_text()),
            None,
            Seq::empty(),
            project,
            args,
        );
    }
}

/// An image that Docker has is not fetched, and one that it has not is. The container is run next,
/// and a start fails only where no port is free, where the image cannot be fetched, or where the
/// container cannot be run, and then with a report of that.
pub proof fn starts_fetch_what_is_missing(job: StartView, output: ProcessOutput, message: String)
    ensures
        ({
            let good = output.code == Some(0i32);
            let told = start_step(job, StartEvent::Output(Ok(output)));
            let not_told = start_step(job, StartEvent::Output(Err(message)));
            let fetched = start_step(job, StartEvent::Streamed(Ok(output.code)));
            let not_fetched = start_step(job, StartEvent::Streamed(Err(message)));
            let to_run = StartStepView::Next(StartView { stage: StartStage::Run, ..job });
            let to_pull = StartStepView::Next(StartView { stage: StartStage::Pull, ..job });
            &&& job.stage is Inspect && good ==> told == to_run
            &&& job.stage is Inspect && !good ==> told == to_pull
            &&& job.stage is Inspect ==> not_told == to_pull
            &&& job.stage is Pull && good ==> fetched == to_run
            &&& job.stage is Pull && !good ==> fetched == StartStepView::Failed(
                "docker pull "@ + job.spec.image + " failed with status "@ + code_text(output.code),
            )
            &&& job.stage is Pull ==> not_fetched == StartStepView::Failed(message@)
            &&& job.stage is Run && good ==> told is Print
            &&& job.stage is Run && !good ==> told == StartStepView::Failed(
                command_error_text(docker_label(start_args(job)), output),
            )
            &&& job.stage is Run ==> not_told == StartStepView::Failed(message@)
        }),
{
    let args = pull_args(job.spec.image);
    reveal_strlit("docker ");
    reveal_strlit("pull");
    reveal_strlit(" ");
    reveal_strlit("docker pull ");
    assert(args.drop_last() =~= seq!["pull"@]);
    assert(join(args.drop_last(), " "@) == "pull"@);
    assert(join(args, " "@) == "pull"@ + " "@ + job.spec.image);
    assert("docker "@ + ("pull"@ + " "@ + job.spec.image) =~= "docker pull "@ + job.spec.image);
}

/// noVNC is published on the first port that is free, at the hosts of the arguments, where the
/// arguments do not forbid it and the profile has it; and else it is not. A dry run shows it on
/// the port that was asked for, and tries none.
pub proof fn ports_are_published_as_they_are_found(
    project: Seq<char>,
    args: LifecycleArgs,
    job: StartView,
    search: PortSearch,
    free: bool,
)
    requires
        job.stage == StartStage::FindPort(search),
    ensures
        free ==> (start_step(job, StartEvent::Port(free)) matches StartStepView::Next(next)
            && next.stage is Inspect && next.no_vnc == Some(
            endpoint_of(job.bind_host, job.url_host, search.next),
        )),
        !free && search.next < last_port(search.requested) ==> start_step(
            job,
            StartEvent::Port(free),
        ) == StartStepView::Next(
            StartView {
                stage: StartStage::FindPort(
                    PortSearch { requested: search.requested, next: (search.next + 1) as u16 },
                ),
                ..job
            },
        ),
        !free && search.next >= last_port(search.requested) ==> start_step(
            job,
            StartEvent::Port(free),
        ) == StartStepView::Failed(
            "no free noVNC port on "@ + job.bind_host + " in range "@ + decimal(
                search.requested as nat,
            ) + "..="@ + decimal(last_port(search.requested) as nat),
        ),
        last_port(search.requested) == (if search.requested + 99 <= 65535 {
            search.requested + 99
        } else {
            65535
        }),
        start_plan(project, args) matches Ok(StartPlanView::Run(begun)) ==> {
            let options = options_of(args.runtime_profile@)->0;
            &&& begun.no_vnc is None
            &&& !args.no_novnc_publish && options.web_vnc_enabled ==> begun.stage
                == StartStage::FindPort(
                PortSearch { requested: args.novnc_port, next: args.novnc_port },
            )
            &&& args.no_novnc_publish || !options.web_vnc_enabled ==> begun.stage is Inspect
        },
        start_plan(project, args) matches Ok(StartPlanView::Print(json)) ==> {
            let options = options_of(args.runtime_profile@)->0;
            &&& field_of(json, "noVncPublished"@) == Some(
                JsonView::Bool(!args.no_novnc_publish && options.web_vnc_enabled),
            )
            &&& !args.no_novnc_publish && options.web_vnc_enabled ==> {
                &&& field_of(json, "noVncPort"@) == Some(JsonView::Integer(args.novnc_port as int))
                &&& field_of(json, "noVncBindHost"@) == Some(JsonView::Text(args.novnc_bind_host@))
                &&& field_of(json, "noVncHost"@) == Some(JsonView::Text(args.novnc_host@))
            }
        },
{
    lemma_printed_names();
}

/// The same profile is given for every name that is known, and one that is not known is named in
/// the error.
pub proof fn unknown_profiles_are_refused(project: Seq<char>, args: LifecycleArgs)
    requires
        is_safe_endpoint(args.connection.endpoint@),
        options_of(args.runtime_profile@) is None,
    ensures
        ({
            let message = "invalid runtime profile "@ + debug_text(args.runtime_profile@);
            &&& start_plan(project, args) == Err::<StartPlanView, Seq<char>>(message)
            &&& status_plan(project, args) == Err::<StatusPlanView, Seq<char>>(message)
            &&& stop_plan(project, args) == Err::<StopPlanView, Seq<char>>(message)
        }),
{
}

/// What `status` tells is the project and the limits of the arguments. Docker is asked for the
/// port of noVNC in the Android container of the project exactly where noVNC may be published.
pub proof fn statuses_tell_of_their_project(
    project: Seq<char>,
    args: LifecycleArgs,
    no_vnc: Option<NoVncView>,
)
    ensures
        status_plan(project, args) is Ok <==> is_safe_endpoint(args.connection.endpoint@)
            && options_of(args.runtime_profile@) is Some,
        status_plan(project, args) matches Ok(StatusPlanView::Print(json)) ==> (
        args.no_novnc_publish || !options_of(args.runtime_profile@)->0.web_vnc_enabled)
            && tells_limits(json, args) && tells_project(json, project, args) && field_of(
            json,
            "noVncPublished"@,
        ) == Some(JsonView::Bool(false)),
        status_plan(project, args) matches Ok(StatusPlanView::Ask(job)) ==> {
            let json = lifecycle_json(job.spec, no_vnc, job.limits, job.options, None, None);
            &&& !args.no_novnc_publish && options_of(args.runtime_profile@)->0.web_vnc_enabled
            &&& tells_limits(json, args) && tells_project(json, project, args)
            &&& job.url_host == args.novnc_host@
            &&& job.configured == Some(
                endpoint_of(args.novnc_bind_host@, args.novnc_host@, args.novnc_port),
            )
            &&& job.spec.android_container_name == container_name(project)
        },
{
    lemma_printed_names();
    if let Ok(plan) = status_plan(project, args) {
        let spec = spec_for(project, args.connection)->Ok_0;
        let options = options_for(args)->Ok_0;
        lemma_tells(spec, no_vnc, options, None, None, Seq::empty(), project, args);
        lemma_tells(spec, None, options, None, None, Seq::empty(), project, args);
    }
}

/// Docker is asked for the port to which noVNC leads, and is believed where it succeeds and names
/// a host and a port.
pub proof fn docker_tells_where_no_vnc_is(
    container: Seq<char>,
    output: ProcessOutput,
    message: String,
    default_url_host: Seq<char>,
)
    ensures
        port_args(container).len() == 3,
        port_args(container)[0] == "port"@,
        port_args(container)[1] == container,
        port_args(container)[2] == decimal(6081) + "/tcp"@,
        told_endpoint(Err(message), default_url_host) is None,
        output.code != Some(0i32) ==> told_endpoint(Ok(output), default_url_host) is None,
        output.code == Some(0i32) ==> match first_binding(lines(lossy_text(output.stdout@))) {
            Some((host, port)) => told_endpoint(Ok(output), default_url_host) == Some(
                endpoint_of(host, url_host_of(host, default_url_host), port),
            ),
            None => told_endpoint(Ok(output), default_url_host) is None,
        },
{
}

/// `stop` removes the Android container of the project and no other, and a dry run shows that
/// command. What it prints tells the project and the limits of the arguments.
pub proof fn stops_remove_their_container(
    project: Seq<char>,
    args: LifecycleArgs,
    removed: Option<bool>,
)
    ensures
        stop_plan(project, args) is Ok <==> is_safe_endpoint(args.connection.endpoint@)
            && options_of(args.runtime_profile@) is Some,
        stop_plan(project, args) matches Ok(StopPlanView::Print(json)) ==> args.dry_run && field_of(
            json,
            "docker"@,
        ) == Some(texts_view(seq!["rm"@, "--force"@, container_name(project)])) && tells_limits(
            json,
            args,
        ) && tells_project(json, project, args) && field_of(json, "removed"@) == Some(
            JsonView::Null,
        ),
        stop_plan(project, args) matches Ok(StopPlanView::Run(job)) ==> {
            let json = lifecycle_json(job.spec, None, job.limits, job.options, None, removed);
            &&& !args.dry_run
            &&& stop_args(job.spec) == seq!["rm"@, "--force"@, container_name(project)]
            &&& tells_limits(json, args) && tells_project(json, project, args)
        },
{
    lemma_printed_names();
    if let Ok(plan) = stop_plan(project, args) {
        let spec = spec_for(project, args.connection)->Ok_0;
        let options = options_for(args)->Ok_0;
        lemma_tells(spec, None, options, None, removed, stop_args(spec), project, args);
        lemma_tells(spec, None, options, None, None, stop_args(spec), project, args);
    }
}

proof fn lemma_adb_names()
    ensures
        "projectId"@.len() == 9 && "projectId"@[0] == 'p',
        "androidContainerName"@.len() == 20,
        "adbEndpoint"@.len() == 11,
        "adbMode"@.len() == 7,
        "host"@.len() == 4,
        "container"@.len() == 9 && "container"@[0] == 'c',
        "containerCopy"@.len() == 13,
{
    reveal_strlit("projectId");
    reveal_strlit("androidContainerName");
    reveal_strlit("adbEndpoint");
    reveal_strlit("adbMode");
    reveal_strlit("host");
    reveal_strlit("container");
    reveal_strlit("containerCopy");
}

/// Whether what a dry run of an ADB command prints names the project and its mode, and shows the
/// commands of `job`: those that Docker is called with in the container, and on the host a line
/// for a shell that connects to the endpoint and then calls ADB.
pub open spec fn shows(
    json: JsonView,
    job: JobView,
    project: Seq<char>,
    args: AndroidConnectionArgs,
    mode: AdbMode,
) -> bool {
    let adb_call = if job.host_args.len() == 0 {
        "adb"@
    } else {
        "adb "@ + quoted_words(job.host_args)
    };
    let line = "adb connect "@ + quoted(args.endpoint@) + " && "@ + adb_call;
    &&& field_of(json, "projectId"@) == Some(JsonView::Text(normalized(project)))
    &&& field_of(json, "androidContainerName"@) == Some(JsonView::Text(container_name(project)))
    &&& field_of(json, "adbEndpoint"@) == Some(JsonView::Text(args.endpoint@))
    &&& field_of(json, "adbMode"@) == Some(JsonView::Text(mode_text(mode)))
    &&& field_of(json, "container"@) == Some(texts_view(seq!["docker"@] + job.container_args))
    &&& field_of(json, "host"@) == Some(texts_view(seq!["sh"@, "-c"@, line]))
    &&& job.copy_args.len() > 0 ==> field_of(json, "containerCopy"@) == Some(
        texts_view(job.copy_args),
    )
}

proof fn lemma_targeted_line(endpoint: Seq<char>, args: Seq<Seq<char>>)
    requires
        args.len() > 0,
    ensures
        host_targeted_line(endpoint, args) == "adb connect "@ + quoted(endpoint) + " && "@ + ("adb "@
            + quoted_words(targeted(endpoint, args))),
        targeted(endpoint, args).len() > 0,
{
    reveal_strlit(" && adb ");
    reveal_strlit(" && ");
    reveal_strlit("adb ");
    assert(" && adb "@ =~= " && "@ + "adb "@);
    let words = quoted_words(targeted(endpoint, args));
    assert("adb connect "@ + quoted(endpoint) + " && adb "@ + words =~= "adb connect "@ + quoted(
        endpoint,
    ) + " && "@ + ("adb "@ + words));
}

/// What a dry run of `adb` shows is what the run does that differs from it in nothing else, which
/// is for the Android container and the endpoint of the project, and hands the arguments to ADB as
/// they are.
pub proof fn adb_dry_runs_show_what_is_run(project: Seq<char>, dry: AdbArgs, wet: AdbArgs)
    requires
        dry.dry_run,
        wet == (AdbArgs { dry_run: false, ..dry }),
        is_safe_endpoint(dry.connection.endpoint@),
    ensures
        adb_plan(project, wet) matches Ok(AdbPlanView::Run(job)) && (adb_plan(project, dry) matches Ok(
            AdbPlanView::Print(json),
        ) && shows(json, job, project, dry.connection, dry.adb_mode)) && is_job_for(
            job,
            container_name(project),
            dry.connection.endpoint@,
        ) && job.host_args == texts(dry.args@) && job.container_args == seq![
            "exec"@,
            container_name(project),
            "adb"@,
        ] + texts(dry.args@) && job.copy_args.len() == 0 && job.stage == first_stage(
            dry.adb_mode,
            job.copy_args,
        ),
{
    lemma_adb_names();
    let spec = spec_for(project, dry.connection)->Ok_0;
    jobs_are_for_their_project(spec, dry.adb_mode, texts(dry.args@), Seq::empty());
}

/// What a dry run of `launch-app` shows is what the run does that differs from it in nothing else,
/// which launches the package of the arguments on the device of the project.
pub proof fn launch_dry_runs_show_what_is_run(
    project: Seq<char>,
    dry: LaunchAppArgs,
    wet: LaunchAppArgs,
)
    requires
        dry.dry_run,
        wet == (LaunchAppArgs { dry_run: false, ..dry }),
        is_safe_endpoint(dry.connection.endpoint@),
    ensures
        launch_plan(project, wet) matches Ok(AdbPlanView::Run(job)) && (launch_plan(
            project,
            dry,
        ) matches Ok(AdbPlanView::Print(json)) && shows(
            json,
            job,
            project,
            dry.connection,
            dry.adb_mode,
        )) && is_job_for(job, container_name(project), dry.connection.endpoint@) && ({
            let launch = launch_args(dry.package_name@, opt_text(dry.activity));
            &&& job.host_args == targeted(dry.connection.endpoint@, launch)
            &&& job.container_args == seq!["exec"@, container_name(project), "adb"@] + targeted(
                "emulator-5554"@,
                launch,
            )
            &&& job.copy_args.len() == 0
            &&& job.stage == first_stage(dry.adb_mode, job.copy_args)
        }),
{
    lemma_adb_names();
    let spec = spec_for(project, dry.connection)->Ok_0;
    let launch = launch_args(dry.package_name@, opt_text(dry.activity));
    jobs_are_for_their_project(spec, dry.adb_mode, launch, Seq::empty());
    lemma_targeted_line(dry.connection.endpoint@, launch);
}

/// What a dry run of `install-apk` shows is what the run does that differs from it in nothing
/// else, which installs the file of the arguments on the device of the project.
pub proof fn install_dry_runs_show_what_is_run(
    project: Seq<char>,
    dry: InstallApkArgs,
    wet: InstallApkArgs,
)
    requires
        dry.dry_run,
        wet == (InstallApkArgs { dry_run: false, ..dry }),
        is_safe_endpoint(dry.connection.endpoint@),
    ensures
        install_plan(project, wet) matches Ok(AdbPlanView::Run(job)) && (install_plan(
            project,
            dry,
        ) matches Ok(AdbPlanView::Print(json)) && shows(
            json,
            job,
            project,
            dry.connection,
            dry.adb_mode,
        )) && is_job_for(job, container_name(project), dry.connection.endpoint@) && ({
            let inside = "/tmp/docker-git-install.apk"@;
            &&& job.host_args == targeted(
                dry.connection.endpoint@,
                seq!["install"@, dry.path@],
            )
            &&& job.copy_args == seq!["cp"@, dry.path@, container_name(project) + seq![':'] + inside]
            &&& job.container_args == seq!["exec"@, container_name(project), "adb"@] + targeted(
                "emulator-5554"@,
                seq!["install"@, inside],
            )
            &&& job.stage == first_stage(dry.adb_mode, job.copy_args)
        }),
{
    lemma_adb_names();
    let spec = spec_for(project, dry.connection)->Ok_0;
    jobs_are_for_their_project(spec, dry.adb_mode, Seq::empty(), dry.path@);
    installs_use_the_copied_file(spec, dry.adb_mode, dry.path@);
    lemma_targeted_line(dry.connection.endpoint@, seq!["install"@, dry.path@]);
}

/// Where nothing else is asked for, ADB runs in the container, which is in the shared network.
pub proof fn containers_are_reached_by_themselves()
    ensures
        DEFAULT_ADB_MODE@ == mode_text(AdbMode::Container),
        DEFAULT_NETWORK@ == "docker-git-shared"@,
{
}

/// What a start does, and what follows, is seen as it is.
pub proof fn starts_are_seen_as_they_are(
    job: StartJob,
    args: Vec<String>,
    host: String,
    port: u16,
    json: Json,
)
    ensures
        StartAction::TryPort(host, port)@ == StartActionView::TryPort(host@, port),
        StartAction::Docker(args)@ == StartActionView::Docker(texts(args@)),
        StartAction::StreamDocker(args)@ == StartActionView::StreamDocker(texts(args@)),
        StartStep::Next(job)@ == StartStepView::Next(job@),
        StartStep::Print(json)@ == StartStepView::Print(json@),
        StartStep::Failed(host)@ == StartStepView::Failed(host@),
        StartPlan::Print(json)@ == StartPlanView::Print(json@),
        StartPlan::Run(job)@ == StartPlanView::Run(job@),
{
}

} // verus!
