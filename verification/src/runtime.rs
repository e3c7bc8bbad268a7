//! The Android runtime container: its resource limits, runtime profiles and noVNC endpoint, and
//! the Docker arguments that start and stop it.
use crate::decimal::{decimal, decimal_exec, parse_u16, unsigned_value};
use crate::names::{AndroidSpec, SpecView};
use crate::scan::{line_bounds, lines, trim, trim_between};
use crate::text::{
    chars_of, concat2, find_last, find_last_exec, lemma_find_last, same_text, text_between, texts,
};
use vstd::prelude::*;

verus! {

pub const DEFAULT_ANDROID_IMAGE: &'static str = "budtmo/docker-android:emulator_14.0";

pub const DEFAULT_ADB_ENDPOINT: &'static str = "android:5555";

pub const DEFAULT_ANDROID_MEMORY_LIMIT: &'static str = "3g";

pub const DEFAULT_ANDROID_MEMORY_SWAP_LIMIT: &'static str = "3g";

pub const DEFAULT_ANDROID_CPUS: &'static str = "1.0";

pub const DEFAULT_ANDROID_RUNTIME_PROFILE: &'static str = "interactive";

pub const APP_TEST_ANDROID_RUNTIME_PROFILE: &'static str = "app-test";

pub const APP_TEST_VNC_ANDROID_RUNTIME_PROFILE: &'static str = "app-test-vnc";

pub const DEFAULT_NOVNC_HOST: &'static str = "127.0.0.1";

/// The port of the host on which noVNC is published.
pub const DEFAULT_NOVNC_PORT: u16 = 6080;

/// The port inside the container to which the published port leads.
pub const DEFAULT_NOVNC_CONTAINER_PORT: u16 = 6081;

// Resource limits.

/// The limits that Docker holds the container to.
#[derive(Clone, Debug, Eq, PartialEq)]
pub struct AndroidResourceLimits {
    pub memory: String,
    pub memory_swap: String,
    pub cpus: String,
}

/// What the limits are.
pub struct LimitsView {
    pub memory: Seq<char>,
    pub memory_swap: Seq<char>,
    pub cpus: Seq<char>,
}

impl View for AndroidResourceLimits {
    type V = LimitsView;

    open spec fn view(&self) -> LimitsView {
        LimitsView {
            memory: self.memory@,
            memory_swap: self.memory_swap@,
            cpus: self.cpus@,
        }
    }
}

#[must_use]
pub fn android_resource_limits(memory: &str, memory_swap: &str, cpus: &str) -> (limits:
    AndroidResourceLimits)
    ensures
        limits@ == (LimitsView { memory: memory@, memory_swap: memory_swap@, cpus: cpus@ }),
{
    AndroidResourceLimits {
        memory: memory.to_string(),
        memory_swap: memory_swap.to_string(),
        cpus: cpus.to_string(),
    }
}

#[must_use]
pub fn default_android_resource_limits() -> (limits: AndroidResourceLimits)
    ensures
        limits@ == (LimitsView { memory: "3g"@, memory_swap: "3g"@, cpus: "1.0"@ }),
{
    android_resource_limits(
        DEFAULT_ANDROID_MEMORY_LIMIT,
        DEFAULT_ANDROID_MEMORY_SWAP_LIMIT,
        DEFAULT_ANDROID_CPUS,
    )
}

// Runtime profiles.

/// A setting that is on or off.
#[derive(Clone, Copy, Debug, Eq, PartialEq, Structural)]
pub enum RuntimeSwitch {
    Enabled,
    Disabled,
}

impl RuntimeSwitch {
    #[must_use]
    pub fn as_bool(&self) -> (on: bool)
        ensures
            on == (*self is Enabled),
    {
        match self {
            RuntimeSwitch::Enabled => true,
            RuntimeSwitch::Disabled => false,
        }
    }
}

/// How the emulator in the container runs.
#[derive(Clone, Debug, Eq, PartialEq)]
pub struct AndroidRuntimeOptions {
    pub profile: String,
    pub emulator_headless: RuntimeSwitch,
    pub appium_enabled: RuntimeSwitch,
    pub web_log_enabled: RuntimeSwitch,
    pub web_vnc_enabled: RuntimeSwitch,
    pub skin_enabled: RuntimeSwitch,
    /// Arguments for the emulator, or nothing.
    pub emulator_additional_args: String,
}

/// What the runtime options are.
pub struct OptionsView {
    pub profile: Seq<char>,
    pub emulator_headless: bool,
    pub appium_enabled: bool,
    pub web_log_enabled: bool,
    pub web_vnc_enabled: bool,
    pub skin_enabled: bool,
    pub emulator_additional_args: Seq<char>,
}

impl View for AndroidRuntimeOptions {
    type V = OptionsView;

    open spec fn view(&self) -> OptionsView {
        OptionsView {
            profile: self.profile@,
            emulator_headless: self.emulator_headless is Enabled,
            appium_enabled: self.appium_enabled is Enabled,
            web_log_enabled: self.web_log_enabled is Enabled,
            web_vnc_enabled: self.web_vnc_enabled is Enabled,
            skin_enabled: self.skin_enabled is Enabled,
            emulator_additional_args: self.emulator_additional_args@,
        }
    }
}

/// The runtime options of the profile for a human at a full visual session.
pub open spec fn interactive_options() -> OptionsView {
    OptionsView {
        profile: "interactive"@,
        emulator_headless: false,
        appium_enabled: false,
        web_log_enabled: false,
        web_vnc_enabled: true,
        skin_enabled: true,
        emulator_additional_args: Seq::empty(),
    }
}

/// The runtime options of the headless profile for tests of an app.
pub open spec fn app_test_options() -> OptionsView {
    OptionsView {
        profile: "app-test"@,
        emulator_headless: true,
        appium_enabled: false,
        web_log_enabled: false,
        web_vnc_enabled: false,
        skin_enabled: false,
        emulator_additional_args:
            "-no-window -no-audio -no-boot-anim -no-snapshot -lowram -memory 1536 -camera-back none -camera-front none"@,
    }
}

/// The runtime options of the profile for tests of an app with noVNC.
pub open spec fn app_test_vnc_options() -> OptionsView {
    OptionsView {
        profile: "app-test-vnc"@,
        emulator_headless: false,
        appium_enabled: false,
        web_log_enabled: false,
        web_vnc_enabled: true,
        skin_enabled: false,
        emulator_additional_args:
            "-no-audio -no-boot-anim -no-snapshot -lowram -memory 1536 -camera-back none -camera-front none"@,
    }
}

#[must_use]
pub fn interactive_runtime_options() -> (options: AndroidRuntimeOptions)
    ensures
        options@ == interactive_options(),
{
    AndroidRuntimeOptions {
        profile: DEFAULT_ANDROID_RUNTIME_PROFILE.to_string(),
        emulator_headless: RuntimeSwitch::Disabled,
        appium_enabled: RuntimeSwitch::Disabled,
        web_log_enabled: RuntimeSwitch::Disabled,
        web_vnc_enabled: RuntimeSwitch::Enabled,
        skin_enabled: RuntimeSwitch::Enabled,
        emulator_additional_args: String::new(),
    }
}

#[must_use]
pub fn app_test_runtime_options() -> (options: AndroidRuntimeOptions)
    ensures
        options@ == app_test_options(),
{
    AndroidRuntimeOptions {
        profile: APP_TEST_ANDROID_RUNTIME_PROFILE.to_string(),
        emulator_headless: RuntimeSwitch::Enabled,
        appium_enabled: RuntimeSwitch::Disabled,
        web_log_enabled: RuntimeSwitch::Disabled,
        web_vnc_enabled: RuntimeSwitch::Disabled,
        skin_enabled: RuntimeSwitch::Disabled,
        emulator_additional_args:
            "-no-window -no-audio -no-boot-anim -no-snapshot -lowram -memory 1536 -camera-back none -camera-front none".to_string(),
    }
}

#[must_use]
pub fn app_test_vnc_runtime_options() -> (options: AndroidRuntimeOptions)
    ensures
        options@ == app_test_vnc_options(),
{
    AndroidRuntimeOptions {
        profile: APP_TEST_VNC_ANDROID_RUNTIME_PROFILE.to_string(),
        emulator_headless: RuntimeSwitch::Disabled,
        appium_enabled: RuntimeSwitch::Disabled,
        web_log_enabled: RuntimeSwitch::Disabled,
        web_vnc_enabled: RuntimeSwitch::Enabled,
        skin_enabled: RuntimeSwitch::Disabled,
        emulator_additional_args:
            "-no-audio -no-boot-anim -no-snapshot -lowram -memory 1536 -camera-back none -camera-front none".to_string(),
    }
}

/// The runtime options of a profile, if there is one of that name.
pub open spec fn options_of(profile: Seq<char>) -> Option<OptionsView> {
    if profile == "interactive"@ {
        Some(interactive_options())
    } else if profile == "app-test"@ {
        Some(app_test_options())
    } else if profile == "app-test-vnc"@ {
        Some(app_test_vnc_options())
    } else {
        None
    }
}

#[must_use]
pub fn android_runtime_options(profile: &str) -> (options: Option<AndroidRuntimeOptions>)
    ensures
        match options {
            Some(options) => options_of(profile@) == Some(options@),
            None => options_of(profile@) is None,
        },
{
    if same_text(profile, DEFAULT_ANDROID_RUNTIME_PROFILE) {
        Some(interactive_runtime_options())
    } else if same_text(profile, APP_TEST_ANDROID_RUNTIME_PROFILE) {
        Some(app_test_runtime_options())
    } else if same_text(profile, APP_TEST_VNC_ANDROID_RUNTIME_PROFILE) {
        Some(app_test_vnc_runtime_options())
    } else {
        None
    }
}

// noVNC.

/// Where noVNC of a container is published.
#[derive(Clone, Debug, Eq, PartialEq)]
pub struct NoVncEndpoint {
    pub bind_host: String,
    pub url_host: String,
    pub host_port: u16,
    pub container_port: u16,
    pub url: String,
}

/// The address under which a browser reaches noVNC.
pub open spec fn no_vnc_url(url_host: Seq<char>, host_port: u16) -> Seq<char> {
    "http://"@ + url_host + ":"@ + decimal(host_port as nat) + "/?autoconnect=true&resize=remote"@
}

/// What a noVNC endpoint is.
pub struct NoVncView {
    pub bind_host: Seq<char>,
    pub url_host: Seq<char>,
    pub host_port: u16,
    pub container_port: u16,
    pub url: Seq<char>,
}

impl View for NoVncEndpoint {
    type V = NoVncView;

    open spec fn view(&self) -> NoVncView {
        NoVncView {
            bind_host: self.bind_host@,
            url_host: self.url_host@,
            host_port: self.host_port,
            container_port: self.container_port,
            url: self.url@,
        }
    }
}

/// The endpoint that two hosts and a port call for.
pub open spec fn endpoint_of(
    bind_host: Seq<char>,
    url_host: Seq<char>,
    host_port: u16,
) -> NoVncView {
    NoVncView {
        bind_host,
        url_host,
        host_port,
        container_port: DEFAULT_NOVNC_CONTAINER_PORT,
        url: no_vnc_url(url_host, host_port),
    }
}

#[must_use]
pub fn no_vnc_endpoint(bind_host: &str, url_host: &str, host_port: u16) -> (endpoint: NoVncEndpoint)
    ensures
        endpoint@ == endpoint_of(bind_host@, url_host@, host_port),
{
    let mut url = String::new();
    url.append("http://");
    url.append(url_host);
    url.append(":");
    url.append(decimal_exec(host_port as u64).as_str());
    url.append("/?autoconnect=true&resize=remote");
    assert(url@ =~= no_vnc_url(url_host@, host_port));
    NoVncEndpoint {
        bind_host: bind_host.to_string(),
        url_host: url_host.to_string(),
        host_port,
        container_port: DEFAULT_NOVNC_CONTAINER_PORT,
        url,
    }
}

/// Whether a bind host stands for every address of the host.
pub open spec fn is_wildcard_host(host: Seq<char>) -> bool {
    host == "0.0.0.0"@ || host == "::"@ || host == "[::]"@
}

/// The host and port of one line of `docker port`, such as `127.0.0.1:16080`.
pub open spec fn binding(line: Seq<char>) -> Option<(Seq<char>, u16)> {
    let text = trim(line);
    let colon = find_last(text, ':');
    if colon <= 0 {
        None
    } else {
        match unsigned_value(text.skip(colon + 1)) {
            Some(port) => if port <= u16::MAX {
                Some((text.take(colon), port as u16))
            } else {
                None
            },
            None => None,
        }
    }
}

/// The first of some lines that names a host and a port.
pub open spec fn first_binding(all: Seq<Seq<char>>) -> Option<(Seq<char>, u16)>
    decreases all.len(),
{
    if all.len() == 0 {
        None
    } else if binding(all[0]) is Some {
        binding(all[0])
    } else {
        first_binding(all.skip(1))
    }
}

/// The host that a browser is sent to, given the host that Docker bound.
pub open spec fn url_host_of(bind_host: Seq<char>, default_url_host: Seq<char>) -> Seq<char> {
    if is_wildcard_host(bind_host) {
        default_url_host
    } else {
        bind_host
    }
}

fn binding_exec(chars: &Vec<char>, from: usize, to: usize) -> (found: Option<(String, u16)>)
    requires
        from <= to <= chars@.len(),
    ensures
        match found {
            Some((host, port)) => binding(chars@.subrange(from as int, to as int)) == Some(
                (host@, port),
            ),
            None => binding(chars@.subrange(from as int, to as int)) is None,
        },
{
    let (lo, hi) = trim_between(chars, from, to);
    let line = chars_of(text_between(chars, lo, hi).as_str());
    proof {
        lemma_find_last(line@, ':');
    }
    match find_last_exec(&line, ':') {
        Some(colon) => {
            if colon == 0 {
                return None;
            }
            let port_text = text_between(&line, colon + 1, line.len());
            assert(port_text@ =~= line@.skip(colon + 1));
            match parse_u16(port_text.as_str()) {
                Ok(port) => {
                    let host = text_between(&line, 0, colon);
                    assert(host@ =~= line@.take(colon as int));
                    Some((host, port))
                },
                Err(_) => None,
            }
        },
        None => None,
    }
}

/// Reads the endpoint on which Docker published noVNC out of what `docker port` printed. The
/// browser is never sent to a wildcard address.
#[must_use]
pub fn parse_docker_no_vnc_port(output: &str, default_url_host: &str) -> (endpoint: Option<
    NoVncEndpoint,
>)
    ensures
        match endpoint {
            Some(endpoint) => first_binding(lines(output@)) matches Some((host, port))
                && endpoint@ == endpoint_of(host, url_host_of(host, default_url_host@), port),
            None => first_binding(lines(output@)) is None,
        },
{
    let chars = chars_of(output);
    let bounds = line_bounds(&chars);
    let ghost all = lines(output@);
    assert(all.skip(0) =~= all);
    for i in 0..bounds.len()
        invariant
            chars@ == output@,
            all == lines(output@),
            bounds@.len() == all.len(),
            forall|k: int|
                0 <= k < bounds@.len() ==> (#[trigger] bounds@[k]).0 <= bounds@[k].1
                    <= chars@.len() && chars@.subrange(bounds@[k].0 as int, bounds@[k].1 as int)
                    == all[k],
            first_binding(all) == first_binding(all.skip(i as int)),
    {
        let (from, to) = bounds[i];
        assert(all.skip(i as int)[0] == all[i as int]);
        if let Some((host, port)) = binding_exec(&chars, from, to) {
            let wildcard = same_text(host.as_str(), "0.0.0.0") || same_text(host.as_str(), "::")
                || same_text(host.as_str(), "[::]");
            return if wildcard {
                Some(no_vnc_endpoint(host.as_str(), default_url_host, port))
            } else {
                Some(no_vnc_endpoint(host.as_str(), host.as_str(), port))
            };
        }
        assert(all.skip(i as int).skip(1) =~= all.skip(i + 1));
    }
    assert(all.skip(all.len() as int) =~= Seq::empty());
    None
}

// Docker arguments.

/// A pair of arguments that sets a variable of the container's environment.
pub open spec fn env_args(name: Seq<char>, value: Seq<char>) -> Seq<Seq<char>> {
    seq!["--env"@, name + "="@ + value]
}

/// A switch as the container's environment spells it.
pub open spec fn switch_text(on: bool) -> Seq<char> {
    if on {
        "true"@
    } else {
        "false"@
    }
}

/// The noVNC endpoint that a run publishes: the given one, if the profile has noVNC.
pub open spec fn published(
    no_vnc: Option<NoVncView>,
    options: OptionsView,
) -> Option<NoVncView> {
    if options.web_vnc_enabled {
        no_vnc
    } else {
        None
    }
}

/// The arguments that publish noVNC on the host.
pub open spec fn publish_args(endpoint: Option<NoVncView>) -> Seq<Seq<char>> {
    match endpoint {
        Some(endpoint) => seq![
            "--publish"@,
            endpoint.bind_host + ":"@ + decimal(endpoint.host_port as nat) + ":"@ + decimal(
                endpoint.container_port as nat,
            ),
        ],
        None => Seq::empty(),
    }
}

/// The arguments that set up the environment of the container.
pub open spec fn environment_args(vnc: bool, options: OptionsView) -> Seq<Seq<char>> {
    env_args("EMULATOR_HEADLESS"@, switch_text(options.emulator_headless)) + env_args(
        "APPIUM"@,
        switch_text(options.appium_enabled),
    ) + env_args("WEB_LOG"@, switch_text(options.web_log_enabled)) + env_args(
        "WEB_VNC"@,
        switch_text(vnc),
    ) + (if vnc {
        env_args("WEB_VNC_PORT"@, "6080"@)
    } else {
        Seq::empty()
    }) + (if options.skin_enabled {
        Seq::empty()
    } else {
        env_args("EMULATOR_NO_SKIN"@, "true"@)
    }) + (if options.emulator_additional_args.len() == 0 {
        Seq::empty()
    } else {
        env_args("EMULATOR_ADDITIONAL_ARGS"@, options.emulator_additional_args)
    })
}

/// The script that the container runs: the emulator without a modem, and before it, where noVNC
/// is published, the bridge from the published port to the server inside the container.
pub open spec fn start_script(vnc: bool) -> Seq<char> {
    if vnc {
        "(socat TCP-LISTEN:6081,fork,reuseaddr TCP:127.0.0.1:6080 &) && "@ + emulator_script()
    } else {
        emulator_script()
    }
}

/// The part of the script that starts the emulator.
pub open spec fn emulator_script() -> Seq<char> {
    "printf 'hw.gsmModem = no\\n' > /tmp/docker-git-emulator.ini && export EMULATOR_CONFIG_PATH=/tmp/docker-git-emulator.ini && exec ${APP_PATH}/mixins/scripts/run.sh"@
}

/// The Docker arguments that start the container.
pub open spec fn run_args(
    spec: SpecView,
    no_vnc: Option<NoVncView>,
    limits: LimitsView,
    options: OptionsView,
) -> Seq<Seq<char>> {
    base_args(spec, limits) + publish_args(published(no_vnc, options)) + environment_args(
        published(no_vnc, options) is Some,
        options,
    ) + image_args(spec, published(no_vnc, options) is Some)
}

fn push_env(args: &mut Vec<String>, name: &str, value: &str)
    ensures
        texts(final(args)@) == texts(old(args)@) + env_args(name@, value@),
{
    let ghost before = args@;
    let mut setting = String::new();
    setting.append(name);
    setting.append("=");
    setting.append(value);
    assert(setting@ =~= name@ + "="@ + value@);
    args.push("--env".to_string());
    args.push(setting);
    assert(texts(args@) =~= texts(before) + env_args(name@, value@));
}

fn switch_str(on: bool) -> (text: &'static str)
    ensures
        text@ == switch_text(on),
{
    if on {
        "true"
    } else {
        "false"
    }
}

/// The optional endpoint.
pub open spec fn opt_endpoint(no_vnc: Option<&NoVncEndpoint>) -> Option<NoVncView> {
    match no_vnc {
        Some(endpoint) => Some(endpoint@),
        None => None,
    }
}

fn push_publish(args: &mut Vec<String>, endpoint: &NoVncEndpoint)
    ensures
        texts(final(args)@) == texts(old(args)@) + publish_args(Some(endpoint@)),
{
    let ghost before = args@;
    let mut mapping = String::new();
    mapping.append(endpoint.bind_host.as_str());
    mapping.append(":");
    mapping.append(decimal_exec(endpoint.host_port as u64).as_str());
    mapping.append(":");
    mapping.append(decimal_exec(endpoint.container_port as u64).as_str());
    assert(mapping@ =~= publish_args(Some(endpoint@))[1]);
    args.push("--publish".to_string());
    args.push(mapping);
    assert(texts(args@) =~= texts(before) + publish_args(Some(endpoint@)));
}

fn push_environment(args: &mut Vec<String>, vnc: bool, options: &AndroidRuntimeOptions)
    ensures
        texts(final(args)@) == texts(old(args)@) + environment_args(vnc, options@),
{
    let ghost before = texts(args@);
    push_env(args, "EMULATOR_HEADLESS", switch_str(options.emulator_headless.as_bool()));
    push_env(args, "APPIUM", switch_str(options.appium_enabled.as_bool()));
    push_env(args, "WEB_LOG", switch_str(options.web_log_enabled.as_bool()));
    push_env(args, "WEB_VNC", switch_str(vnc));
    if vnc {
        push_env(args, "WEB_VNC_PORT", "6080");
    }
    if !options.skin_enabled.as_bool() {
        push_env(args, "EMULATOR_NO_SKIN", "true");
    }
    if !options.emulator_additional_args.as_str().is_empty() {
        push_env(args, "EMULATOR_ADDITIONAL_ARGS", options.emulator_additional_args.as_str());
    }
    assert(texts(args@) =~= before + environment_args(vnc, options@));
}

/// The first arguments, up to the resource limits.
pub open spec fn base_args(spec: SpecView, limits: LimitsView) -> Seq<Seq<char>> {
    seq![
        "run"@,
        "--detach"@,
        "--name"@,
        spec.android_container_name,
        "--privileged"@,
        "--network"@,
        spec.docker_network,
        "--memory"@,
        limits.memory,
        "--memory-swap"@,
        limits.memory_swap,
        "--cpus"@,
        limits.cpus,
    ]
}

fn base_args_exec(spec: &AndroidSpec, limits: &AndroidResourceLimits) -> (args: Vec<String>)
    ensures
        texts(args@) == base_args(spec@, limits@),
{
    let args: Vec<String> =
        vec![
        "run".to_string(),
        "--detach".to_string(),
        "--name".to_string(),
        spec.android_container_name.clone(),
        "--privileged".to_string(),
        "--network".to_string(),
        spec.docker_network.clone(),
        "--memory".to_string(),
        limits.memory.clone(),
        "--memory-swap".to_string(),
        limits.memory_swap.clone(),
        "--cpus".to_string(),
        limits.cpus.clone(),
    ];
    assert(texts(args@) =~= base_args(spec@, limits@));
    args
}

/// The last arguments: the volume, the image and the script.
pub open spec fn image_args(spec: SpecView, vnc: bool) -> Seq<Seq<char>> {
    seq![
        "--volume"@,
        spec.android_volume_name + ":/root/.android"@,
        spec.image,
        start_script(vnc),
    ]
}

fn push_image(args: &mut Vec<String>, spec: &AndroidSpec, vnc: bool)
    ensures
        texts(final(args)@) == texts(old(args)@) + image_args(spec@, vnc),
{
    let ghost before = args@;
    let emulator: &'static str =
        "printf 'hw.gsmModem = no\\n' > /tmp/docker-git-emulator.ini && export EMULATOR_CONFIG_PATH=/tmp/docker-git-emulator.ini && exec ${APP_PATH}/mixins/scripts/run.sh";
    let script = if vnc {
        concat2("(socat TCP-LISTEN:6081,fork,reuseaddr TCP:127.0.0.1:6080 &) && ", emulator)
    } else {
        emulator.to_string()
    };
    args.push("--volume".to_string());
    args.push(concat2(spec.android_volume_name.as_str(), ":/root/.android"));
    args.push(spec.image.clone());
    args.push(script);
    assert(texts(args@) =~= texts(before) + image_args(spec@, vnc));
}

#[must_use]
pub fn docker_run_args(
    spec: &AndroidSpec,
    no_vnc: Option<&NoVncEndpoint>,
    resource_limits: &AndroidResourceLimits,
    runtime_options: &AndroidRuntimeOptions,
) -> (args: Vec<String>)
    ensures
        texts(args@) == run_args(
            spec@,
            opt_endpoint(no_vnc),
            resource_limits@,
            runtime_options@,
        ),
{
    let ghost base = base_args(spec@, resource_limits@);
    let mut args = base_args_exec(spec, resource_limits);
    let mut vnc: bool = false;
    if runtime_options.web_vnc_enabled.as_bool() {
        if let Some(endpoint) = no_vnc {
            push_publish(&mut args, endpoint);
            vnc = true;
        }
    }
    let ghost shown = published(opt_endpoint(no_vnc), runtime_options@);
    assert(texts(args@) =~= base + publish_args(shown));
    push_environment(&mut args, vnc, runtime_options);
    push_image(&mut args, spec, vnc);
    args
}

/// The Docker arguments that remove the container.
pub open spec fn stop_args(spec: SpecView) -> Seq<Seq<char>> {
    seq!["rm"@, "--force"@, spec.android_container_name]
}

#[must_use]
pub fn docker_stop_args(spec: &AndroidSpec) -> (args: Vec<String>)
    ensures
        texts(args@) == stop_args(spec@),
{
    let args = vec![
        "rm".to_string(),
        "--force".to_string(),
        spec.android_container_name.clone(),
    ];
    assert(texts(args@) =~= stop_args(spec@));
    args
}

// Laws.

/// A profile without noVNC publishes nothing, whatever endpoint it is given.
pub proof fn profiles_without_vnc_publish_nothing(
    spec: SpecView,
    no_vnc: Option<NoVncView>,
    limits: LimitsView,
    options: OptionsView,
)
    requires
        !options.web_vnc_enabled,
    ensures
        run_args(spec, no_vnc, limits, options) == run_args(spec, None, limits, options),
{
}

/// A browser is not sent to a wildcard address, unless it is told to.
pub proof fn browsers_are_not_sent_to_wildcards(
    bind_host: Seq<char>,
    default_url_host: Seq<char>,
    host_port: u16,
)
    requires
        !is_wildcard_host(default_url_host),
    ensures
        !is_wildcard_host(
            endpoint_of(
                bind_host,
                url_host_of(bind_host, default_url_host),
                host_port,
            ).url_host,
        ),
{
}

/// Three profiles are known, each by its name. The one for tests alone is headless and without
/// noVNC, the interactive one alone has a skin and lets the emulator run as it is, and none has
/// Appium or the web log.
pub proof fn profiles_are_what_they_are_for(profile: Seq<char>)
    ensures
        options_of(profile) is Some <==> (profile == "interactive"@ || profile == "app-test"@
            || profile == "app-test-vnc"@),
        options_of(profile) matches Some(options) ==> {
            &&& options.profile == profile
            &&& options.emulator_headless <==> profile == "app-test"@
            &&& options.web_vnc_enabled <==> profile != "app-test"@
            &&& options.skin_enabled <==> profile == "interactive"@
            &&& !options.appium_enabled
            &&& !options.web_log_enabled
        },
        options_of("interactive"@)->0.emulator_additional_args.len() == 0,
        options_of("app-test"@)->0.emulator_additional_args
            == "-no-window -no-audio -no-boot-anim -no-snapshot -lowram -memory 1536 -camera-back none -camera-front none"@,
        options_of("app-test-vnc"@)->0.emulator_additional_args
            == "-no-audio -no-boot-anim -no-snapshot -lowram -memory 1536 -camera-back none -camera-front none"@,
{
    reveal_strlit("interactive");
    reveal_strlit("app-test");
    reveal_strlit("app-test-vnc");
    assert("interactive"@.len() == 11 && "app-test"@.len() == 8 && "app-test-vnc"@.len() == 12);
}

/// An endpoint is reached by its host and port, and leads to the port of the container that noVNC
/// is bridged to.
pub proof fn endpoints_are_reached_by_host_and_port(
    bind_host: Seq<char>,
    url_host: Seq<char>,
    port: u16,
)
    ensures
        ({
            let endpoint = endpoint_of(bind_host, url_host, port);
            &&& endpoint.bind_host == bind_host
            &&& endpoint.url_host == url_host
            &&& endpoint.host_port == port
            &&& endpoint.container_port == 6081
            &&& endpoint.url == "http://"@ + url_host + ":"@ + decimal(port as nat)
                + "/?autoconnect=true&resize=remote"@
        }),
{
}

/// A line of `docker port` names a host and a port: the port is what stands after its last colon,
/// and the host all that stands before it. A line without a host, or without a port of sixteen
/// bits, names none.
pub proof fn bindings_are_a_host_and_a_port(line: Seq<char>, host: Seq<char>, port: Seq<char>)
    requires
        trim(line) == host + seq![':'] + port,
        !port.contains(':'),
    ensures
        match binding(line) {
            Some((bound, number)) => bound == host && host.len() > 0 && unsigned_value(port)
                == Some(number as nat),
            None => host.len() == 0 || unsigned_value(port) is None || unsigned_value(port)->0
                > 65535,
        },
{
    let text = trim(line);
    let at = host.len() as int;
    lemma_find_last(text, ':');
    let colon = find_last(text, ':');
    assert(text[at] == ':');
    if colon > at {
        assert(text[colon] == port[colon - at - 1]);
        assert(port.contains(port[colon - at - 1]));
    }
    assert(text.take(at) =~= host);
    assert(text.skip(at + 1) =~= port);
}

/// A line of `docker port` without a colon names nothing.
pub proof fn lines_without_a_colon_bind_nothing(line: Seq<char>)
    requires
        !trim(line).contains(':'),
    ensures
        binding(line) is None,
{
    let text = trim(line);
    lemma_find_last(text, ':');
    if find_last(text, ':') >= 0 {
        assert(text.contains(text[find_last(text, ':')]));
    }
}

/// Of several lines the first counts that names a host and a port.
pub proof fn the_first_binding_counts(all: Seq<Seq<char>>, at: int)
    requires
        0 <= at <= all.len(),
        forall|k: int| 0 <= k < at ==> binding(#[trigger] all[k]) is None,
        at < all.len() ==> binding(all[at]) is Some,
    ensures
        first_binding(all) == (if at < all.len() {
            binding(all[at])
        } else {
            None
        }),
    decreases at,
{
    if at > 0 {
        assert(binding(all[0]) is None);
        let rest = all.skip(1);
        assert forall|k: int| 0 <= k < at - 1 implies binding(#[trigger] rest[k]) is None by {
            assert(rest[k] == all[k + 1]);
        }
        the_first_binding_counts(rest, at - 1);
    }
}

/// A browser is sent to the host that Docker bound, unless that stands for every address.
pub proof fn browsers_are_sent_to_the_bound_host(bind_host: Seq<char>, default_url_host: Seq<char>)
    ensures
        bind_host == "0.0.0.0"@ || bind_host == "::"@ || bind_host == "[::]"@ ==> url_host_of(
            bind_host,
            default_url_host,
        ) == default_url_host,
        bind_host != "0.0.0.0"@ && bind_host != "::"@ && bind_host != "[::]"@ ==> url_host_of(
            bind_host,
            default_url_host,
        ) == bind_host,
{
}

/// A container is run under the name of the spec, in its network, with the limits as they are
/// given, with the volume and the image of the spec. noVNC is published where an endpoint is given
/// and the options have it, on the host and port of that endpoint. The environment tells each
/// option, and what is off by default is told only where it is on.
pub proof fn containers_are_run_as_they_are_set_up(
    spec: SpecView,
    no_vnc: Option<NoVncView>,
    limits: LimitsView,
    options: OptionsView,
)
    ensures
        ({
            let args = run_args(spec, no_vnc, limits, options);
            let vnc = options.web_vnc_enabled && no_vnc is Some;
            let on = |flag: bool| if flag { "true"@ } else { "false"@ };
            let env = |name: Seq<char>, value: Seq<char>| seq!["--env"@, name + "="@ + value];
            let none = Seq::<Seq<char>>::empty();
            args == seq![
                "run"@, "--detach"@, "--name"@, spec.android_container_name, "--privileged"@,
                "--network"@, spec.docker_network, "--memory"@, limits.memory, "--memory-swap"@,
                limits.memory_swap, "--cpus"@, limits.cpus,
            ] + (if vnc {
                seq![
                    "--publish"@,
                    no_vnc->0.bind_host + ":"@ + decimal(no_vnc->0.host_port as nat) + ":"@
                        + decimal(no_vnc->0.container_port as nat),
                ]
            } else {
                none
            }) + (env("EMULATOR_HEADLESS"@, on(options.emulator_headless)) + env(
                "APPIUM"@,
                on(options.appium_enabled),
            ) + env("WEB_LOG"@, on(options.web_log_enabled)) + env("WEB_VNC"@, on(vnc)) + (if vnc {
                env("WEB_VNC_PORT"@, "6080"@)
            } else {
                none
            }) + (if options.skin_enabled {
                none
            } else {
                env("EMULATOR_NO_SKIN"@, "true"@)
            }) + (if options.emulator_additional_args.len() > 0 {
                env("EMULATOR_ADDITIONAL_ARGS"@, options.emulator_additional_args)
            } else {
                none
            })) + seq![
                "--volume"@, spec.android_volume_name + ":/root/.android"@, spec.image,
                start_script(vnc),
            ]
        }),
        stop_args(spec) == seq!["rm"@, "--force"@, spec.android_container_name],
{
}

/// The emulator runs without a modem, and where noVNC is published the port of the container that
/// is published leads to the one on which noVNC listens.
pub proof fn scripts_start_the_emulator()
    ensures
        start_script(false)
            == "printf 'hw.gsmModem = no\\n' > /tmp/docker-git-emulator.ini && export EMULATOR_CONFIG_PATH=/tmp/docker-git-emulator.ini && exec ${APP_PATH}/mixins/scripts/run.sh"@,
        start_script(true) == "(socat TCP-LISTEN:6081,fork,reuseaddr TCP:127.0.0.1:6080 &) && "@
            + start_script(false),
{
}

/// Where nothing else is asked for, the emulator runs from one image, interactively, within three
/// gigabytes and on one processor, and noVNC is reached on this machine only.
pub proof fn runtimes_are_modest_by_themselves()
    ensures
        DEFAULT_ANDROID_IMAGE@ == "budtmo/docker-android:emulator_14.0"@,
        DEFAULT_ADB_ENDPOINT@ == "android:5555"@,
        DEFAULT_ANDROID_MEMORY_LIMIT@ == "3g"@,
        DEFAULT_ANDROID_MEMORY_SWAP_LIMIT@ == "3g"@,
        DEFAULT_ANDROID_CPUS@ == "1.0"@,
        options_of(DEFAULT_ANDROID_RUNTIME_PROFILE@) == options_of("interactive"@),
        options_of(APP_TEST_ANDROID_RUNTIME_PROFILE@) == options_of("app-test"@),
        options_of(APP_TEST_VNC_ANDROID_RUNTIME_PROFILE@) == options_of("app-test-vnc"@),
        DEFAULT_NOVNC_HOST@ == "127.0.0.1"@,
        DEFAULT_NOVNC_PORT == 6080,
{
}

/// Limits, options and endpoints are seen as they are: each part by its own name.
pub proof fn runtimes_are_seen_as_they_are(
    limits: AndroidResourceLimits,
    options: AndroidRuntimeOptions,
    endpoint: NoVncEndpoint,
)
    ensures
        limits@.memory == limits.memory@,
        limits@.memory_swap == limits.memory_swap@,
        limits@.cpus == limits.cpus@,
        options@.profile == options.profile@,
        options@.emulator_headless <==> options.emulator_headless is Enabled,
        options@.appium_enabled <==> options.appium_enabled is Enabled,
        options@.web_log_enabled <==> options.web_log_enabled is Enabled,
        options@.web_vnc_enabled <==> options.web_vnc_enabled is Enabled,
        options@.skin_enabled <==> options.skin_enabled is Enabled,
        options@.emulator_additional_args == options.emulator_additional_args@,
        endpoint@.bind_host == endpoint.bind_host@,
        endpoint@.url_host == endpoint.url_host@,
        endpoint@.host_port == endpoint.host_port,
        endpoint@.container_port == endpoint.container_port,
        endpoint@.url == endpoint.url@,
{
}

} // verus!
