use docker_git_android_connection::adb::{
    container_targeted_adb_args, host_targeted_adb_args, should_add_container_serial,
    should_add_host_serial,
    launch_app_adb_args, parse_adb_mode, proxied_exit_code, shell_join, shell_quote, AdbMode,
    JobStep, Program,
};
use docker_git_android_connection::docker_command::{
    command_error, docker_error, docker_status_error, ProcessOutput,
};
use docker_git_android_connection::json::Json;
use docker_git_android_connection::lifecycle::{
    adb, adb_failure, install_apk, launch_app, start, status, stop, with_docker_args, AdbArgs,
    AdbPlan, AndroidConnectionArgs, InstallApkArgs, LaunchAppArgs, LifecycleArgs, PortSearch,
    PortStep, StartAction, StartEvent, StartPlan, StartStep, StatusPlan, StopPlan, DEFAULT_ADB_MODE,
    DEFAULT_NETWORK,
};
use docker_git_android_connection::phone::{
    phone, phone_attachment_path, PhoneAdbArgs, PhoneArgs, PhoneCommand, PhonePlan,
};
use docker_git_android_connection::settings::{
    parse_cpus, parse_docker_size, parse_no_vnc_port, parse_runtime_profile, CpuNumber,
};
use docker_git_android_connection::web::{parse_web_port, web, WebArgs, WebPlan};
use docker_git_android_connection::{
    DEFAULT_ADB_ENDPOINT, DEFAULT_ANDROID_CPUS, DEFAULT_ANDROID_IMAGE, DEFAULT_ANDROID_MEMORY_LIMIT,
    DEFAULT_ANDROID_MEMORY_SWAP_LIMIT, DEFAULT_ANDROID_RUNTIME_PROFILE, DEFAULT_NOVNC_HOST,
    DEFAULT_NOVNC_PORT,
};
use serde_json::Value;

fn connection(endpoint: &str) -> AndroidConnectionArgs {
    AndroidConnectionArgs {
        network: DEFAULT_NETWORK.to_string(),
        endpoint: endpoint.to_string(),
        image: DEFAULT_ANDROID_IMAGE.to_string(),
    }
}

fn lifecycle_args(endpoint: &str) -> LifecycleArgs {
    LifecycleArgs {
        connection: connection(endpoint),
        memory: parse_docker_size(DEFAULT_ANDROID_MEMORY_LIMIT).unwrap(),
        memory_swap: parse_docker_size(DEFAULT_ANDROID_MEMORY_SWAP_LIMIT).unwrap(),
        cpus: parse_cpus(DEFAULT_ANDROID_CPUS, CpuNumber::Positive).unwrap(),
        runtime_profile: parse_runtime_profile(DEFAULT_ANDROID_RUNTIME_PROFILE).unwrap(),
        novnc_bind_host: DEFAULT_NOVNC_HOST.to_string(),
        novnc_host: DEFAULT_NOVNC_HOST.to_string(),
        novnc_port: DEFAULT_NOVNC_PORT,
        no_novnc_publish: false,
        dry_run: false,
    }
}

fn printed(json: &Json) -> Value {
    serde_json::from_str(&json.pretty()).expect("printed JSON")
}

fn strings(value: &Value) -> Vec<&str> {
    value
        .as_array()
        .expect("JSON value is an array")
        .iter()
        .map(|entry| entry.as_str().expect("JSON array entry is a string"))
        .collect()
}

fn texts(values: &[&str]) -> Vec<String> {
    values.iter().map(|value| value.to_string()).collect()
}

fn output(code: Option<i32>, stdout: &str, stderr: &str) -> ProcessOutput {
    ProcessOutput {
        code,
        stdout: stdout.as_bytes().to_vec(),
        stderr: stderr.as_bytes().to_vec(),
    }
}

fn dry_start(args: &LifecycleArgs) -> Value {
    match start("dg-test", args).expect("start plan") {
        StartPlan::Print(json) => printed(&json),
        StartPlan::Run(_) => panic!("dry run runs"),
    }
}

fn status_without_docker(args: &LifecycleArgs) -> Value {
    match status("dg-test", args).expect("status plan") {
        StatusPlan::Print(json) => printed(&json),
        StatusPlan::Ask(job) => {
            assert_eq!(job.docker_args(), ["port", "dg-test-android", "6081/tcp"]);
            printed(&job.finish(Err("no such file".to_string())))
        }
    }
}

fn has_pair(args: &[&str], first: &str, second: &str) -> bool {
    args.windows(2).any(|window| window == [first, second])
}

#[test]
fn lifecycle_cli_renders_status_json() {
    let mut args = lifecycle_args("dg-test-android:5555");
    args.novnc_port = parse_no_vnc_port("16080").unwrap();
    let json = status_without_docker(&args);

    assert_eq!(json["projectId"], "dg-test");
    assert_eq!(json["androidContainerName"], "dg-test-android");
    assert_eq!(
        json["noVncUrl"],
        "http://127.0.0.1:16080/?autoconnect=true&resize=remote"
    );
    assert_eq!(json["noVncPublished"], true);
    assert_eq!(json["resourceLimits"]["memory"], "3g");
    assert_eq!(json["resourceLimits"]["memorySwap"], "3g");
    assert_eq!(json["resourceLimits"]["cpus"], "1.0");
    assert_eq!(json["runtime"]["profile"], "interactive");
    assert_eq!(json["runtime"]["emulatorHeadless"], false);
}

#[test]
fn lifecycle_cli_can_disable_no_vnc_publication() {
    let mut args = lifecycle_args("dg-test-android:5555");
    args.no_novnc_publish = true;
    assert!(matches!(status("dg-test", &args), Ok(StatusPlan::Print(_))));
    let json = status_without_docker(&args);

    assert_eq!(json["projectId"], "dg-test");
    assert_eq!(json["noVncPublished"], false);
    assert!(json["noVncUrl"].is_null());
}

#[test]
fn start_dry_run_includes_publish_and_no_vnc_url_json() {
    let mut args = lifecycle_args("dg-test-android:5555");
    args.novnc_port = parse_no_vnc_port("16080").unwrap();
    args.dry_run = true;
    let json = dry_start(&args);
    let docker_args = strings(&json["docker"]);
    let publish_position = docker_args
        .iter()
        .position(|argument| *argument == "--publish")
        .expect("publish flag");
    let image_position = docker_args
        .iter()
        .position(|argument| *argument == "budtmo/docker-android:emulator_14.0")
        .expect("image argument");

    assert!(publish_position < image_position);
    assert!(docker_args
        .get(image_position + 1)
        .is_some_and(|argument| argument.contains("socat TCP-LISTEN:6081")));
    assert_eq!(
        docker_args.get(publish_position + 1),
        Some(&"127.0.0.1:16080:6081")
    );
    assert!(has_pair(&docker_args, "--memory", "3g"));
    assert!(has_pair(&docker_args, "--memory-swap", "3g"));
    assert!(has_pair(&docker_args, "--cpus", "1.0"));
    assert_eq!(
        json["noVncUrl"],
        "http://127.0.0.1:16080/?autoconnect=true&resize=remote"
    );
    assert_eq!(json["resourceLimits"]["memory"], "3g");
    assert_eq!(json["resourceLimits"]["memorySwap"], "3g");
    assert_eq!(json["resourceLimits"]["cpus"], "1.0");
    assert_eq!(json["runtime"]["profile"], "interactive");
}

#[test]
fn start_dry_run_accepts_custom_resource_limits() {
    let mut args = lifecycle_args("dg-test-android:5555");
    args.memory = parse_docker_size("4g").unwrap();
    args.memory_swap = parse_docker_size("4g").unwrap();
    args.cpus = parse_cpus("2.0", CpuNumber::Positive).unwrap();
    args.dry_run = true;
    let json = dry_start(&args);
    let docker_args = strings(&json["docker"]);

    assert!(has_pair(&docker_args, "--memory", "4g"));
    assert!(has_pair(&docker_args, "--memory-swap", "4g"));
    assert!(has_pair(&docker_args, "--cpus", "2.0"));
    assert_eq!(json["resourceLimits"]["memory"], "4g");
    assert_eq!(json["resourceLimits"]["memorySwap"], "4g");
    assert_eq!(json["resourceLimits"]["cpus"], "2.0");
}

#[test]
fn start_dry_run_supports_app_test_runtime_profile() {
    let mut args = lifecycle_args("dg-test-android:5555");
    args.runtime_profile = parse_runtime_profile("app-test").unwrap();
    args.dry_run = true;
    let json = dry_start(&args);
    let docker_args = strings(&json["docker"]);

    assert_eq!(json["runtime"]["profile"], "app-test");
    assert_eq!(json["runtime"]["emulatorHeadless"], true);
    assert_eq!(json["noVncPublished"], false);
    assert!(json["noVncUrl"].is_null());
    assert!(!docker_args.contains(&"--publish"));
    assert!(has_pair(&docker_args, "--env", "EMULATOR_HEADLESS=true"));
    assert!(has_pair(&docker_args, "--env", "APPIUM=false"));
    assert!(has_pair(&docker_args, "--env", "WEB_LOG=false"));
    assert!(has_pair(&docker_args, "--env", "WEB_VNC=false"));
    assert!(docker_args
        .last()
        .is_some_and(|argument| argument.contains("hw.gsmModem = no")));
}

#[test]
fn start_dry_run_supports_app_test_vnc_runtime_profile() {
    let mut args = lifecycle_args("dg-test-android:5555");
    args.runtime_profile = parse_runtime_profile("app-test-vnc").unwrap();
    args.novnc_port = parse_no_vnc_port("16080").unwrap();
    args.dry_run = true;
    let json = dry_start(&args);
    let docker_args = strings(&json["docker"]);

    assert_eq!(json["runtime"]["profile"], "app-test-vnc");
    assert_eq!(json["runtime"]["emulatorHeadless"], false);
    assert_eq!(json["runtime"]["appiumEnabled"], false);
    assert_eq!(json["runtime"]["webLogEnabled"], false);
    assert_eq!(json["runtime"]["webVncEnabled"], true);
    assert_eq!(json["noVncPublished"], true);
    assert_eq!(
        json["noVncUrl"],
        "http://127.0.0.1:16080/?autoconnect=true&resize=remote"
    );
    assert!(has_pair(&docker_args, "--publish", "127.0.0.1:16080:6081"));
    assert!(has_pair(&docker_args, "--env", "EMULATOR_HEADLESS=false"));
    assert!(has_pair(&docker_args, "--env", "WEB_VNC=true"));
    assert!(docker_args
        .last()
        .is_some_and(|argument| argument.contains("socat TCP-LISTEN:6081")));
    assert!(docker_args
        .last()
        .is_some_and(|argument| argument.contains("hw.gsmModem = no")));
}

#[test]
fn lifecycle_cli_rejects_invalid_no_vnc_port() {
    let error = parse_no_vnc_port("0").unwrap_err();
    assert!(error.contains("noVNC port must be in 1..=65535"));
    assert_eq!(
        parse_no_vnc_port("70000").unwrap_err(),
        "invalid noVNC port \"70000\": number too large to fit in target type"
    );
    assert_eq!(
        parse_no_vnc_port("x").unwrap_err(),
        "invalid noVNC port \"x\": invalid digit found in string"
    );
}

#[test]
fn lifecycle_cli_rejects_invalid_cpu_limit() {
    let error = parse_cpus("0", CpuNumber::Other).unwrap_err();
    assert!(error.contains("CPU limit must be a positive finite number"));
    assert_eq!(
        parse_cpus("x", CpuNumber::Invalid("invalid float literal".to_string())).unwrap_err(),
        "invalid CPU limit \"x\": invalid float literal"
    );
}

#[test]
fn lifecycle_cli_rejects_invalid_runtime_profile() {
    let error = parse_runtime_profile("unknown").unwrap_err();
    assert!(error.contains("runtime profile must be one of"));
    assert_eq!(
        error,
        "runtime profile must be one of: interactive, app-test, app-test-vnc"
    );
    let mut args = lifecycle_args("a:1");
    args.runtime_profile = "unknown".to_string();
    assert_eq!(
        start("dg-test", &args).unwrap_err(),
        "invalid runtime profile \"unknown\""
    );
    assert!(status("dg-test", &args).is_err());
    assert!(stop("dg-test", &args).is_err());
}

#[test]
fn web_dry_run_renders_browser_connector_json() {
    let plan = web(&WebArgs {
        bind_host: "0.0.0.0".to_string(),
        port: parse_web_port("18080").unwrap(),
        dry_run: true,
    });
    let json = match plan {
        WebPlan::Print(json) => printed(&json),
        WebPlan::Serve(_) => panic!("dry run serves"),
    };

    assert_eq!(json["bindHost"], "0.0.0.0");
    assert_eq!(json["port"], 18080);
    assert_eq!(json["url"], "http://127.0.0.1:18080/");
    assert_eq!(json["requiresAdb"], false);
    assert_eq!(json["requiresBrowser"], "Chromium WebUSB");
    assert_eq!(json["secureContext"], "localhost-or-https");
    assert_eq!(json["phoneBridge"], true);
}

#[test]
fn web_cli_rejects_invalid_port() {
    let error = parse_web_port("0").unwrap_err();
    assert!(error.contains("web port must be in 1..=65535"));
    assert_eq!(
        parse_web_port("").unwrap_err(),
        "invalid web port \"\": cannot parse integer from empty string"
    );
}

#[test]
fn phone_adb_dry_run_renders_browser_bridge_json() {
    let args = PhoneArgs {
        url: "http://127.0.0.1:18080".to_string(),
        command: PhoneCommand::Adb(PhoneAdbArgs {
            dry_run: true,
            args: texts(&["shell", "getprop", "ro.product.model"]),
        }),
    };
    let json = match phone(&args, false).expect("phone plan") {
        PhonePlan::Print(json) => printed(&json),
        PhonePlan::Run(_) => panic!("dry run runs"),
    };
    let adb_args = strings(&json["args"]);

    assert_eq!(json["url"], "http://127.0.0.1:18080");
    assert_eq!(json["kind"], "adb");
    assert_eq!(json["transport"], "browser-webusb-bridge");
    assert_eq!(adb_args, ["shell", "getprop", "ro.product.model"]);
    assert!(json["filePath"].is_null());
}

#[test]
fn phone_installs_need_a_file() {
    let install = |args: &[&str]| PhoneArgs {
        url: "http://h".to_string(),
        command: PhoneCommand::Adb(PhoneAdbArgs {
            dry_run: true,
            args: texts(args),
        }),
    };
    assert_eq!(
        phone(&install(&["install", "-r"]), true).unwrap_err(),
        "adb install requires a final APK path argument"
    );
    assert_eq!(
        phone(&install(&["install", "-r", "a.apk"]), false).unwrap_err(),
        "APK file not found: a.apk"
    );
    match phone(&install(&["install", "-r", "a.apk"]), true) {
        Ok(PhonePlan::Print(json)) => assert_eq!(printed(&json)["filePath"], "a.apk"),
        other => panic!("unexpected plan {other:?}"),
    }
    assert_eq!(
        phone_attachment_path(&texts(&["install", "-r", "a.apk"])),
        Some("a.apk".to_string())
    );
    assert_eq!(phone_attachment_path(&texts(&["install", "-r"])), None);
    assert_eq!(phone_attachment_path(&texts(&["push", "a.apk"])), None);
    assert_eq!(phone_attachment_path(&[]), None);
}

#[test]
fn lifecycle_cli_rejects_invalid_endpoint() {
    let args = lifecycle_args("$(whoami):5555");
    let error = status("dg-test", &args).unwrap_err();
    assert!(error.contains("invalid ADB endpoint"));
    assert!(start("dg-test", &args).is_err());
    assert!(stop("dg-test", &args).is_err());
    assert!(adb("dg-test", &adb_args("$(whoami):5555", &[])).is_err());
}

fn adb_args(endpoint: &str, args: &[&str]) -> AdbArgs {
    AdbArgs {
        connection: connection(endpoint),
        adb_mode: parse_adb_mode(DEFAULT_ADB_MODE).unwrap(),
        dry_run: true,
        args: texts(args),
    }
}

fn dry_adb(endpoint: &str, args: &[&str]) -> Value {
    match adb("dg-test", &adb_args(endpoint, args)).expect("adb plan") {
        AdbPlan::Print(json) => printed(&json),
        AdbPlan::Run(_) => panic!("dry run runs"),
    }
}

#[test]
fn adb_dry_run_proxies_to_container_by_default() {
    let json = dry_adb(
        "dg-test-android:5555",
        &["shell", "getprop", "sys.boot_completed"],
    );
    let host = strings(&json["host"]);
    let container = strings(&json["container"]);

    assert_eq!(json["adbMode"], "container");
    assert_eq!(
        host,
        [
            "sh",
            "-c",
            "adb connect 'dg-test-android:5555' && adb 'shell' 'getprop' 'sys.boot_completed'",
        ]
    );
    assert_eq!(
        container,
        [
            "docker",
            "exec",
            "dg-test-android",
            "adb",
            "shell",
            "getprop",
            "sys.boot_completed",
        ]
    );
}

#[test]
fn adb_dry_run_accepts_empty_adb_invocation() {
    let json = dry_adb(DEFAULT_ADB_ENDPOINT, &[]);
    let host = strings(&json["host"]);
    let container = strings(&json["container"]);

    assert_eq!(host, ["sh", "-c", "adb connect 'android:5555' && adb"]);
    assert_eq!(container, ["docker", "exec", "dg-test-android", "adb"]);
}

#[test]
fn adb_dry_run_passes_help_to_container_adb() {
    let json = dry_adb(DEFAULT_ADB_ENDPOINT, &["--help"]);
    let container = strings(&json["container"]);

    assert_eq!(
        container,
        ["docker", "exec", "dg-test-android", "adb", "--help"]
    );
}

#[test]
fn adb_dry_run_passes_version_to_container_adb() {
    let json = dry_adb(DEFAULT_ADB_ENDPOINT, &["--version"]);
    let container = strings(&json["container"]);

    assert_eq!(
        container,
        ["docker", "exec", "dg-test-android", "adb", "--version"]
    );
}

#[test]
fn install_apk_dry_run_copies_apk_for_container_mode() {
    let args = InstallApkArgs {
        connection: connection(DEFAULT_ADB_ENDPOINT),
        adb_mode: parse_adb_mode(DEFAULT_ADB_MODE).unwrap(),
        dry_run: true,
        path: "app/build/app.apk".to_string(),
    };
    let json = match install_apk("dg-test", &args).expect("install plan") {
        AdbPlan::Print(json) => printed(&json),
        AdbPlan::Run(_) => panic!("dry run runs"),
    };
    let container_copy = strings(&json["containerCopy"]);
    let container = strings(&json["container"]);

    assert_eq!(json["adbMode"], "container");
    assert_eq!(
        container_copy,
        [
            "cp",
            "app/build/app.apk",
            "dg-test-android:/tmp/docker-git-install.apk",
        ]
    );
    assert_eq!(
        container,
        [
            "docker",
            "exec",
            "dg-test-android",
            "adb",
            "-s",
            "emulator-5554",
            "install",
            "/tmp/docker-git-install.apk",
        ]
    );
    assert_eq!(
        strings(&json["host"])[2],
        "adb connect 'android:5555' && adb '-s' 'android:5555' 'install' 'app/build/app.apk'"
    );
}

#[test]
fn launch_app_dry_run_renders_monkey_command() {
    let args = LaunchAppArgs {
        connection: connection(DEFAULT_ADB_ENDPOINT),
        adb_mode: parse_adb_mode(DEFAULT_ADB_MODE).unwrap(),
        dry_run: true,
        package_name: "com.example.app".to_string(),
        activity: None,
    };
    let json = match launch_app("dg-test", &args).expect("launch plan") {
        AdbPlan::Print(json) => printed(&json),
        AdbPlan::Run(_) => panic!("dry run runs"),
    };
    let container = strings(&json["container"]);

    assert_eq!(
        container,
        [
            "docker",
            "exec",
            "dg-test-android",
            "adb",
            "-s",
            "emulator-5554",
            "shell",
            "monkey",
            "-p",
            "com.example.app",
            "-c",
            "android.intent.category.LAUNCHER",
            "1",
        ]
    );
}

#[test]
fn adb_dry_run_preserves_explicit_serial() {
    let json = dry_adb(
        DEFAULT_ADB_ENDPOINT,
        &["-s", "custom-device", "shell", "getprop", "ro.product.model"],
    );
    let container = strings(&json["container"]);

    assert_eq!(
        container,
        [
            "docker",
            "exec",
            "dg-test-android",
            "adb",
            "-s",
            "custom-device",
            "shell",
            "getprop",
            "ro.product.model",
        ]
    );
}

#[test]
fn adb_dry_run_preserves_hyphenated_adb_arguments() {
    let json = dry_adb(
        DEFAULT_ADB_ENDPOINT,
        &[
            "shell",
            "monkey",
            "-p",
            "com.example.app",
            "-c",
            "android.intent.category.LAUNCHER",
            "1",
        ],
    );
    let container = strings(&json["container"]);

    assert_eq!(
        container,
        [
            "docker",
            "exec",
            "dg-test-android",
            "adb",
            "shell",
            "monkey",
            "-p",
            "com.example.app",
            "-c",
            "android.intent.category.LAUNCHER",
            "1",
        ]
    );
}

#[test]
fn adb_cli_rejects_invalid_adb_mode() {
    let error = parse_adb_mode("remote").unwrap_err();
    assert!(error.contains("ADB mode must be one of: auto, host, container"));
    for mode in [AdbMode::Auto, AdbMode::Host, AdbMode::Container] {
        assert_eq!(parse_adb_mode(mode.as_str()), Ok(mode));
    }
}

#[test]
fn docker_sizes_are_numbers_with_units() {
    assert_eq!(parse_docker_size(" 512m "), Ok("512m".to_string()));
    assert_eq!(parse_docker_size("1024"), Ok("1024".to_string()));
    assert_eq!(parse_docker_size("1GB"), Ok("1GB".to_string()));
    assert_eq!(
        parse_docker_size("  "),
        Err("Docker size must not be empty".to_string())
    );
    assert_eq!(
        parse_docker_size("g4"),
        Err("Docker size \"g4\" must start with a number".to_string())
    );
    assert_eq!(
        parse_docker_size("4Gb"),
        Err("Docker size \"4Gb\" must use bytes or b/k/m/g suffix".to_string())
    );
    let size = parse_docker_size("\t7k\n").unwrap();
    assert_eq!(parse_docker_size(&size), Ok(size.clone()));
}

#[test]
fn quoted_words_survive_a_shell() {
    assert_eq!(shell_quote("it's"), "'it'\"'\"'s'");
    assert_eq!(shell_quote(""), "''");
    assert_eq!(shell_join(&texts(&["a b", "$x"])), "'a b' '$x'");
}

#[test]
fn an_activity_is_started_by_name() {
    assert_eq!(
        launch_app_adb_args("com.app", Some(".Main")),
        ["shell", "am", "start", "-n", "com.app/.Main"]
    );
    assert_eq!(
        launch_app_adb_args("com.app", Some("")),
        launch_app_adb_args("com.app", None)
    );
}

#[test]
fn automatic_jobs_fall_back() {
    let mut args = adb_args("a:1", &["devices"]);
    args.dry_run = false;
    args.adb_mode = AdbMode::Auto;
    let probing = match adb("p", &args) {
        Ok(AdbPlan::Run(job)) => job,
        other => panic!("unexpected plan {other:?}"),
    };
    assert_eq!(
        probing.command(),
        (Program::Adb, texts(&["connect", "a:1"]))
    );
    let inside = match probing.advance(Err("adb not found".to_string())) {
        JobStep::Next(job) => job,
        _ => panic!("no fallback"),
    };
    assert_eq!(
        inside.command(),
        (Program::Docker, texts(&["exec", "p-android", "adb", "devices"]))
    );
    match inside.advance(Ok(output(None, "o", "e"))) {
        JobStep::Done(left) => {
            assert_eq!(left.stdout, b"o");
            assert_eq!(proxied_exit_code(&left), 1);
            assert_eq!(
                adb_failure("adb launch", &left),
                Some("adb launch failed with status None\nstdout:\no\nstderr:\ne".to_string())
            );
        }
        _ => panic!("not done"),
    }
}

#[test]
fn automatic_jobs_stay_on_the_host_that_connects() {
    let args = LaunchAppArgs {
        connection: connection("a:1"),
        adb_mode: AdbMode::Auto,
        dry_run: false,
        package_name: "q".to_string(),
        activity: Some(".A".to_string()),
    };
    let mut job = match launch_app("p", &args) {
        Ok(AdbPlan::Run(job)) => job,
        other => panic!("unexpected plan {other:?}"),
    };
    for _ in 0..2 {
        assert_eq!(job.command().1, ["connect", "a:1"]);
        job = match job.advance(Ok(output(Some(0), "", ""))) {
            JobStep::Next(job) => job,
            _ => panic!("job ended"),
        };
    }
    assert_eq!(
        job.command(),
        (
            Program::Adb,
            texts(&["-s", "a:1", "shell", "am", "start", "-n", "q/.A"])
        )
    );
}

#[test]
fn host_jobs_end_where_nothing_connects() {
    let mut args = adb_args("a:1", &["devices"]);
    args.dry_run = false;
    args.adb_mode = AdbMode::Host;
    let job = match adb("p", &args) {
        Ok(AdbPlan::Run(job)) => job,
        other => panic!("unexpected plan {other:?}"),
    };
    match job.advance(Ok(output(Some(1), " out ", "err\n"))) {
        JobStep::Failed(message) => assert_eq!(
            message,
            "adb connect failed with status Some(1)\nstdout:\nout\nstderr:\nerr"
        ),
        _ => panic!("job goes on"),
    }
}

#[test]
fn installs_copy_first() {
    let args = InstallApkArgs {
        connection: connection("a:1"),
        adb_mode: AdbMode::Container,
        dry_run: false,
        path: "x.apk".to_string(),
    };
    let plan = |args: &InstallApkArgs| match install_apk("p", args) {
        Ok(AdbPlan::Run(job)) => job,
        other => panic!("unexpected plan {other:?}"),
    };
    let copying = plan(&args);
    assert_eq!(
        copying.command(),
        (
            Program::Docker,
            texts(&["cp", "x.apk", "p-android:/tmp/docker-git-install.apk"])
        )
    );
    match copying.advance(Ok(output(Some(0), "", ""))) {
        JobStep::Next(job) => assert_eq!(
            job.command().1,
            [
                "exec",
                "p-android",
                "adb",
                "-s",
                "emulator-5554",
                "install",
                "/tmp/docker-git-install.apk"
            ]
        ),
        _ => panic!("job ended"),
    }
    match plan(&args).advance(Ok(output(Some(2), "", "denied"))) {
        JobStep::Failed(message) => assert_eq!(
            message,
            "docker cp x.apk p-android:/tmp/docker-git-install.apk failed with status Some(2)\nstdout:\n\nstderr:\ndenied"
        ),
        _ => panic!("job goes on"),
    }
}

#[test]
fn a_start_looks_for_a_port_and_an_image() {
    let args = lifecycle_args("a:1");
    let mut job = match start("p", &args) {
        Ok(StartPlan::Run(job)) => job,
        other => panic!("unexpected plan {other:?}"),
    };
    match job.action() {
        StartAction::TryPort(host, port) => assert_eq!((host.as_str(), port), ("127.0.0.1", 6080)),
        other => panic!("unexpected action {other:?}"),
    }
    for event in [
        StartEvent::Port(false),
        StartEvent::Port(true),
        StartEvent::Output(Err("no docker".to_string())),
        StartEvent::Streamed(Ok(Some(0))),
    ] {
        job = match job.advance(event) {
            StartStep::Next(job) => job,
            other => panic!("unexpected step {other:?}"),
        };
    }
    match job.action() {
        StartAction::Docker(args) => {
            assert!(args.contains(&"127.0.0.1:6081:6081".to_string()));
            assert_eq!(args[0], "run");
        }
        other => panic!("unexpected action {other:?}"),
    }
    match job.advance(StartEvent::Output(Ok(output(Some(0), "abc\n", "")))) {
        StartStep::Print(json) => {
            let json = printed(&json);
            assert_eq!(json["containerId"], "abc");
            assert_eq!(json["noVncPort"], 6081);
            assert!(json["removed"].is_null());
        }
        other => panic!("unexpected step {other:?}"),
    }
}

#[test]
fn a_start_ends_with_the_error_of_docker() {
    let mut args = lifecycle_args("a:1");
    args.no_novnc_publish = true;
    let begin = || match start("p", &args) {
        Ok(StartPlan::Run(job)) => job,
        other => panic!("unexpected plan {other:?}"),
    };
    match begin().action() {
        StartAction::Docker(args) => assert_eq!(args, ["image", "inspect", DEFAULT_ANDROID_IMAGE]),
        other => panic!("unexpected action {other:?}"),
    }
    let pulling = match begin().advance(StartEvent::Output(Ok(output(Some(1), "", "")))) {
        StartStep::Next(job) => job,
        other => panic!("unexpected step {other:?}"),
    };
    match pulling.action() {
        StartAction::StreamDocker(args) => assert_eq!(args, ["pull", DEFAULT_ANDROID_IMAGE]),
        other => panic!("unexpected action {other:?}"),
    }
    match pulling.advance(StartEvent::Streamed(Ok(None))) {
        StartStep::Failed(message) => assert_eq!(
            message,
            format!("docker pull {DEFAULT_ANDROID_IMAGE} failed with status None")
        ),
        other => panic!("unexpected step {other:?}"),
    }
    let running = match begin().advance(StartEvent::Output(Ok(output(Some(0), "", "")))) {
        StartStep::Next(job) => job,
        other => panic!("unexpected step {other:?}"),
    };
    match running.advance(StartEvent::Output(Ok(output(Some(125), "", "name taken")))) {
        StartStep::Failed(message) => {
            assert!(message.starts_with("docker run --detach --name p-android"));
            assert!(message.ends_with("failed with status Some(125)\nstdout:\n\nstderr:\nname taken"));
        }
        other => panic!("unexpected step {other:?}"),
    }
}

#[test]
fn a_dry_run_shows_the_arguments_of_the_start() {
    let mut args = lifecycle_args("a:1");
    args.dry_run = true;
    let shown = dry_start(&args);
    args.dry_run = false;
    let mut job = match start("dg-test", &args) {
        Ok(StartPlan::Run(job)) => job,
        other => panic!("unexpected plan {other:?}"),
    };
    for event in [
        StartEvent::Port(true),
        StartEvent::Output(Ok(output(Some(0), "", ""))),
    ] {
        job = match job.advance(event) {
            StartStep::Next(job) => job,
            other => panic!("unexpected step {other:?}"),
        };
    }
    match job.action() {
        StartAction::Docker(args) => assert_eq!(strings(&shown["docker"]), args),
        other => panic!("unexpected action {other:?}"),
    }
}

#[test]
fn ports_are_tried_in_order() {
    let mut search = PortSearch::new(65500);
    for port in 65500..65535u16 {
        assert_eq!(search.next, port);
        search = match search.advance("h", false) {
            PortStep::Next(search) => search,
            other => panic!("unexpected step {other:?}"),
        };
    }
    assert!(matches!(search.advance("h", true), PortStep::Found(65535)));
    match search.advance("h", false) {
        PortStep::Failed(message) => assert_eq!(
            message,
            "no free noVNC port on h in range 65500..=65535"
        ),
        other => panic!("unexpected step {other:?}"),
    }
    let mut tried = 1;
    let mut search = PortSearch::new(6080);
    while let PortStep::Next(next) = search.advance("h", false) {
        search = next;
        tried += 1;
    }
    assert_eq!(tried, 100);
}

#[test]
fn status_believes_docker_first() {
    let args = lifecycle_args("a:1");
    let ask = || match status("p", &args) {
        Ok(StatusPlan::Ask(job)) => job,
        other => panic!("unexpected plan {other:?}"),
    };
    let told = printed(&ask().finish(Ok(output(Some(0), "0.0.0.0:7777\n", ""))));
    assert_eq!(told["noVncPort"], 7777);
    assert_eq!(told["noVncBindHost"], "0.0.0.0");
    assert_eq!(told["noVncHost"], "127.0.0.1");
    assert_eq!(told["noVncContainerPort"], 6081);
    let failed = printed(&ask().finish(Ok(output(Some(1), "0.0.0.0:7777\n", ""))));
    assert_eq!(failed["noVncPort"], 6080);
}

#[test]
fn a_stop_removes_the_container() {
    let mut args = lifecycle_args("a:1");
    args.dry_run = true;
    match stop("p", &args) {
        Ok(StopPlan::Print(json)) => {
            let json = printed(&json);
            assert_eq!(strings(&json["docker"]), ["rm", "--force", "p-android"]);
            assert!(json["removed"].is_null());
        }
        other => panic!("unexpected plan {other:?}"),
    }
    args.dry_run = false;
    let begin = || match stop("p", &args) {
        Ok(StopPlan::Run(job)) => job,
        other => panic!("unexpected plan {other:?}"),
    };
    assert_eq!(begin().docker_args(), ["rm", "--force", "p-android"]);
    let json = begin().finish(Ok(output(Some(0), "", ""))).unwrap();
    assert_eq!(printed(&json)["removed"], true);
    assert_eq!(
        begin().finish(Ok(output(Some(1), "", "gone"))).unwrap_err(),
        "docker rm --force p-android failed with status Some(1)\nstdout:\n\nstderr:\ngone"
    );
    assert_eq!(
        begin().finish(Err("no docker".to_string())).unwrap_err(),
        "no docker"
    );
}

#[test]
fn docker_arguments_are_added_to_objects_only() {
    assert_eq!(
        with_docker_args(Json::Bool(true), &texts(&["x"])),
        Json::Bool(true)
    );
    let whole = with_docker_args(Json::Object(Vec::new()), &texts(&["x"]));
    assert_eq!(whole.compact(), "{\"docker\":[\"x\"]}");
}

#[test]
fn failures_are_reported_in_full() {
    let left = ProcessOutput {
        code: Some(-9),
        stdout: b"\xff ok \n".to_vec(),
        stderr: b"".to_vec(),
    };
    assert_eq!(
        command_error("x", &left),
        "x failed with status Some(-9)\nstdout:\n\u{fffd} ok\nstderr:\n"
    );
    assert_eq!(
        docker_error(&texts(&["a", "b"]), &left),
        "docker a b failed with status Some(-9)\nstdout:\n\u{fffd} ok\nstderr:\n"
    );
    assert_eq!(
        docker_status_error(&texts(&["pull", "i"]), Some(1)),
        "docker pull i failed with status Some(1)"
    );
}

#[test]
fn devices_are_named_once() {
    let install = texts(&["install", "a.apk"]);
    let named = host_targeted_adb_args("a:1", &install);
    assert_eq!(named, ["-s", "a:1", "install", "a.apk"]);
    assert_eq!(host_targeted_adb_args("b:2", &named), named);
    assert!(should_add_host_serial(&install));
    for own in [&["devices"][..], &["shell", "-s"], &["-s", "x", "shell"]] {
        assert!(!should_add_container_serial(&texts(own)));
        assert_eq!(host_targeted_adb_args("a:1", &texts(own)), own);
    }
    assert_eq!(
        container_targeted_adb_args("c", &texts(&["devices"])),
        ["exec", "c", "adb", "devices"]
    );
    assert!(should_add_container_serial(&[]));
}
