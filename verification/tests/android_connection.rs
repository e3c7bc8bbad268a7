use docker_git_android_connection::{
    android_container_name, android_resource_limits, android_runtime_options, android_spec,
    android_volume_name, docker_stop_args, is_safe_adb_endpoint, app_test_runtime_options,
    app_test_vnc_runtime_options, default_android_resource_limits, docker_run_args,
    interactive_runtime_options, no_vnc_endpoint, normalize_project_id, parse_docker_no_vnc_port,
    validate_adb_endpoint, RuntimeSwitch, APP_TEST_ANDROID_RUNTIME_PROFILE,
    APP_TEST_VNC_ANDROID_RUNTIME_PROFILE, DEFAULT_ANDROID_CPUS, DEFAULT_ANDROID_IMAGE,
    DEFAULT_ANDROID_MEMORY_LIMIT, DEFAULT_ANDROID_MEMORY_SWAP_LIMIT,
    DEFAULT_ANDROID_RUNTIME_PROFILE, DEFAULT_NOVNC_HOST, DEFAULT_NOVNC_PORT, DEFAULT_PROJECT_ID,
};

#[test]
fn android_connection_normalizes_project_id_to_docker_safe_name() {
    assert_eq!(
        normalize_project_id("Org/Repo:Feature_X"),
        "org-repo-feature-x"
    );
    assert_eq!(normalize_project_id("///"), DEFAULT_PROJECT_ID);
}

#[test]
fn android_connection_rejects_shell_fragments_in_adb_endpoint() {
    assert!(validate_adb_endpoint("dg-test-android:5555").is_ok());
    assert!(validate_adb_endpoint("dg-test-android:5555;touch /tmp/pwn").is_err());
    assert!(validate_adb_endpoint("$(whoami):5555").is_err());
}

#[test]
fn android_connection_builds_deterministic_android_spec() {
    let spec = android_spec(
        "dg-test",
        "docker-git-shared",
        "dg-test-android:5555",
        DEFAULT_ANDROID_IMAGE,
    )
    .expect("valid spec");

    assert_eq!(spec.project_container_name, "dg-test");
    assert_eq!(spec.android_container_name, "dg-test-android");
    assert_eq!(spec.android_volume_name, "dg-test-home-android");
}

#[test]
fn docker_run_args_expose_no_vnc_on_host_port() {
    let spec = android_spec(
        "dg-test",
        "docker-git-shared",
        "dg-test-android:5555",
        DEFAULT_ANDROID_IMAGE,
    )
    .expect("valid spec");
    let no_vnc = no_vnc_endpoint(DEFAULT_NOVNC_HOST, DEFAULT_NOVNC_HOST, DEFAULT_NOVNC_PORT);
    let resource_limits = default_android_resource_limits();
    let runtime_options = interactive_runtime_options();

    let args = docker_run_args(&spec, Some(&no_vnc), &resource_limits, &runtime_options);

    assert!(args
        .windows(2)
        .any(|window| window == ["--publish", "127.0.0.1:6080:6081"]));
    assert!(args
        .last()
        .is_some_and(|argument| argument.contains("socat TCP-LISTEN:6081")));
    assert!(args
        .last()
        .is_some_and(|argument| argument.contains("hw.gsmModem = no")));
    assert!(args
        .windows(2)
        .any(|window| window == ["--memory", DEFAULT_ANDROID_MEMORY_LIMIT]));
    assert!(args
        .windows(2)
        .any(|window| window == ["--memory-swap", DEFAULT_ANDROID_MEMORY_SWAP_LIMIT]));
    assert!(args
        .windows(2)
        .any(|window| window == ["--cpus", DEFAULT_ANDROID_CPUS]));
    assert!(args
        .windows(2)
        .any(|window| window == ["--env", "EMULATOR_HEADLESS=false"]));
    assert!(args
        .windows(2)
        .any(|window| window == ["--env", "APPIUM=false"]));
    assert!(args
        .windows(2)
        .any(|window| window == ["--env", "WEB_LOG=false"]));
    assert!(args
        .windows(2)
        .any(|window| window == ["--env", "WEB_VNC=true"]));
    assert!(args
        .windows(2)
        .any(|window| window == ["--env", "WEB_VNC_PORT=6080"]));
}

#[test]
fn docker_run_args_can_disable_no_vnc_publication() {
    let spec = android_spec(
        "dg-test",
        "docker-git-shared",
        "dg-test-android:5555",
        DEFAULT_ANDROID_IMAGE,
    )
    .expect("valid spec");
    let resource_limits = default_android_resource_limits();
    let runtime_options = interactive_runtime_options();

    let args = docker_run_args(&spec, None, &resource_limits, &runtime_options);

    assert!(!args.iter().any(|argument| argument == "--publish"));
    assert!(args
        .windows(2)
        .any(|window| window == ["--env", "WEB_VNC=false"]));
    assert!(args
        .last()
        .is_some_and(|argument| argument.contains("exec ${APP_PATH}/mixins/scripts/run.sh")));
}

#[test]
fn docker_run_args_allow_custom_resource_limits() {
    let spec = android_spec(
        "dg-test",
        "docker-git-shared",
        "dg-test-android:5555",
        DEFAULT_ANDROID_IMAGE,
    )
    .expect("valid spec");
    let resource_limits = android_resource_limits("4g", "4g", "2.0");
    let runtime_options = interactive_runtime_options();

    let args = docker_run_args(&spec, None, &resource_limits, &runtime_options);

    assert!(args.windows(2).any(|window| window == ["--memory", "4g"]));
    assert!(args
        .windows(2)
        .any(|window| window == ["--memory-swap", "4g"]));
    assert!(args.windows(2).any(|window| window == ["--cpus", "2.0"]));
}

#[test]
fn docker_run_args_support_app_test_runtime_profile() {
    let spec = android_spec(
        "dg-test",
        "docker-git-shared",
        "dg-test-android:5555",
        DEFAULT_ANDROID_IMAGE,
    )
    .expect("valid spec");
    let resource_limits = default_android_resource_limits();
    let runtime_options = app_test_runtime_options();

    let args = docker_run_args(&spec, None, &resource_limits, &runtime_options);

    assert_eq!(runtime_options.profile, APP_TEST_ANDROID_RUNTIME_PROFILE);
    assert!(!args.iter().any(|argument| argument == "--publish"));
    assert!(args
        .windows(2)
        .any(|window| window == ["--env", "EMULATOR_HEADLESS=true"]));
    assert!(args
        .windows(2)
        .any(|window| window == ["--env", "APPIUM=false"]));
    assert!(args
        .windows(2)
        .any(|window| window == ["--env", "WEB_LOG=false"]));
    assert!(args
        .windows(2)
        .any(|window| window == ["--env", "WEB_VNC=false"]));
    assert!(args.windows(2).any(|window| {
        window == [
            "--env",
            "EMULATOR_ADDITIONAL_ARGS=-no-window -no-audio -no-boot-anim -no-snapshot -lowram -memory 1536 -camera-back none -camera-front none",
        ]
    }));
    assert!(args
        .last()
        .is_some_and(|argument| argument.contains("hw.gsmModem = no")));
}

#[test]
fn docker_run_args_support_app_test_vnc_runtime_profile() {
    let spec = android_spec(
        "dg-test",
        "docker-git-shared",
        "dg-test-android:5555",
        DEFAULT_ANDROID_IMAGE,
    )
    .expect("valid spec");
    let no_vnc = no_vnc_endpoint(DEFAULT_NOVNC_HOST, DEFAULT_NOVNC_HOST, DEFAULT_NOVNC_PORT);
    let resource_limits = default_android_resource_limits();
    let runtime_options = app_test_vnc_runtime_options();

    let args = docker_run_args(&spec, Some(&no_vnc), &resource_limits, &runtime_options);

    assert_eq!(
        runtime_options.profile,
        APP_TEST_VNC_ANDROID_RUNTIME_PROFILE
    );
    assert!(args
        .windows(2)
        .any(|window| window == ["--publish", "127.0.0.1:6080:6081"]));
    assert!(args
        .windows(2)
        .any(|window| window == ["--env", "EMULATOR_HEADLESS=false"]));
    assert!(args
        .windows(2)
        .any(|window| window == ["--env", "APPIUM=false"]));
    assert!(args
        .windows(2)
        .any(|window| window == ["--env", "WEB_LOG=false"]));
    assert!(args
        .windows(2)
        .any(|window| window == ["--env", "WEB_VNC=true"]));
    assert!(args.windows(2).any(|window| {
        window == [
            "--env",
            "EMULATOR_ADDITIONAL_ARGS=-no-audio -no-boot-anim -no-snapshot -lowram -memory 1536 -camera-back none -camera-front none",
        ]
    }));
    assert!(args
        .last()
        .is_some_and(|argument| argument.contains("socat TCP-LISTEN:6081")));
    assert!(args
        .last()
        .is_some_and(|argument| argument.contains("hw.gsmModem = no")));
}

#[test]
fn interactive_runtime_profile_is_default() {
    let runtime_options = interactive_runtime_options();

    assert_eq!(runtime_options.profile, DEFAULT_ANDROID_RUNTIME_PROFILE);
    assert_eq!(runtime_options.emulator_headless, RuntimeSwitch::Disabled);
    assert_eq!(runtime_options.web_vnc_enabled, RuntimeSwitch::Enabled);
}

#[test]
fn parses_docker_port_for_actual_no_vnc_url() {
    let endpoint =
        parse_docker_no_vnc_port("127.0.0.1:16080\n", DEFAULT_NOVNC_HOST).expect("port binding");

    assert_eq!(endpoint.bind_host, "127.0.0.1");
    assert_eq!(endpoint.url_host, "127.0.0.1");
    assert_eq!(
        endpoint.url,
        "http://127.0.0.1:16080/?autoconnect=true&resize=remote"
    );
}

#[test]
fn wildcard_docker_port_does_not_leak_into_no_vnc_url() {
    let endpoint =
        parse_docker_no_vnc_port("0.0.0.0:16080\n", DEFAULT_NOVNC_HOST).expect("port binding");

    assert_eq!(endpoint.bind_host, "0.0.0.0");
    assert_eq!(endpoint.url_host, DEFAULT_NOVNC_HOST);
    assert_eq!(
        endpoint.url,
        "http://127.0.0.1:16080/?autoconnect=true&resize=remote"
    );
}

#[test]
fn lib_normalizes_project_id_to_docker_safe_name() {
    assert_eq!(
        normalize_project_id("Org/Repo:Feature_X"),
        "org-repo-feature-x"
    );
    assert_eq!(normalize_project_id("///"), DEFAULT_PROJECT_ID);
}

#[test]
fn lib_rejects_shell_fragments_in_adb_endpoint() {
    assert!(validate_adb_endpoint("dg-test-android:5555").is_ok());
    assert!(validate_adb_endpoint("dg-test-android:5555;touch /tmp/pwn").is_err());
    assert!(validate_adb_endpoint("$(whoami):5555").is_err());
}

#[test]
fn lib_builds_deterministic_android_spec() {
    let spec = android_spec(
        "dg-test",
        "docker-git-shared",
        "dg-test-android:5555",
        DEFAULT_ANDROID_IMAGE,
    )
    .expect("valid spec");

    assert_eq!(spec.project_container_name, "dg-test");
    assert_eq!(spec.android_container_name, "dg-test-android");
    assert_eq!(spec.android_volume_name, "dg-test-home-android");
}

#[test]
fn normalizing_again_changes_nothing() {
    for raw in ["Org/Repo:Feature_X", "///", "--A--b--", "\u{e9}t\u{e9} 2", "", "x"] {
        let once = normalize_project_id(raw);
        assert_eq!(normalize_project_id(&once), once);
        assert!(!once.is_empty());
        assert!(once
            .chars()
            .all(|c| c.is_ascii_lowercase() || c.is_ascii_digit() || c == '-'));
    }
    assert_eq!(normalize_project_id("--A--b--"), "a-b");
    assert_eq!(normalize_project_id("\u{e9}t\u{e9} 2"), "t-2");
}

#[test]
fn names_come_from_the_project() {
    assert_eq!(android_container_name("My App"), "my-app-android");
    assert_eq!(android_volume_name("My App"), "my-app-home-android");
}

#[test]
fn endpoints_hold_a_colon_and_safe_characters() {
    assert!(is_safe_adb_endpoint("a.B-c_9:5555"));
    assert!(is_safe_adb_endpoint(":"));
    assert!(!is_safe_adb_endpoint(""));
    assert!(!is_safe_adb_endpoint("no-colon"));
    assert!(!is_safe_adb_endpoint("\u{e9}:1"));
    assert!(is_safe_adb_endpoint(&format!(":{}", "a".repeat(254))));
    assert!(!is_safe_adb_endpoint(&format!(":{}", "a".repeat(255))));
}

#[test]
fn endpoint_errors_quote_the_endpoint() {
    let error = validate_adb_endpoint("a\"b").unwrap_err();
    assert_eq!(error.value, "a\"b");
    assert_eq!(
        error.message(),
        "invalid ADB endpoint \"a\\\"b\"; allowed characters are ASCII letters, digits, '.', '-', '_' and ':'"
    );
}

#[test]
fn run_arguments_stand_in_order() {
    let spec = android_spec("p", "net", "p:1", "image").unwrap();
    let endpoint = no_vnc_endpoint("0.0.0.0", "host", 7000);
    let args = docker_run_args(
        &spec,
        Some(&endpoint),
        &android_resource_limits("1g", "2g", "3"),
        &interactive_runtime_options(),
    );
    assert_eq!(
        args[..15],
        [
            "run",
            "--detach",
            "--name",
            "p-android",
            "--privileged",
            "--network",
            "net",
            "--memory",
            "1g",
            "--memory-swap",
            "2g",
            "--cpus",
            "3",
            "--publish",
            "0.0.0.0:7000:6081",
        ]
    );
    assert_eq!(args[args.len() - 4], "--volume");
    assert_eq!(args[args.len() - 3], "p-home-android:/root/.android");
    assert_eq!(args[args.len() - 2], "image");
    assert_eq!(docker_stop_args(&spec), ["rm", "--force", "p-android"]);
}

#[test]
fn a_profile_without_vnc_ignores_the_endpoint() {
    let spec = android_spec("p", "net", "p:1", "image").unwrap();
    let endpoint = no_vnc_endpoint("127.0.0.1", "127.0.0.1", 7000);
    let limits = default_android_resource_limits();
    let options = app_test_runtime_options();
    assert_eq!(
        docker_run_args(&spec, Some(&endpoint), &limits, &options),
        docker_run_args(&spec, None, &limits, &options)
    );
}

#[test]
fn profiles_are_found_by_their_names() {
    assert_eq!(
        android_runtime_options("interactive"),
        Some(interactive_runtime_options())
    );
    assert_eq!(
        android_runtime_options("app-test"),
        Some(app_test_runtime_options())
    );
    assert_eq!(
        android_runtime_options("app-test-vnc"),
        Some(app_test_vnc_runtime_options())
    );
    assert_eq!(android_runtime_options("App-Test"), None);
    assert!(interactive_runtime_options().web_vnc_enabled.as_bool());
    assert!(!app_test_runtime_options().web_vnc_enabled.as_bool());
}

#[test]
fn the_first_readable_port_binding_counts() {
    let endpoint = parse_docker_no_vnc_port("garbage\n[::]:70000\n[::]:16080\n1.2.3.4:5\n", "h");
    let endpoint = endpoint.expect("port binding");
    assert_eq!(endpoint.bind_host, "[::]");
    assert_eq!(endpoint.url_host, "h");
    assert_eq!(endpoint.host_port, 16080);
    assert_eq!(endpoint.container_port, 6081);
    assert!(parse_docker_no_vnc_port("\n:80\n", "h").is_none());
}

#[test]
fn names_tell_projects_apart() {
    assert_eq!(android_container_name("A b"), android_container_name("a-B"));
    assert_ne!(android_container_name("a"), android_container_name("b"));
    assert_ne!(android_volume_name("a"), android_volume_name("a-home"));
    assert_ne!(android_container_name("a"), android_volume_name("a"));
}
