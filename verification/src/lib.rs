//! The Android runtime of a project: the names and Docker arguments of its container, the ADB
//! commands for it, the server that offers it to tools, and the browser bridge to a phone.
pub mod adb;
pub mod bridge;
pub mod decimal;
pub mod docker_command;
pub mod exchange;
pub mod frames;
pub mod http;
pub mod json;
pub mod lifecycle;
pub mod mcp;
pub mod names;
pub mod paths;
pub mod phone;
pub mod runtime;
pub mod scan;
pub mod settings;
pub mod text;
pub mod web;
pub mod wire;

pub use crate::mcp::{android_tools, McpToolSpec, SERVER_NAME};
pub use crate::names::{
    android_container_name, android_spec, android_volume_name, is_safe_adb_endpoint,
    normalize_project_id, validate_adb_endpoint, AndroidSpec, EndpointError, DEFAULT_PROJECT_ID,
};
pub use crate::runtime::{
    android_resource_limits, android_runtime_options, app_test_runtime_options,
    app_test_vnc_runtime_options, default_android_resource_limits, docker_run_args,
    docker_stop_args, interactive_runtime_options, no_vnc_endpoint, parse_docker_no_vnc_port,
    AndroidResourceLimits, AndroidRuntimeOptions, NoVncEndpoint, RuntimeSwitch,
    APP_TEST_ANDROID_RUNTIME_PROFILE, APP_TEST_VNC_ANDROID_RUNTIME_PROFILE, DEFAULT_ADB_ENDPOINT,
    DEFAULT_ANDROID_CPUS, DEFAULT_ANDROID_IMAGE, DEFAULT_ANDROID_MEMORY_LIMIT,
    DEFAULT_ANDROID_MEMORY_SWAP_LIMIT, DEFAULT_ANDROID_RUNTIME_PROFILE,
    DEFAULT_NOVNC_CONTAINER_PORT, DEFAULT_NOVNC_HOST, DEFAULT_NOVNC_PORT,
};
