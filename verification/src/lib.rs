//! Verified core of the PAM PHP application runtime tooling: wire formats,
//! validation rules, supervision decisions and registry trust checks.

pub mod text;
pub mod paths;
pub mod prometheus;
pub mod protocol;
pub mod json;
pub mod hexutil;
pub mod process_manager;
pub mod resource_monitor;
pub mod mobile;
pub mod plugin_registry;
pub mod octane;
pub mod project;
pub mod sandbox;
pub mod php;
pub mod rpc;
pub mod mobile_manifest;
pub mod plugin_manifest;
pub mod cli;
pub mod logs;
pub mod up_command;
pub mod dashboard;
pub mod otlp;
pub mod quality;
pub mod plugin_discovery;
pub mod environment_file;
pub mod traffic;
pub mod registry_options;
pub mod android_manifest;
pub mod otlp_config;
pub mod ecosystem;
pub mod manager_commands;
pub mod mobile_commands;
pub mod artifacts;
pub mod project_manifest;
pub mod project_commands;
pub mod daemon;
pub mod doctor;
pub mod dev_bundle;
pub mod runtime_catalog;
pub mod wasi_command;
pub mod otlp_spans;
pub mod traffic_start;
