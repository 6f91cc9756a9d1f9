//! A Kubernetes dashboard's state and logic.
pub mod age;
pub mod app;
pub mod check_laws;
pub mod checks;
pub mod command_laws;
pub mod command_mode;
pub mod connections;
pub mod container_selector;
pub mod data;
pub mod degradation;
pub mod describe;
pub mod discovery_laws;
pub mod display;
pub mod dynamic_resource;
pub mod event;
pub mod fetch_laws;
pub mod filter;
pub mod headless;
pub mod help_laws;
pub mod help_overlay;
pub mod infra;
pub mod infra_view;
pub mod json;
pub mod keybinding_registry;
pub mod key_laws;
pub mod kube_client;
pub mod laws;
pub mod list;
pub mod log_viewer;
pub mod machine_laws;
pub mod metrics;
pub mod objects;
pub mod order_laws;
pub mod outline;
pub mod pod_exec;
pub mod pod_laws;
pub mod port_detect;
pub mod quantity;
pub mod report_laws;
pub mod resource_laws;
pub mod resource_registry;
pub mod row_laws;
pub mod scan;
pub mod session;
pub mod sidebar;
pub mod snapshot;
pub mod sort;
pub mod text;
pub mod text_laws;
pub mod tree;
