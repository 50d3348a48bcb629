//! The vSphere provider.
pub mod api;
pub mod cli;
pub mod client;
pub mod error;
pub mod fake;
pub mod guest;
pub mod import;
pub mod k8s_name;
pub mod nic_flag;
pub mod provider;
pub mod vim;
pub mod vmimage;
pub mod vspheremachine;
pub mod vcenter_steps;
