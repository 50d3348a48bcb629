//! Shared provider building blocks.
pub mod bootstrap;
pub mod condition_status;
pub mod ca_bundle;
pub mod error;
pub mod finalizer;
pub mod guestdata;
pub mod leader;
pub mod osartifact;
pub mod pem;
pub mod reconciler;
pub mod scheduling;
pub mod ssa;
pub mod status;
