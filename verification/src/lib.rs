//! Verified building blocks of the banlieue vSphere provider and its SDK.
pub mod keyed;
pub mod sdk;
pub mod seq_util;
pub mod str_map;
pub mod text;
pub mod vex;
pub mod vsphere;
