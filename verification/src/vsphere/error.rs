//! Errors of the vSphere provider's reconcilers.
use vstd::prelude::*;
use crate::sdk::error::{error_text, Error as SdkError};
use crate::text::owned;

verus! {

/// An error of a vSphere reconcile loop. Failures of an outside service
/// arrive here already rendered to text.
#[derive(Debug)]
pub enum Error {
    /// An SDK error (client construction, finalizer patch, apply, ...).
    Sdk(SdkError),
    /// A Kubernetes API error not wrapped by the SDK.
    Kube(String),
    /// A JSON encoding or decoding failure.
    Serde(String),
    /// A vCenter transport, authentication or inventory failure.
    Vsphere(String),
    /// A required field of the reconciled resource was missing.
    Missing(String),
    /// The spec is inconsistent in a way no schema rule can express.
    InvalidSpec(String),
}

/// The text `Error::message` gives each variant.
pub open spec fn vsphere_error_text(e: Error) -> Seq<char> {
    match e {
        Error::Sdk(s) => "sdk: "@ + error_text(s),
        Error::Kube(s) => "kube api: "@ + s@,
        Error::Serde(s) => "serde: "@ + s@,
        Error::Vsphere(s) => "vsphere: "@ + s@,
        Error::Missing(s) => "missing required field: "@ + s@,
        Error::InvalidSpec(s) => "invalid spec: "@ + s@,
    }
}

impl Error {
    /// The human-readable message of this error.
    pub fn message(&self) -> (r: String)
        ensures
            r@ == vsphere_error_text(*self),
    {
        match self {
            Error::Sdk(s) => {
                let mut r = owned("sdk: ");
                let m = s.message();
                r.append(m.as_str());
                r
            },
            Error::Kube(s) => {
                let mut r = owned("kube api: ");
                r.append(s.as_str());
                r
            },
            Error::Serde(s) => {
                let mut r = owned("serde: ");
                r.append(s.as_str());
                r
            },
            Error::Vsphere(s) => {
                let mut r = owned("vsphere: ");
                r.append(s.as_str());
                r
            },
            Error::Missing(s) => {
                let mut r = owned("missing required field: ");
                r.append(s.as_str());
                r
            },
            Error::InvalidSpec(s) => {
                let mut r = owned("invalid spec: ");
                r.append(s.as_str());
                r
            },
        }
    }

}

} // verus!
