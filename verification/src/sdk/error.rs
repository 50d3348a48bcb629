//! Shared error type for the SDK.
use vstd::prelude::*;
use crate::text::owned;

verus! {

/// SDK-level errors. Failures of an outside service arrive here already
/// rendered to text.
#[derive(Debug)]
pub enum Error {
    /// Underlying `kube` client / API error.
    Kube(String),
    /// Kubeconfig discovery or parsing failed.
    KubeConfig(String),
    /// In-cluster configuration discovery failed.
    InClusterConfig(String),
    /// Kubeconfig inference failed.
    InferConfig(String),
    /// Serialization or deserialization failure.
    Serde(String),
    /// A required field was missing or a value was unusable.
    Missing(String),
    /// A spec broke an invariant no schema rule can express.
    Invalid(String),
}

/// The text `Error::message` gives each variant.
pub open spec fn error_text(e: Error) -> Seq<char> {
    match e {
        Error::Kube(s) => "kube api: "@ + s@,
        Error::KubeConfig(s) => "kube config: "@ + s@,
        Error::InClusterConfig(s) => "in-cluster config: "@ + s@,
        Error::InferConfig(s) => "kubeconfig inference: "@ + s@,
        Error::Serde(s) => "serde: "@ + s@,
        Error::Missing(s) => "missing required field: "@ + s@,
        Error::Invalid(s) => "invalid: "@ + s@,
    }
}

impl Error {
    /// The human-readable message of this error.
    pub fn message(&self) -> (r: String)
        ensures
            r@ == error_text(*self),
    {
        let (prefix, detail) = match self {
            Error::Kube(s) => ("kube api: ", s),
            Error::KubeConfig(s) => ("kube config: ", s),
            Error::InClusterConfig(s) => ("in-cluster config: ", s),
            Error::InferConfig(s) => ("kubeconfig inference: ", s),
            Error::Serde(s) => ("serde: ", s),
            Error::Missing(s) => ("missing required field: ", s),
            Error::Invalid(s) => ("invalid: ", s),
        };
        let mut r = owned(prefix);
        r.append(detail.as_str());
        r
    }

    /// A `Missing` error naming `what`.
    pub fn missing(what: &str) -> (e: Error)
        ensures
            e == Error::Missing(e->Missing_0) && e->Missing_0@ == what@,
    {
        Error::Missing(owned(what))
    }
}

} // verus!
