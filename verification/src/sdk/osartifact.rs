//! Owner references from a resource to the build artifact it came from.
use vstd::prelude::*;
use crate::text::owned;

verus! {

pub const OSARTIFACT_API_VERSION: &'static str = "build.kairos.io/v1alpha2";

pub const OSARTIFACT_KIND: &'static str = "OSArtifact";

/// One `metadata.ownerReferences` entry. `blockOwnerDeletion` and
/// `controller` are left unset.
pub struct OwnerReference {
    pub api_version: String,
    pub kind: String,
    pub name: String,
    pub uid: String,
}

/// The owner references naming the artifact `os_artifact_name`, or `None`
/// while its uid is unknown (an owner reference without a uid is rejected
/// by the API server).
pub fn owner_references(os_artifact_name: &str, os_artifact_uid: Option<&str>) -> (r: Option<
    Vec<OwnerReference>,
>)
    ensures
        os_artifact_uid is None <==> r is None,
        r matches Some(v) ==> {
            &&& v.len() == 1
            &&& v[0].api_version@ == OSARTIFACT_API_VERSION@
            &&& v[0].kind@ == OSARTIFACT_KIND@
            &&& v[0].name@ == os_artifact_name@
            &&& os_artifact_uid matches Some(u) && v[0].uid@ == u@
        },
{
    match os_artifact_uid {
        None => None,
        Some(uid) => {
            let mut v: Vec<OwnerReference> = Vec::new();
            v.push(
                OwnerReference {
                    api_version: owned(OSARTIFACT_API_VERSION),
                    kind: owned(OSARTIFACT_KIND),
                    name: owned(os_artifact_name),
                    uid: owned(uid),
                },
            );
            Some(v)
        },
    }
}

} // verus!
