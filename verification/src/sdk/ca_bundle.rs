//! Classification of a CA-bundle source ("exactly one source") and the check
//! that a Secret value is PEM text.
use vstd::prelude::*;
use crate::sdk::error::Error;
use crate::text::owned;

verus! {

/// Key read from a referenced ConfigMap/Secret when none is named.
pub const DEFAULT_CA_BUNDLE_KEY: &'static str = "ca.crt";

/// A `name` plus optional `key` in an object of the Provider's namespace.
#[derive(Debug, Clone, PartialEq, Eq)]
pub struct KeySelector {
    pub name: String,
    pub key: Option<String>,
}

impl KeySelector {
    /// The named key, or `default`.
    pub fn key_or<'a>(&'a self, default: &'a str) -> (r: &'a str)
        ensures
            r@ == match self.key {
                Some(k) => k@,
                None => default@,
            },
    {
        match &self.key {
            Some(k) => k.as_str(),
            None => default,
        }
    }
}

/// A CA bundle given inline or by reference; exactly one source must be set.
#[derive(Debug, Clone, Default, PartialEq, Eq)]
pub struct CABundleSource {
    pub inline: Option<String>,
    pub config_map_ref: Option<KeySelector>,
    pub secret_ref: Option<KeySelector>,
}

/// How many of the three sources are set.
pub open spec fn source_count(s: CABundleSource) -> nat {
    (if s.inline is Some { 1nat } else { 0nat }) + (if s.config_map_ref is Some { 1nat } else {
        0nat
    }) + (if s.secret_ref is Some { 1nat } else { 0nat })
}

/// Message for a source with no branch set.
pub const NO_SOURCE_MESSAGE: &'static str =
    "caBundle: exactly one of inline, configMapRef or secretRef must be set";

/// Message for a source with several branches set.
pub const MANY_SOURCES_MESSAGE: &'static str =
    "caBundle: more than one of inline, configMapRef and secretRef is set; exactly one is allowed";

impl CABundleSource {
    /// Enforce "exactly one source".
    pub fn validate(&self) -> (r: Result<(), String>)
        ensures
            r is Ok <==> source_count(*self) == 1,
            r matches Err(m) ==> m@ == (if source_count(*self) == 0 {
                NO_SOURCE_MESSAGE@
            } else {
                MANY_SOURCES_MESSAGE@
            }),
    {
        let mut n: u8 = 0;
        if self.inline.is_some() {
            n += 1;
        }
        if self.config_map_ref.is_some() {
            n += 1;
        }
        if self.secret_ref.is_some() {
            n += 1;
        }
        if n == 0 {
            Err(owned(NO_SOURCE_MESSAGE))
        } else if n > 1 {
            Err(owned(MANY_SOURCES_MESSAGE))
        } else {
            Ok(())
        }
    }
}

/// Outcome of the no-I/O classification step.
#[derive(Debug, PartialEq, Eq)]
pub enum CABundlePlan<'a> {
    /// No bundle configured; what that means is the caller's decision.
    NoBundle,
    /// PEM available directly from the spec.
    Inline(&'a str),
    /// Read the given key from this ConfigMap.
    ConfigMap(&'a KeySelector),
    /// Read the given key from this Secret.
    Secret(&'a KeySelector),
}

/// Classify an optional [`CABundleSource`], enforcing "exactly one source".
pub fn plan<'a>(source: &'a Option<CABundleSource>) -> (r: Result<CABundlePlan<'a>, Error>)
    ensures
        match *source {
            None => r matches Ok(CABundlePlan::NoBundle),
            Some(s) => if source_count(s) != 1 {
                r matches Err(Error::Invalid(m)) && m@ == (if source_count(s) == 0 {
                    NO_SOURCE_MESSAGE@
                } else {
                    MANY_SOURCES_MESSAGE@
                })
            } else if s.inline is Some {
                r matches Ok(CABundlePlan::Inline(p)) && p@ == s.inline->0@
            } else if s.config_map_ref is Some {
                r matches Ok(CABundlePlan::ConfigMap(k)) && *k == s.config_map_ref->0
            } else {
                r matches Ok(CABundlePlan::Secret(k)) && *k == s.secret_ref->0
            },
        },
{
    let source = match source {
        None => return Ok(CABundlePlan::NoBundle),
        Some(s) => s,
    };
    match source.validate() {
        Err(m) => return Err(Error::Invalid(m)),
        Ok(()) => {},
    }
    if let Some(pem) = &source.inline {
        return Ok(CABundlePlan::Inline(pem.as_str()));
    }
    if let Some(sel) = &source.config_map_ref {
        return Ok(CABundlePlan::ConfigMap(sel));
    }
    match &source.secret_ref {
        Some(sel) => Ok(CABundlePlan::Secret(sel)),
        None => Err(Error::Invalid(owned("caBundle: no source resolved after validation"))),
    }
}

/// Whether `bytes` is well-formed UTF-8 (`std::str::from_utf8(..).is_ok()`).
///
/// Trusted: the contract claims `from_utf8` accepts exactly the byte strings
/// vstd's `valid_utf8` describes, which is what its documentation promises.
#[verifier::external_body]
pub(crate) fn is_utf8(bytes: &[u8]) -> (r: bool)
    ensures
        r == vstd::utf8::valid_utf8(bytes@),
{
    std::str::from_utf8(bytes).is_ok()
}

/// The text UTF-8 `bytes` encode (`String::from_utf8`).
///
/// Trusted: for well-formed UTF-8, `from_utf8` succeeds with the characters
/// the bytes encode, which vstd's `decode_utf8` describes; the `requires`
/// rules out the input on which the `expect` would panic.
#[verifier::external_body]
pub(crate) fn utf8_text(bytes: &[u8]) -> (r: String)
    requires
        vstd::utf8::valid_utf8(bytes@),
    ensures
        r@ == vstd::utf8::decode_utf8(bytes@),
{
    String::from_utf8(bytes.to_vec()).expect("checked UTF-8")
}

/// Message naming a Secret value that is not PEM text.
pub const NOT_UTF8_MESSAGE: &'static str = "caBundle.secretRef: value not UTF-8 PEM";

/// Validate a Secret value as PEM text: the bytes unchanged when they are
/// UTF-8, else a `Missing` error naming the problem.
pub fn pem_from_secret_value(raw: Vec<u8>) -> (r: Result<Vec<u8>, Error>)
    ensures
        vstd::utf8::valid_utf8(raw@) ==> (r matches Ok(v) && v@ == raw@),
        !vstd::utf8::valid_utf8(raw@) ==> (r matches Err(Error::Missing(m)) && m@
            == NOT_UTF8_MESSAGE@),
{
    if !is_utf8(raw.as_slice()) {
        return Err(Error::Missing(owned(NOT_UTF8_MESSAGE)));
    }
    Ok(raw)
}

} // verus!
