//! The three values a condition's `status` takes (`metav1.ConditionStatus`).
use vstd::prelude::*;

verus! {

pub const TRUE: &'static str = "True";

pub const FALSE: &'static str = "False";

pub const UNKNOWN: &'static str = "Unknown";

} // verus!
