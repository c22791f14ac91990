//! The build submission request and its validation gates.

use vstd::prelude::*;
use vstd::string::StrSliceExecFns;

verus! {

/// A build submission as it arrives over the wire, already decoded into
/// plain values.
#[derive(Debug)]
pub struct BuildRequest {
    pub branch: String,
    pub commit_id: Option<String>,
    pub pkg_flag: String,
    pub is_update: bool,
    pub is_x64: bool,
    pub architectures: Vec<String>,
    pub platform: String,
    pub is_increment: bool,
    pub is_signed: bool,
    pub server: String,
    pub custom_args: Option<Vec<String>>,
    pub emails: Option<Vec<String>>,
    pub installer_format: Option<String>,
}

/// The architecture tags the orchestrator understands.
pub open spec fn spec_known_arch(a: Seq<char>) -> bool {
    a == "x64"@ || a == "x86"@ || a == "arm64"@ || a == "arm"@
}

/// A request passes the validation gates: the text fields are non-empty
/// where required and within their length bounds, and the architecture list
/// is non-empty and made of recognized tags.
pub open spec fn spec_valid_request(r: &BuildRequest) -> bool {
    &&& 1 <= r.branch@.len() <= 100
    &&& match r.commit_id {
        Some(c) => c@.len() <= 40,
        None => true,
    }
    &&& r.pkg_flag@.len() <= 50
    &&& 1 <= r.platform@.len() <= 20
    &&& 1 <= r.server@.len() <= 100
    &&& r.architectures@.len() >= 1
    &&& forall|i: int|
        0 <= i < r.architectures@.len() ==> spec_known_arch(#[trigger] r.architectures@[i]@)
}

/// Whether `a` is a recognized architecture tag.
pub fn is_known_arch(a: &str) -> (r: bool)
    ensures
        r == spec_known_arch(a@),
{
    crate::text::str_eq_str(a, "x64") || crate::text::str_eq_str(a, "x86")
        || crate::text::str_eq_str(a, "arm64") || crate::text::str_eq_str(a, "arm")
}

/// Checks the validation gates; `Ok` exactly when the request is valid.
pub fn validate_request(r: &BuildRequest) -> (res: Result<(), crate::error::AppError>)
    ensures
        res is Ok <==> spec_valid_request(r),
        res is Err ==> res == Result::<(), crate::error::AppError>::Err(
            crate::error::AppError::Validation,
        ),
{
    let branch_len = r.branch.as_str().unicode_len();
    if branch_len < 1 || branch_len > 100 {
        return Err(crate::error::AppError::Validation);
    }
    if let Some(c) = &r.commit_id {
        if c.as_str().unicode_len() > 40 {
            return Err(crate::error::AppError::Validation);
        }
    }
    if r.pkg_flag.as_str().unicode_len() > 50 {
        return Err(crate::error::AppError::Validation);
    }
    let platform_len = r.platform.as_str().unicode_len();
    if platform_len < 1 || platform_len > 20 {
        return Err(crate::error::AppError::Validation);
    }
    let server_len = r.server.as_str().unicode_len();
    if server_len < 1 || server_len > 100 {
        return Err(crate::error::AppError::Validation);
    }
    let n = r.architectures.len();
    if n == 0 {
        return Err(crate::error::AppError::Validation);
    }
    let mut i: usize = 0;
    while i < n
        invariant
            n == r.architectures@.len(),
            i <= n,
            forall|j: int| 0 <= j < i ==> spec_known_arch(#[trigger] r.architectures@[j]@),
        decreases n - i,
    {
        if !is_known_arch(r.architectures[i].as_str()) {
            return Err(crate::error::AppError::Validation);
        }
        i = i + 1;
    }
    Ok(())
}

/// An architecture drives 64-bit tooling when it is `x64` or `x86`.
pub fn arch_is_x64_class(a: &str) -> (r: bool)
    ensures
        r == (a@ == "x64"@ || a@ == "x86"@),
{
    crate::text::str_eq_str(a, "x64") || crate::text::str_eq_str(a, "x86")
}

} // verus!
