//! The note-assistant surface: result shapes handed back to the host UI,
//! and the rule deciding whether assistant calls may run at all.  The
//! sidecar process that answers the calls lives entirely in the host.

use vstd::prelude::*;

verus! {

use vstd::string::StringExecFns;

#[derive(Debug, Clone)]
pub struct AiAvailability {
    pub available: bool,
    pub note: Option<String>,
}

#[derive(Debug, Clone)]
pub struct RephraseResult {
    pub text: String,
    pub style: String,
}

#[derive(Debug, Clone)]
pub struct SummarizeResult {
    pub summary: String,
}

#[derive(Debug, Clone)]
pub struct OrganizeResult {
    pub suggested_folder: Option<String>,
    pub tags: Vec<String>,
    pub reasoning: String,
}

#[derive(Debug, Clone)]
pub struct GenerateResult {
    pub text: String,
}

/// Live status of the assistant sidecar, as the host reports it.
#[derive(Debug, Clone)]
pub struct DarwinKitStatus {
    pub ready: bool,
    pub version: Option<String>,
    pub capabilities: Vec<String>,
}

/// Non-blocking check whether the sidecar is running.
pub fn is_available(status: &DarwinKitStatus) -> (r: bool)
    ensures
        r == status.ready,
{
    status.ready
}

/// Assistant calls run only when the feature is enabled in settings and the
/// sidecar is available; otherwise the exact refusal is returned.
pub fn check_ai_enabled(ai_features_enabled: bool, status: &DarwinKitStatus) -> (r: Result<
    (),
    String,
>)
    ensures
        r is Ok <==> (ai_features_enabled && status.ready),
        !ai_features_enabled ==> r is Err && r->Err_0@ == "AI features are disabled in settings"@,
        ai_features_enabled && !status.ready ==> r is Err && r->Err_0@
            == "DarwinKit sidecar not available"@,
{
    if !ai_features_enabled {
        return Err(String::from_str("AI features are disabled in settings"));
    }
    if !is_available(status) {
        return Err(String::from_str("DarwinKit sidecar not available"));
    }
    Ok(())
}

} // verus!
