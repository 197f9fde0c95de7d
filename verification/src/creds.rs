//! Credential-store check of the docker client configuration.
//!
//! The configuration file is JSON; if it names a non-empty credential
//! store, command execution inside the container will most likely fail, so
//! the launcher warns. The check is advisory on every outcome: it never
//! stops the run.

use vstd::prelude::*;
use vstd::string::StrSliceExecFns;

verus! {

#[verifier::external_type_specification]
#[verifier::external_body]
pub struct ExJsonValue(serde_json::Value);

#[verifier::external_type_specification]
#[verifier::external_body]
pub struct ExJsonError(serde_json::Error);

/// Whether a text is well-formed JSON, as serde_json's parser decides it;
/// the decision is a function of the text alone.
pub uninterp spec fn json_wf(s: Seq<char>) -> bool;

/// Relies on serde_json::from_str::<Value>: parsing is deterministic and
/// succeeds exactly on well-formed JSON text.
#[verifier::external_body]
fn parse_json(s: &str) -> (r: Result<serde_json::Value, serde_json::Error>)
    ensures
        r is Ok <==> json_wf(s@),
{
    serde_json::from_str(s)
}

/// Relies on serde_json::Value::get with a string key: the value under the
/// key when the document is an object that holds it, `None` otherwise.
#[verifier::external_body]
fn json_get<'a>(v: &'a serde_json::Value, key: &str) -> (r: Option<&'a serde_json::Value>) {
    v.get(key)
}

/// Relies on serde_json::Value::as_str: the text of a JSON string value,
/// `None` for every other kind of value.
#[verifier::external_body]
fn json_as_string(v: &serde_json::Value) -> (r: Option<String>) {
    match v.as_str() {
        Some(s) => Some(s.to_string()),
        None => None,
    }
}

/// What the credential-store probe concluded.
pub enum CredsCheck {
    /// The configuration could not be parsed: advise the user and go on.
    Garbled,
    /// No credential store is delegated; nothing to say.
    Clean,
    /// A non-empty credential store is configured: warn that execution
    /// will likely fail, and go on.
    Delegated(String),
}

/// Whether a credential-store field value warrants the warning: only a
/// present, non-empty store delegates credentials.
pub fn creds_warning_needed(field: Option<&str>) -> (r: bool)
    ensures
        r == (field matches Some(v) && v@.len() > 0),
{
    match field {
        Some(v) => v.unicode_len() > 0,
        None => false,
    }
}

/// Classifies the docker client configuration text.
pub fn check_creds_store(content: &str) -> (r: CredsCheck)
    ensures
        r is Garbled <==> !json_wf(content@),
        r matches CredsCheck::Delegated(v) ==> v@.len() > 0,
{
    match parse_json(content) {
        Err(_) => CredsCheck::Garbled,
        Ok(doc) => match json_get(&doc, "credsStore") {
            None => CredsCheck::Clean,
            Some(field) => match json_as_string(field) {
                None => CredsCheck::Clean,
                Some(value) => {
                    if creds_warning_needed(Some(value.as_str())) {
                        CredsCheck::Delegated(value)
                    } else {
                        CredsCheck::Clean
                    }
                },
            },
        },
    }
}

} // verus!
