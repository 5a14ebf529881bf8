//! What the library knows of the package registry: where the latest version
//! of a package is asked for, and how the answer is read.

use crate::json::{
    json_error_text, json_strings, json_text_strings, parse_json, string_at, top_path,
};
use crate::manifest::NOT_FOUND;
use crate::planner::{FetchOutcome, OutcomeView};
use vstd::prelude::*;
use vstd::string::StringExecFns;

verus! {

/// Why the lookup of one package came to nothing. The reason is for people
/// to read.
#[derive(Clone, Debug, PartialEq, Eq)]
pub struct FetchError {
    pub reason: String,
}

/// The address that answers with the latest release of `package`.
pub open spec fn registry_url_of(package: Seq<char>) -> Seq<char> {
    "https://registry.npmjs.org/"@ + package + "/latest"@
}

/// The address to ask for the latest release of `package`.
pub fn registry_url(package: &str) -> (url: String)
    ensures
        url@ == registry_url_of(package@),
{
    let mut url = "https://registry.npmjs.org/".to_owned();
    url.append(package);
    url.append("/latest");
    url
}

/// The version that a registry answer names: the string under `version`, or
/// `NOT_FOUND` where the answer has no string there.
pub open spec fn latest_in(strings: Map<Seq<Seq<char>>, Seq<char>>) -> Seq<char> {
    if strings.contains_key(top_path("version"@)) {
        strings[top_path("version"@)]
    } else {
        NOT_FOUND@
    }
}

/// The version that a parsed registry answer names.
pub fn latest_version_of(answer: &serde_json::Value) -> (latest: String)
    ensures
        latest@ == latest_in(json_strings(*answer)),
{
    match string_at(answer, "version") {
        Some(version) => version,
        None => NOT_FOUND.to_owned(),
    }
}

/// Reads the body of a registry answer. A body that is JSON gives the
/// version it names, or `NOT_FOUND`; a body that is not JSON is an error.
pub fn read_latest_version(body: &str) -> (r: Result<String, FetchError>)
    ensures
        match json_text_strings(body@) {
            Some(strings) => r matches Ok(latest) && latest@ == latest_in(strings),
            None => r is Err,
        },
{
    match parse_json(body) {
        Ok(answer) => Ok(latest_version_of(&answer)),
        Err(error) => Err(FetchError { reason: json_error_text(&error) }),
    }
}

/// The outcome for `name` of a lookup whose answer had the body `body`.
pub fn outcome_of_answer(name: String, body: &str) -> (outcome: FetchOutcome)
    ensures
        match json_text_strings(body@) {
            Some(strings) => outcome@ == (OutcomeView::Fetched {
                name: name@,
                latest: latest_in(strings),
            }),
            None => outcome@ is Failed && outcome@->Failed_name == name@,
        },
{
    match read_latest_version(body) {
        Ok(latest) => FetchOutcome::Fetched { name, latest },
        Err(error) => FetchOutcome::Failed { name, reason: error.reason },
    }
}

} // verus!
