//! What the npm registry says of a package, and how its answers are read.

use vstd::prelude::*;
use vstd::string::*;

use crate::cn_core::{Error, Result};
use crate::text::{decimal, decimal_string};

verus! {

/// Response from the npm registry for a package
#[derive(Debug, Clone)]
pub struct RegistryResponse {
    /// The registry's identifier of the package (`_id`).
    pub id: String,
    pub name: String,
    /// The distribution tags (`dist-tags`): tag name and version.
    pub dist_tags: Vec<(String, String)>,
    pub versions: Vec<String>,
}

/// The address of the npm registry.
pub open spec fn registry_api() -> Seq<char> {
    "https://registry.npmjs.org"@
}

/// The address at which the registry describes the package `name`.
pub fn package_url(name: &str) -> (r: String)
    ensures
        r@ == registry_api() + "/"@ + name@,
{
    let mut r = String::from_str("https://registry.npmjs.org");
    r.append("/");
    r.append(name);
    r
}

/// Why a request to the registry got no answer.
#[derive(Debug, Clone, PartialEq, Eq)]
pub enum RequestFailure {
    /// It took too long.
    Timeout,
    /// No connection could be made.
    Connect,
    /// Anything else, with its message.
    Other(String),
}

/// The message for an answer with an unexpected status.
pub open spec fn unexpected_status_message(status: u16) -> Seq<char> {
    "Unexpected registry response: "@ + decimal(status as nat) + " - "@ + decimal(status as nat)
}

fn unexpected_status(status: u16) -> (e: Error)
    ensures
        e matches Error::Registry(m) && m@ == unexpected_status_message(status),
{
    let code = decimal_string(status as u64);
    let mut m = String::from_str("Unexpected registry response: ");
    m.append(code.as_str());
    m.append(" - ");
    m.append(code.as_str());
    Error::Registry(m)
}

/// Whether a package name is free, from the status of the registry's
/// answer: free when the registry does not know it (404), taken when it
/// does (200); any other status is an error.
pub fn name_availability(status: u16) -> (r: Result<bool>)
    ensures
        status == 404 ==> r == Ok::<bool, Error>(true),
        status == 200 ==> r == Ok::<bool, Error>(false),
        status != 404 && status != 200 ==> (r matches Err(Error::Registry(m))
            && m@ == unexpected_status_message(status)),
{
    if status == 404 {
        Ok(true)
    } else if status == 200 {
        Ok(false)
    } else {
        Err(unexpected_status(status))
    }
}

/// The error for a name-availability request that got no answer.
pub fn availability_request_error(failure: RequestFailure) -> (e: Error)
    ensures
        match failure {
            RequestFailure::Timeout => e matches Error::Network(m) && m@ == "Registry request timed out"@,
            RequestFailure::Connect => e matches Error::Network(m) && m@ == "Failed to connect to registry"@,
            RequestFailure::Other(why) => e matches Error::Network(m) && m@ == "Registry request failed: "@ + why@,
        },
{
    match failure {
        RequestFailure::Timeout => Error::Network(String::from_str("Registry request timed out")),
        RequestFailure::Connect => Error::Network(String::from_str("Failed to connect to registry")),
        RequestFailure::Other(why) => {
            let mut m = String::from_str("Registry request failed: ");
            m.append(why.as_str());
            Error::Network(m)
        },
    }
}

/// Whether the registry's answer about the package `name` has a body to
/// read, from its status: yes for 200; a package the registry does not
/// know (404), or any other status, is an error.
pub fn package_info_status(name: &str, status: u16) -> (r: Result<()>)
    ensures
        status == 200 ==> r is Ok,
        status == 404 ==> (r matches Err(Error::Registry(m)) && m@ == "Package '"@ + name@
            + "' not found"@),
        status != 404 && status != 200 ==> (r matches Err(Error::Registry(m))
            && m@ == unexpected_status_message(status)),
{
    if status == 200 {
        Ok(())
    } else if status == 404 {
        let mut m = String::from_str("Package '");
        m.append(name);
        m.append("' not found");
        Err(Error::Registry(m))
    } else {
        Err(unexpected_status(status))
    }
}

/// The error for a package-information request that got no answer.
pub fn package_info_request_error(why: &str) -> (e: Error)
    ensures
        e matches Error::Network(m) && m@ == "Registry request failed: "@ + why@,
{
    let mut m = String::from_str("Registry request failed: ");
    m.append(why);
    Error::Network(m)
}

/// The error for an answer whose body could not be read.
pub fn unreadable_answer_error(why: &str) -> (e: Error)
    ensures
        e matches Error::Registry(m) && m@ == "Failed to parse registry response: "@ + why@,
{
    let mut m = String::from_str("Failed to parse registry response: ");
    m.append(why);
    Error::Registry(m)
}

} // verus!
