//! Reading the engine's error replies.

use vstd::prelude::*;

use crate::error::DockerTestError;

verus! {

/// `serde_json::Value`, a decoded JSON document, carried without looking
/// inside.
#[verifier::external_type_specification]
#[verifier::external_body]
pub struct ExJsonValue(serde_json::Value);

/// `serde_json::Error`, the reason a text did not decode, carried without
/// looking inside.
#[verifier::external_type_specification]
#[verifier::external_body]
pub struct ExJsonError(serde_json::Error);

/// Whether `s` is one JSON document, as `serde_json::from_str` decides it.
pub uninterp spec fn is_json_text(s: Seq<char>) -> bool;

/// Relies on `serde_json::from_str`: it decodes the text into a JSON value,
/// and whether it succeeds depends on the text alone.
#[verifier::external_body]
fn parse_json(s: &str) -> (r: Result<serde_json::Value, serde_json::Error>)
    ensures
        r is Ok <==> is_json_text(s@),
{
    serde_json::from_str(s)
}

/// Relies on `serde_json::Value::pointer`: the value at a JSON pointer, if
/// there is one.
pub assume_specification<'a>[ serde_json::Value::pointer ](
    v: &'a serde_json::Value,
    pointer: &str,
) -> Option<&'a serde_json::Value>;

/// Relies on `serde_json::Value::as_str`: the text of a JSON string.
pub assume_specification[ serde_json::Value::as_str ](v: &serde_json::Value) -> Option<&str>;

/// The error for a start that the engine refused, from the reply as read:
/// its `message` member, none where it has no such text, or the reason the
/// reply was no JSON.
pub fn start_failure_of(decoded: Result<Option<&str>, String>) -> (r: DockerTestError)
    ensures
        decoded matches Ok(Some(m)) ==> r is Startup && r->Startup_0@
            == "failed to start container due to `"@ + m@ + "`"@,
        decoded matches Ok(None) ==> r is Daemon && r->Daemon_0@
            == "daemon response without a message"@,
        decoded matches Err(e) ==> r is Daemon && r->Daemon_0@
            == "daemon json response decode failure: "@ + e@,
{
    match decoded {
        Ok(Some(m)) => {
            let mut t = String::from_str("failed to start container due to `");
            t.append(m);
            t.append("`");
            DockerTestError::Startup(t)
        },
        Ok(None) => DockerTestError::Daemon(String::from_str("daemon response without a message")),
        Err(e) => {
            let mut t = String::from_str("daemon json response decode failure: ");
            t.append(e.as_str());
            DockerTestError::Daemon(t)
        },
    }
}

/// The error for a start that the engine refused as not found, from the
/// body of its reply: a body that is no JSON gives a daemon error with the
/// decoder's reason; a JSON body gives a startup error quoting its `message`
/// text, or a daemon error where it has none. Which text the `message` member
/// holds is for the JSON decoder to say, and `start_failure_of` states the
/// error for each decoded reply exactly.
pub fn start_failure(body: &str) -> (r: DockerTestError)
    ensures
        !is_json_text(body@) ==> r is Daemon && exists|t: Seq<char>|
            r->Daemon_0@ == "daemon json response decode failure: "@ + t,
        is_json_text(body@) ==> (r is Startup && exists|m: Seq<char>|
            r->Startup_0@ == "failed to start container due to `"@ + m + "`"@) || (r is Daemon
            && r->Daemon_0@ == "daemon response without a message"@),
{
    match parse_json(body) {
        Ok(v) => {
            let text = match v.pointer("/message") {
                Some(m) => m.as_str(),
                None => None,
            };
            start_failure_of(Ok(text))
        },
        Err(e) => start_failure_of(Err(e.to_string())),
    }
}

} // verus!
