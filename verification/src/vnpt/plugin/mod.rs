//! The functions that the plugin offers to the page, and how a call is
//! answered.

pub mod check;
pub mod license;

use vstd::prelude::*;
use crate::vnpt::schema::client_request::ClientRequest;
use crate::vnpt::schema::json::{decimal_digits, is_plain_json_char, is_plain_json_text};
use crate::vnpt::schema::server_response::plain_response_json;
use crate::vnpt::plugin::check::plugin_check_reply;
use crate::vnpt::plugin::license::check::{license_given, license_reply};

verus! {

/// The function id of the license check.
pub const LICENSE_CHECK_ID: i32 = 6;

/// The function id of the plugin check.
pub const PLUGIN_CHECK_ID: i32 = 7;

/// The text of a reply message: the reply's JSON, a `*`, and the name of the
/// page's callback.
pub open spec fn message_text(payload: Seq<char>, callback: Seq<char>) -> Seq<char> {
    payload + seq!['*'] + callback
}

/// A message frames its parts so that both can be read back: the payload
/// comes first, and the message ends with a `*` followed by the callback's
/// name.
pub proof fn lemma_message_frames_payload_and_callback(payload: Seq<char>, callback: Seq<char>)
    ensures
        ({
            let m = message_text(payload, callback);
            &&& m.len() == payload.len() + 1 + callback.len()
            &&& m.subrange(0, payload.len() as int) == payload
            &&& m[payload.len() as int] == '*'
            &&& m.subrange(m.len() - callback.len(), m.len() as int) == callback
        }),
{
    let m = message_text(payload, callback);
    assert(m.subrange(0, payload.len() as int) =~= payload);
    assert(m.subrange(m.len() - callback.len(), m.len() as int) =~= callback);
}

/// The JSON of the answer to the plugin check, written out.
pub open spec fn plugin_check_json() -> Seq<char> {
    "{\"code\":1,\"data\":\"\",\"error\":\"\"}"@
}

/// The JSON of the reply to a license check, written out.
pub open spec fn license_reply_json(given: bool) -> Seq<char> {
    if given {
        "{\"code\":1,\"data\":\"\",\"error\":\"Set license successfully\"}"@
    } else {
        "{\"code\":-1,\"data\":\"\",\"error\":\"License not found\"}"@
    }
}

/// The reply to a license check needs no escapes, and its JSON is
/// `license_reply_json`.
proof fn lemma_license_reply_json(given: bool)
    ensures
        is_plain_json_text(license_reply(given).data),
        is_plain_json_text(license_reply(given).description),
        plain_response_json(license_reply(given)) == license_reply_json(given),
{
    reveal_strlit("{\"code\":");
    reveal_strlit(",\"data\":");
    reveal_strlit(",\"error\":");
    reveal_strlit("}");
    reveal_strlit("Set license successfully");
    reveal_strlit("License not found");
    reveal_strlit("{\"code\":1,\"data\":\"\",\"error\":\"Set license successfully\"}");
    reveal_strlit("{\"code\":-1,\"data\":\"\",\"error\":\"License not found\"}");
    let r = license_reply(given);
    assert(decimal_digits(1) == seq!['1']);
    assert forall|i: int| 0 <= i < r.description.len() implies #[trigger] is_plain_json_char(
        r.description[i],
    ) by {}
    assert(plain_response_json(r) =~= license_reply_json(given));
}

/// The answer to the plugin check needs no escapes, and its JSON is
/// `plugin_check_json`.
proof fn lemma_plugin_check_json()
    ensures
        is_plain_json_text(plugin_check_reply().data),
        is_plain_json_text(plugin_check_reply().description),
        plain_response_json(plugin_check_reply()) == plugin_check_json(),
{
    reveal_strlit("{\"code\":");
    reveal_strlit(",\"data\":");
    reveal_strlit(",\"error\":");
    reveal_strlit("}");
    reveal_strlit("{\"code\":1,\"data\":\"\",\"error\":\"\"}");
    assert(decimal_digits(1) == seq!['1']);
    assert(plain_response_json(plugin_check_reply()) =~= plugin_check_json());
}

/// What the session with the page does after a call.
#[derive(Debug)]
pub enum SessionStep {
    /// Send this message, then wait for the next call.
    Send(String),
    /// The call was refused: end the session.
    Close,
}

/// The step after a call that `invoke` answered with `reply`: send the
/// message where there is one, end the session where the call was refused.
/// A message that fails to be sent does not end the session.
pub fn session_step(reply: Result<String, ()>) -> (res: SessionStep)
    ensures
        match reply {
            Ok(m) => res matches SessionStep::Send(s) && s@ == m@,
            Err(()) => res is Close,
        },
{
    match reply {
        Ok(m) => SessionStep::Send(m),
        Err(()) => SessionStep::Close,
    }
}

/// The plugin's functions.
pub struct PluginCommands {}

impl PluginCommands {
    /// Answers a call: the license check (function 6) and the plugin check
    /// (function 7) with their replies, each as a message to the page's
    /// callback. Any other function is refused.
    pub fn invoke(&self, request: ClientRequest) -> (res: Result<String, ()>)
        ensures
            request.function_id == LICENSE_CHECK_ID ==> (res matches Ok(m) && m@ == message_text(
                license_reply_json(license_given(&request)),
                request.function_callback@,
            )),
            request.function_id == LICENSE_CHECK_ID && request.args@.len() > 0
                && request.args@[0]@.len() > 0 ==> (res matches Ok(m) && m@
                == "{\"code\":1,\"data\":\"\",\"error\":\"Set license successfully\"}"@ + seq!['*']
                + request.function_callback@),
            request.function_id == LICENSE_CHECK_ID && (request.args@.len() == 0
                || request.args@[0]@.len() == 0) ==> (res matches Ok(m) && m@
                == "{\"code\":-1,\"data\":\"\",\"error\":\"License not found\"}"@ + seq!['*']
                + request.function_callback@),
            request.function_id == PLUGIN_CHECK_ID ==> (res matches Ok(m) && m@
                == "{\"code\":1,\"data\":\"\",\"error\":\"\"}"@ + seq!['*'] + request.function_callback@),
            request.function_id == PLUGIN_CHECK_ID ==> (res matches Ok(m) && m@ == message_text(
                plugin_check_json(),
                request.function_callback@,
            )),
            request.function_id != LICENSE_CHECK_ID && request.function_id != PLUGIN_CHECK_ID
                ==> res is Err,
    {
        if request.function_id == LICENSE_CHECK_ID {
            let reply = crate::vnpt::plugin::license::check::invoke(&request);
            let payload = reply.to_value();
            proof {
                lemma_license_reply_json(license_given(&request));
            }
            Ok(self.compose_message(payload.as_str(), request))
        } else if request.function_id == PLUGIN_CHECK_ID {
            let reply = crate::vnpt::plugin::check::invoke();
            let payload = reply.to_value();
            proof {
                lemma_plugin_check_json();
            }
            Ok(self.compose_message(payload.as_str(), request))
        } else {
            Err(())
        }
    }

    /// The message that carries `payload` to the page's callback.
    pub fn compose_message(&self, payload: &str, request: ClientRequest) -> (res: String)
        ensures
            res@ == message_text(payload@, request.function_callback@),
    {
        let mut out = String::from_str(payload);
        proof {
            reveal_strlit("*");
        }
        out.append("*");
        out.append(request.function_callback.as_str());
        out
    }
}

} // verus!
