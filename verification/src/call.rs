//! A management call, from its JSON payload to its JSON reply.

use crate::json::{
    bool_value_of, failure_reply, failure_text, lemma_failure_fields, lemma_success_fields,
    object_text_of, parse_json, parsed_json, string_value_of, success_reply, success_text,
};
use crate::service::{service_name_of, CallError, ManagementService, ScopedCall};
use crate::session::{lemma_clients_call_as_asked, NearbyManagementSession, NearbyRole};
use crate::sessions::NearbySessions;
use crate::text::trimmed;
use serde_json::Value;
use vstd::prelude::*;
use vstd::utf8::encode_utf8;

verus! {

/// The most bytes that a payload may hold.
pub const MAX_JSON_PAYLOAD_BYTES: usize = 4194304;

/// What is to be done about a call.
pub enum CallStep {
    /// Answer it at once.
    Reply(String),
    /// Answer it with an error of the session.
    Fail(CallError),
    /// Make it.
    Call(ScopedCall),
}

/// The domain that a call without one is made in.
pub open spec fn domain_or_default(domain_name: Option<&str>) -> Seq<char> {
    match domain_name {
        Some(domain) => domain@,
        None => Seq::empty(),
    }
}

/// Why a call is answered before it reaches the session, if it is.
pub open spec fn early_failure(payload_json: Seq<char>, session_found: bool) -> Option<Seq<char>> {
    if encode_utf8(payload_json).len() > MAX_JSON_PAYLOAD_BYTES {
        Some("management payload is too large"@)
    } else if !session_found {
        Some("nearby management session not found"@)
    } else {
        match parsed_json(payload_json) {
            Err(error) => Some("invalid management JSON: "@ + error),
            Ok(_) => None,
        }
    }
}

/// Whether `step` is what is to be done about a call of the given session, if there is
/// one.
pub open spec fn is_call_step<Rpc, Task>(
    session: Option<NearbyManagementSession<Rpc, Task>>,
    service_name: Seq<char>,
    method_name: Seq<char>,
    domain_name: Seq<char>,
    payload_json: Seq<char>,
    step: CallStep,
) -> bool {
    match early_failure(payload_json, session is Some) {
        Some(error) => step is Reply && step->Reply_0@ == failure_text(error),
        None => {
            let service = trimmed(service_name);
            let method = trimmed(method_name);
            let domain = trimmed(domain_name);
            let payload = parsed_json(payload_json)->Ok_0;
            match step {
                CallStep::Reply(_) => false,
                CallStep::Fail(error) => session->0.answers_call(
                    service,
                    method,
                    domain,
                    payload,
                    Err(error),
                ),
                CallStep::Call(call) => session->0.answers_call(
                    service,
                    method,
                    domain,
                    payload,
                    Ok(call),
                ),
            }
        },
    }
}

/// What is to be done about a call of the session that is open under a key: an
/// answer, where the payload is too large, there is no such session or the payload is
/// no JSON, and otherwise what the session makes of it.
pub fn call_nearby_management_json_rpc<Rpc, Task>(
    sessions: &NearbySessions<Rpc, Task>,
    session_key: &str,
    service_name: &str,
    method_name: &str,
    domain_name: Option<&str>,
    payload_json: &str,
) -> (step: CallStep)
    requires
        sessions.well_formed(),
    ensures
        is_call_step(
            if sessions@.contains_key(session_key@) {
                Some(sessions@[session_key@])
            } else {
                None
            },
            service_name@,
            method_name@,
            domain_or_default(domain_name),
            payload_json@,
            step,
        ),
        step is Reply <==> encode_utf8(payload_json@).len() > 4194304 || !sessions@.contains_key(
            session_key@,
        ) || parsed_json(payload_json@) is Err,
        step is Call <==> {
            &&& !(step is Reply)
            &&& sessions@[session_key@]@.role == NearbyRole::Client
            &&& exists|service: ManagementService|
                trimmed(service_name@) == #[trigger] service_name_of(service)
        },
        step matches CallStep::Call(call) ==> {
            &&& parsed_json(payload_json@) == Ok::<Value, Seq<char>>(call.payload)
            &&& service_name_of(call.service) == trimmed(service_name@)
            &&& call.method@ == trimmed(method_name@)
            &&& domain_name matches Some(domain) ==> call.domain@ == trimmed(domain@)
            &&& domain_name is None ==> call.domain@.len() == 0
            &&& call.from_peer == 1
            &&& call.to_peer == 1
        },
        step matches CallStep::Fail(error) ==> match error {
            CallError::NotAClient => sessions@[session_key@]@.role == NearbyRole::HostProxy,
            CallError::ClientUnavailable => false,
            CallError::InvalidServiceKey(service, protocol) => {
                &&& sessions@[session_key@]@.role == NearbyRole::Client
                &&& service@ == trimmed(service_name@)
                &&& protocol@ == trimmed(service_name@)
            },
        },
        match early_failure(payload_json@, sessions@.contains_key(session_key@)) {
            Some(error) => step is Reply && step->Reply_0@ == failure_text(error),
            None => {
                let service = trimmed(service_name@);
                let method = trimmed(method_name@);
                let domain = trimmed(domain_or_default(domain_name));
                let payload = parsed_json(payload_json@)->Ok_0;
                match step {
                    CallStep::Reply(_) => false,
                    CallStep::Fail(error) => sessions@[session_key@].answers_call(
                        service,
                        method,
                        domain,
                        payload,
                        Err(error),
                    ),
                    CallStep::Call(call) => sessions@[session_key@].answers_call(
                        service,
                        method,
                        domain,
                        payload,
                        Ok(call),
                    ),
                }
            },
        },
{
    if payload_json.as_bytes().len() > MAX_JSON_PAYLOAD_BYTES {
        return CallStep::Reply(failure_reply("management payload is too large"));
    }
    let session = match sessions.session(session_key) {
        Some(session) => session,
        None => return CallStep::Reply(failure_reply("nearby management session not found")),
    };
    let payload = match parse_json(payload_json) {
        Ok(payload) => payload,
        Err(error) => {
            let mut message = "invalid management JSON: ".to_owned();
            message.append(error.as_str());
            return CallStep::Reply(failure_reply(message.as_str()));
        },
    };
    let domain = match domain_name {
        Some(domain) => domain,
        None => {
            proof {
                reveal_strlit("");
                assert(""@ =~= Seq::<char>::empty());
            }
            ""
        },
    };
    match session.call_json(service_name.trim(), method_name.trim(), domain.trim(), payload) {
        Ok(call) => CallStep::Call(call),
        Err(error) => CallStep::Fail(error),
    }
}

/// The text of the reply to a call with the given outcome.
pub open spec fn reply_text(outcome: Result<Value, Seq<char>>) -> Seq<char> {
    match outcome {
        Ok(result) => success_text(result),
        Err(error) => failure_text(error),
    }
}

/// The reply to a call that was made, or that the session refused: its result, or
/// the words of its error.
pub fn management_reply(outcome: Result<Value, String>) -> (reply: String)
    ensures
        reply@ == reply_text(
            match outcome {
                Ok(result) => Ok(result),
                Err(error) => Err(error@),
            },
        ),
        match outcome {
            Ok(result) => reply@ == success_text(result),
            Err(error) => reply@ == failure_text(error@),
        },
{
    match outcome {
        Ok(result) => success_reply(result),
        Err(error) => failure_reply(error.as_str()),
    }
}

/// A call reaches its session exactly where its payload is JSON of up to 4 MiB and there
/// is such a session; otherwise it is answered for the first reason there is.
pub proof fn lemma_calls_answered_early(payload_json: Seq<char>, session_found: bool)
    ensures
        early_failure(payload_json, session_found) is None <==> encode_utf8(payload_json).len()
            <= 4194304 && session_found && parsed_json(payload_json) is Ok,
        encode_utf8(payload_json).len() > 4194304 ==> early_failure(payload_json, session_found)
            == early_failure(payload_json, !session_found) && early_failure(
            payload_json,
            session_found,
        ) == Some("management payload is too large"@),
        encode_utf8(payload_json).len() <= 4194304 && !session_found ==> early_failure(
            payload_json,
            session_found,
        ) == Some("nearby management session not found"@),
        encode_utf8(payload_json).len() <= 4194304 && session_found ==> match parsed_json(
            payload_json,
        ) {
            Ok(_) => true,
            Err(words) => early_failure(payload_json, session_found) == Some(
                "invalid management JSON: "@ + words,
            ),
        },
{
}

/// A call without a domain is made in the empty one, and one with a domain in that.
pub proof fn lemma_domains(domain_name: Option<&str>)
    ensures
        domain_name is None ==> domain_or_default(domain_name).len() == 0,
        domain_name matches Some(domain) ==> domain_or_default(domain_name) == domain@,
{
}

/// A client's call to a service, by its name with white space around it, is made to that
/// service with the value that the payload's text is JSON for, and with the method and
/// the domain without the white space around them.
pub proof fn lemma_calls_are_made_as_asked<Rpc, Task>(
    session: NearbyManagementSession<Rpc, Task>,
    service: ManagementService,
    service_name: Seq<char>,
    method_name: Seq<char>,
    domain_name: Seq<char>,
    payload_json: Seq<char>,
    payload: Value,
    step: CallStep,
)
    requires
        session@.role == NearbyRole::Client,
        session@.rpc is Some,
        trimmed(service_name) == service_name_of(service),
        encode_utf8(payload_json).len() <= 4194304,
        parsed_json(payload_json) == Ok::<Value, Seq<char>>(payload),
        is_call_step(Some(session), service_name, method_name, domain_name, payload_json, step),
    ensures
        step is Call,
        step->Call_0.service == service,
        step->Call_0.payload == payload,
        step->Call_0.method@ == trimmed(method_name),
        step->Call_0.domain@ == trimmed(domain_name),
{
    match step {
        CallStep::Reply(_) => {},
        CallStep::Fail(error) => {
            lemma_clients_call_as_asked(
                session,
                service,
                trimmed(method_name),
                trimmed(domain_name),
                payload,
                Err(error),
            );
        },
        CallStep::Call(call) => {
            lemma_clients_call_as_asked(
                session,
                service,
                trimmed(method_name),
                trimmed(domain_name),
                payload,
                Ok(call),
            );
        },
    }
}

/// A call without a session, with too large a payload or with one that is no JSON is
/// never made.
pub proof fn lemma_bad_calls_are_answered<Rpc, Task>(
    session: Option<NearbyManagementSession<Rpc, Task>>,
    service_name: Seq<char>,
    method_name: Seq<char>,
    domain_name: Seq<char>,
    payload_json: Seq<char>,
    step: CallStep,
)
    requires
        is_call_step(session, service_name, method_name, domain_name, payload_json, step),
    ensures
        step is Reply <==> session is None || encode_utf8(payload_json).len() > 4194304
            || parsed_json(payload_json) is Err,
        session is Some && session->0@.role == NearbyRole::HostProxy ==> !(step is Call),
{
}

/// A reply is a JSON object with two fields: `ok`, which says whether the call succeeded,
/// and the result as it is where it did, or the error's words where it did not.
pub proof fn lemma_replies_say_how_the_call_went(outcome: Result<Value, Seq<char>>)
    ensures
        exists|fields: Map<Seq<char>, Value>|
            {
                &&& reply_text(outcome) == #[trigger] object_text_of(fields)
                &&& fields.dom().len() == 2
                &&& fields.contains_key("ok"@)
                &&& fields["ok"@] == bool_value_of(outcome is Ok)
                &&& outcome matches Ok(result) ==> fields.contains_key("result"@)
                    && fields["result"@] == result
                &&& outcome matches Err(error) ==> fields.contains_key("error"@)
                    && fields["error"@] == string_value_of(error)
            },
{
    reveal_strlit("ok");
    reveal_strlit("result");
    reveal_strlit("error");
    assert("ok"@.len() == 2 && "result"@.len() == 6 && "error"@.len() == 5);
    match outcome {
        Ok(result) => {
            lemma_success_fields(result);
            let fields = choose|fields: Map<Seq<char>, Value>|
                {
                    &&& success_text(result) == #[trigger] object_text_of(fields)
                    &&& fields.dom() == set!["ok"@, "result"@]
                    &&& fields["ok"@] == bool_value_of(true)
                    &&& fields["result"@] == result
                };
            assert(fields.dom().len() == 2);
            assert(reply_text(outcome) == object_text_of(fields));
        },
        Err(error) => {
            lemma_failure_fields(error);
            let fields = choose|fields: Map<Seq<char>, Value>|
                {
                    &&& failure_text(error) == #[trigger] object_text_of(fields)
                    &&& fields.dom() == set!["ok"@, "error"@]
                    &&& fields["ok"@] == bool_value_of(false)
                    &&& fields["error"@] == string_value_of(error)
                };
            assert(fields.dom().len() == 2);
            assert(reply_text(outcome) == object_text_of(fields));
        },
    }
}

} // verus!
