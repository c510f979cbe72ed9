//! Server-side dispatch: a decoded request becomes one call of a domain
//! operation, and its outcome becomes exactly one response.
use vstd::prelude::*;

use crate::codec::{decode_message, decoded, encode_message, message_bytes, DecodeError};
use crate::messages::{
    change_of_number, status_number, HorustChangeServiceStatus, HorustMsgError, HorustMsgMessage,
    HorustMsgResponse, HorustMsgServiceChangeResponse, HorustMsgServiceInfoResponse,
    HorustMsgServiceStatus, HorustMsgServiceStatusResponse, MessageType, MessageView, Request,
    RequestView, Response, ResponseView,
};

verus! {

/// The three domain operations that a daemon offers to its clients. An
/// error carries a human-readable message.
pub trait CommandsHandlerTrait {
    fn get_service_status(&self, service_name: &str) -> Result<HorustMsgServiceStatus, String>;

    fn get_service_info(&self, service_name: &str) -> Result<String, String>;

    fn update_service_status(
        &mut self,
        service_name: &str,
        new_status: HorustChangeServiceStatus,
    ) -> Result<HorustMsgServiceStatus, String>;
}

/// Prefix of the error text for a failed status or info lookup.
pub open spec fn status_failure_prefix() -> Seq<char> {
    "Error from status handler: "@
}

/// Prefix of the error text for a failed change.
pub open spec fn change_failure_prefix() -> Seq<char> {
    "Error from change handler: "@
}

/// Error text of a change request whose transition number is unknown.
pub open spec fn unknown_change_text() -> Seq<char> {
    "unknown change status"@
}

/// An envelope holding one error response.
pub open spec fn error_view(text: Seq<char>) -> MessageView {
    MessageView::Response(Some(ResponseView::Error(text)))
}

/// The reply to a status request for `name` whose lookup gave `outcome`.
pub open spec fn status_reply(
    name: Seq<char>,
    outcome: Result<HorustMsgServiceStatus, Seq<char>>,
) -> MessageView {
    match outcome {
        Ok(s) => MessageView::Response(Some(ResponseView::Status(name, status_number(s)))),
        Err(e) => error_view(status_failure_prefix() + e),
    }
}

/// The reply to an info request for `name` whose lookup gave `outcome`.
pub open spec fn info_reply(name: Seq<char>, outcome: Result<Seq<char>, Seq<char>>) -> MessageView {
    match outcome {
        Ok(i) => MessageView::Response(Some(ResponseView::Info(name, i))),
        Err(e) => error_view(status_failure_prefix() + e),
    }
}

/// The reply to a change request for `name` whose update gave `outcome`.
pub open spec fn change_reply(
    name: Seq<char>,
    outcome: Result<HorustMsgServiceStatus, Seq<char>>,
) -> MessageView {
    match outcome {
        Ok(s) => MessageView::Response(Some(ResponseView::Change(name, status_number(s)))),
        Err(e) => error_view(change_failure_prefix() + e),
    }
}

/// Builds an error response carrying `error`.
pub fn new_horust_msg_error_response(error: String) -> (r: HorustMsgMessage)
    ensures
        r@ == error_view(error@),
{
    HorustMsgMessage {
        message_type: Some(
            MessageType::Response(
                HorustMsgResponse {
                    response: Some(Response::Error(HorustMsgError { error_string: error })),
                },
            ),
        ),
    }
}

/// Builds a status response for `service_name`.
pub fn new_horust_msg_service_status_response(
    service_name: String,
    status: HorustMsgServiceStatus,
) -> (r: HorustMsgMessage)
    ensures
        r@ == MessageView::Response(
            Some(ResponseView::Status(service_name@, status_number(status))),
        ),
{
    let service_status = status.to_i32();
    HorustMsgMessage {
        message_type: Some(
            MessageType::Response(
                HorustMsgResponse {
                    response: Some(
                        Response::StatusResponse(
                            HorustMsgServiceStatusResponse { service_name, service_status },
                        ),
                    ),
                },
            ),
        ),
    }
}

/// Builds a change response for `service_name`.
pub fn new_horust_msg_service_change_response(
    service_name: String,
    status: HorustMsgServiceStatus,
) -> (r: HorustMsgMessage)
    ensures
        r@ == MessageView::Response(
            Some(ResponseView::Change(service_name@, status_number(status))),
        ),
{
    let service_status = status.to_i32();
    HorustMsgMessage {
        message_type: Some(
            MessageType::Response(
                HorustMsgResponse {
                    response: Some(
                        Response::ChangeResponse(
                            HorustMsgServiceChangeResponse { service_name, service_status },
                        ),
                    ),
                },
            ),
        ),
    }
}

/// Builds an info response for `service_name`.
pub fn new_horust_msg_service_info_response(service_name: String, info: String) -> (r:
    HorustMsgMessage)
    ensures
        r@ == MessageView::Response(Some(ResponseView::Info(service_name@, info@))),
{
    HorustMsgMessage {
        message_type: Some(
            MessageType::Response(
                HorustMsgResponse {
                    response: Some(
                        Response::InfoResponse(HorustMsgServiceInfoResponse { service_name, info }),
                    ),
                },
            ),
        ),
    }
}

/// The model of an outcome whose error is a `String`.
pub open spec fn outcome_view<T>(r: Result<T, String>) -> Result<T, Seq<char>> {
    match r {
        Ok(v) => Ok(v),
        Err(s) => Err(s@),
    }
}

/// The model of an info outcome.
pub open spec fn info_outcome_view(r: Result<String, String>) -> Result<Seq<char>, Seq<char>> {
    match r {
        Ok(i) => Ok(i@),
        Err(e) => Err(e@),
    }
}

/// The reply to a status request for `service_name`, given what the
/// lookup returned.
pub fn reply_to_status(
    service_name: String,
    outcome: Result<HorustMsgServiceStatus, String>,
) -> (r: HorustMsgMessage)
    ensures
        r@ == status_reply(service_name@, outcome_view(outcome)),
{
    match outcome {
        Ok(status) => new_horust_msg_service_status_response(service_name, status),
        Err(e) => {
            let text = String::from_str("Error from status handler: ").concat(e.as_str());
            new_horust_msg_error_response(text)
        },
    }
}

/// The reply to an info request for `service_name`, given what the lookup
/// returned.
pub fn reply_to_info(service_name: String, outcome: Result<String, String>) -> (r:
    HorustMsgMessage)
    ensures
        r@ == info_reply(service_name@, info_outcome_view(outcome)),
{
    match outcome {
        Ok(info) => new_horust_msg_service_info_response(service_name, info),
        Err(e) => {
            let text = String::from_str("Error from status handler: ").concat(e.as_str());
            new_horust_msg_error_response(text)
        },
    }
}

/// The reply to a change request for `service_name`, given what the update
/// returned.
pub fn reply_to_change(
    service_name: String,
    outcome: Result<HorustMsgServiceStatus, String>,
) -> (r: HorustMsgMessage)
    ensures
        r@ == change_reply(service_name@, outcome_view(outcome)),
{
    match outcome {
        Ok(status) => new_horust_msg_service_change_response(service_name, status),
        Err(e) => {
            let text = String::from_str("Error from change handler: ").concat(e.as_str());
            new_horust_msg_error_response(text)
        },
    }
}

/// Whether `reply` answers `request`: a reply of the request's own kind for
/// its service, or an error; a change to an unknown transition number is
/// answered with the error that names it.
pub open spec fn answers(request: RequestView, reply: MessageView) -> bool {
    match request {
        RequestView::Status(n) => exists|o: Result<HorustMsgServiceStatus, Seq<char>>|
            reply == #[trigger] status_reply(n, o),
        RequestView::Info(n) => exists|o: Result<Seq<char>, Seq<char>>|
            reply == #[trigger] info_reply(n, o),
        RequestView::Change(n, c) => match change_of_number(c) {
            Some(_) => exists|o: Result<HorustMsgServiceStatus, Seq<char>>|
                reply == #[trigger] change_reply(n, o),
            None => reply == change_reply(n, Err(unknown_change_text())),
        },
    }
}

/// Serves one request: calls the matching domain operation once and turns
/// its outcome into exactly one response. A change request whose
/// transition number is unknown is answered with an error and calls nothing.
pub fn handle_request<H: CommandsHandlerTrait>(handler: &mut H, request: Request) -> (r:
    HorustMsgMessage)
    ensures
        answers(request@, r@),
{
    let ghost req = request@;
    let r = match request {
        Request::StatusRequest(q) => {
            let outcome = handler.get_service_status(q.service_name.as_str());
            let ghost o = outcome_view(outcome);
            let r = reply_to_status(q.service_name, outcome);
            assert(r@ == status_reply(q.service_name@, o));
            r
        },
        Request::InfoRequest(q) => {
            let outcome = handler.get_service_info(q.service_name.as_str());
            let ghost o = info_outcome_view(outcome);
            let r = reply_to_info(q.service_name, outcome);
            assert(r@ == info_reply(q.service_name@, o));
            r
        },
        Request::ChangeRequest(q) => {
            match HorustChangeServiceStatus::from_i32(q.service_status) {
                Some(change) => {
                    let outcome = handler.update_service_status(q.service_name.as_str(), change);
                    let ghost o = outcome_view(outcome);
                    let r = reply_to_change(q.service_name, outcome);
                    assert(r@ == change_reply(q.service_name@, o));
                    r
                },
                None => {
                    let text = String::from_str("Error from change handler: ").concat(
                        "unknown change status",
                    );
                    let r = new_horust_msg_error_response(text);
                    assert(r@ == change_reply(q.service_name@, Err(unknown_change_text())));
                    r
                },
            }
        },
    };
    assert(answers(req, r@));
    r
}

/// Serves one received message: a message that holds a request gets
/// exactly one response; any other message gets none.
pub fn handle_message<H: CommandsHandlerTrait>(
    handler: &mut H,
    message: HorustMsgMessage,
) -> (r: Option<HorustMsgMessage>)
    ensures
        r is Some <==> (message@ matches MessageView::Request(Some(_))),
        r matches Some(reply) ==> answers(message@->Request_0->Some_0, reply@),
{
    match message.message_type {
        Some(MessageType::Request(q)) => match q.request {
            Some(request) => Some(handle_request(handler, request)),
            None => None,
        },
        _ => None,
    }
}

/// Serves the bytes of one received message: a message that holds a
/// request gets the bytes of exactly one response; any other message gets
/// none; bytes that form no message are refused.
pub fn handle_bytes<H: CommandsHandlerTrait>(handler: &mut H, received: &[u8]) -> (r: Result<
    Option<Vec<u8>>,
    DecodeError,
>)
    ensures
        match decoded(received@) {
            None => r is Err,
            Some(MessageView::Request(Some(q))) => r matches Ok(Some(b)) && exists|m: MessageView|
                answers(q, m) && b@ == #[trigger] message_bytes(m),
            Some(_) => r matches Ok(None),
        },
{
    let message = match decode_message(received) {
        Ok(m) => m,
        Err(e) => {
            return Err(e);
        },
    };
    let ghost v = message@;
    match handle_message(handler, message) {
        Some(reply) => {
            let bytes = encode_message(&reply);
            assert(answers(v->Request_0->Some_0, reply@));
            Ok(Some(bytes))
        },
        None => Ok(None),
    }
}

} // verus!
