//! Client-side logic: building the one request of an exchange, and turning
//! the reply into the typed result or a failure.
use vstd::prelude::*;

use crate::server::{
    change_failure_prefix, change_reply, info_reply, status_failure_prefix, status_reply,
};
use crate::messages::{
    change_from_name, change_number, status_of_number, HorustChangeServiceStatus,
    HorustMsgMessage, HorustMsgRequest, HorustMsgServiceChangeRequest, HorustMsgServiceInfoRequest,
    HorustMsgServiceStatus, HorustMsgServiceStatusRequest, MessageType, MessageView, Request,
    RequestView, Response, ResponseView,
};

verus! {

/// Why a client exchange failed, apart from transport failures.
#[derive(Debug, PartialEq, Eq)]
pub enum ClientError {
    /// The reply holds no response at all.
    NoResponse,
    /// The daemon answered with an error; the text is surfaced.
    Remote(String),
    /// The daemon answered with a response of another kind.
    Unexpected(Response),
    /// A status number that names no status.
    InvalidStatus(i32),
    /// A transition name that names no transition.
    UnknownChange(String),
}

/// Wraps one request in an envelope.
pub fn new_request(request_type: Request) -> (r: HorustMsgMessage)
    ensures
        r@ == MessageView::Request(Some(request_type@)),
{
    HorustMsgMessage {
        message_type: Some(MessageType::Request(HorustMsgRequest { request: Some(request_type) })),
    }
}

/// A status request for `service_name`.
pub fn status_request(service_name: String) -> (r: HorustMsgMessage)
    ensures
        r@ == MessageView::Request(Some(RequestView::Status(service_name@))),
{
    new_request(Request::StatusRequest(HorustMsgServiceStatusRequest { service_name }))
}

/// An info request for `service_name`.
pub fn info_request(service_name: String) -> (r: HorustMsgMessage)
    ensures
        r@ == MessageView::Request(Some(RequestView::Info(service_name@))),
{
    new_request(Request::InfoRequest(HorustMsgServiceInfoRequest { service_name }))
}

/// A change request for `service_name` to the transition named
/// `status_name`; an unknown name is refused.
pub fn change_request(service_name: String, status_name: &str) -> (r: Result<
    HorustMsgMessage,
    ClientError,
>)
    ensures
        match change_from_name(status_name@) {
            Some(c) => r matches Ok(m) && m@ == MessageView::Request(
                Some(RequestView::Change(service_name@, change_number(c))),
            ),
            None => r matches Err(ClientError::UnknownChange(n)) && n@ == status_name@,
        },
{
    match HorustChangeServiceStatus::from_str_name(status_name) {
        Some(c) => Ok(
            new_request(
                Request::ChangeRequest(
                    HorustMsgServiceChangeRequest { service_name, service_status: c.to_i32() },
                ),
            ),
        ),
        None => Err(ClientError::UnknownChange(String::from_str(status_name))),
    }
}

/// The text surfaced for an error response carrying `e`.
pub open spec fn remote_text(e: Seq<char>) -> Seq<char> {
    "Error: "@ + e
}

/// Takes the response out of a reply: `None` when the reply holds no
/// response, the error text for an error response, and the response
/// itself otherwise.
pub fn unwrap_response(response: HorustMsgMessage) -> (r: Option<Result<Response, String>>)
    ensures
        match response@ {
            MessageView::Response(Some(ResponseView::Error(e))) => r matches Some(Err(t)) && t@
                == remote_text(e),
            MessageView::Response(Some(v)) => r matches Some(Ok(p)) && p@ == v,
            _ => r is None,
        },
{
    match response.message_type {
        Some(MessageType::Response(resp)) => match resp.response {
            Some(Response::Error(error)) => Some(
                Err(String::from_str("Error: ").concat(error.error_string.as_str())),
            ),
            Some(v) => Some(Ok(v)),
            None => None,
        },
        _ => None,
    }
}

/// What a client call on a reply `m` fails with before looking at the
/// kind of response: `None` when `m` holds a response that is no error.
pub open spec fn reply_failure(m: MessageView) -> Option<ClientErrorView> {
    match m {
        MessageView::Response(Some(ResponseView::Error(e))) => Some(
            ClientErrorView::Remote(remote_text(e)),
        ),
        MessageView::Response(Some(_)) => None,
        _ => Some(ClientErrorView::NoResponse),
    }
}

/// The mathematical model of a client failure.
pub ghost enum ClientErrorView {
    NoResponse,
    Remote(Seq<char>),
    Unexpected(ResponseView),
    InvalidStatus(i32),
    UnknownChange(Seq<char>),
}

impl View for ClientError {
    type V = ClientErrorView;

    open spec fn view(&self) -> ClientErrorView {
        match self {
            ClientError::NoResponse => ClientErrorView::NoResponse,
            ClientError::Remote(t) => ClientErrorView::Remote(t@),
            ClientError::Unexpected(p) => ClientErrorView::Unexpected(p@),
            ClientError::InvalidStatus(n) => ClientErrorView::InvalidStatus(*n),
            ClientError::UnknownChange(n) => ClientErrorView::UnknownChange(n@),
        }
    }
}

/// The result of a status call whose reply is `m`.
pub open spec fn status_outcome(m: MessageView) -> Result<
    (Seq<char>, HorustMsgServiceStatus),
    ClientErrorView,
> {
    match reply_failure(m) {
        Some(f) => Err(f),
        None => match m {
            MessageView::Response(Some(ResponseView::Status(n, s))) => match status_of_number(s) {
                Some(st) => Ok((n, st)),
                None => Err(ClientErrorView::InvalidStatus(s)),
            },
            MessageView::Response(Some(v)) => Err(ClientErrorView::Unexpected(v)),
            _ => Err(ClientErrorView::NoResponse),
        },
    }
}

/// The result of a change call whose reply is `m`.
pub open spec fn change_outcome(m: MessageView) -> Result<
    (Seq<char>, HorustMsgServiceStatus),
    ClientErrorView,
> {
    match reply_failure(m) {
        Some(f) => Err(f),
        None => match m {
            MessageView::Response(Some(ResponseView::Change(n, s))) => match status_of_number(s) {
                Some(st) => Ok((n, st)),
                None => Err(ClientErrorView::InvalidStatus(s)),
            },
            MessageView::Response(Some(v)) => Err(ClientErrorView::Unexpected(v)),
            _ => Err(ClientErrorView::NoResponse),
        },
    }
}

/// The result of an info call whose reply is `m`.
pub open spec fn info_outcome(m: MessageView) -> Result<(Seq<char>, Seq<char>), ClientErrorView> {
    match reply_failure(m) {
        Some(f) => Err(f),
        None => match m {
            MessageView::Response(Some(ResponseView::Info(n, i))) => Ok((n, i)),
            MessageView::Response(Some(v)) => Err(ClientErrorView::Unexpected(v)),
            _ => Err(ClientErrorView::NoResponse),
        },
    }
}

/// The model of a typed result that carries a name and a status.
pub open spec fn named_status_view(r: Result<(String, HorustMsgServiceStatus), ClientError>) -> Result<
    (Seq<char>, HorustMsgServiceStatus),
    ClientErrorView,
> {
    match r {
        Ok((n, s)) => Ok((n@, s)),
        Err(e) => Err(e@),
    }
}

/// The model of a typed result that carries a name and an info line.
pub open spec fn named_info_view(r: Result<(String, String), ClientError>) -> Result<
    (Seq<char>, Seq<char>),
    ClientErrorView,
> {
    match r {
        Ok((n, i)) => Ok((n@, i@)),
        Err(e) => Err(e@),
    }
}

/// Turns the reply to a status request into the service's name and status.
pub fn status_reply_of(received: HorustMsgMessage) -> (r: Result<
    (String, HorustMsgServiceStatus),
    ClientError,
>)
    ensures
        named_status_view(r) == status_outcome(received@),
{
    match unwrap_response(received) {
        None => Err(ClientError::NoResponse),
        Some(Err(text)) => Err(ClientError::Remote(text)),
        Some(Ok(Response::StatusResponse(resp))) => match HorustMsgServiceStatus::from_i32(
            resp.service_status,
        ) {
            Some(s) => Ok((resp.service_name, s)),
            None => Err(ClientError::InvalidStatus(resp.service_status)),
        },
        Some(Ok(other)) => Err(ClientError::Unexpected(other)),
    }
}

/// Turns the reply to a change request into the service's name and status.
pub fn change_reply_of(received: HorustMsgMessage) -> (r: Result<
    (String, HorustMsgServiceStatus),
    ClientError,
>)
    ensures
        named_status_view(r) == change_outcome(received@),
{
    match unwrap_response(received) {
        None => Err(ClientError::NoResponse),
        Some(Err(text)) => Err(ClientError::Remote(text)),
        Some(Ok(Response::ChangeResponse(resp))) => match HorustMsgServiceStatus::from_i32(
            resp.service_status,
        ) {
            Some(s) => Ok((resp.service_name, s)),
            None => Err(ClientError::InvalidStatus(resp.service_status)),
        },
        Some(Ok(other)) => Err(ClientError::Unexpected(other)),
    }
}

/// Turns the reply to an info request into the service's name and info line.
pub fn info_reply_of(received: HorustMsgMessage) -> (r: Result<(String, String), ClientError>)
    ensures
        named_info_view(r) == info_outcome(received@),
{
    match unwrap_response(received) {
        None => Err(ClientError::NoResponse),
        Some(Err(text)) => Err(ClientError::Remote(text)),
        Some(Ok(Response::InfoResponse(resp))) => Ok((resp.service_name, resp.info)),
        Some(Ok(other)) => Err(ClientError::Unexpected(other)),
    }
}

/// A client reads back what the server's reply carries: the name and the
/// status or info line of a successful operation, and the server's error
/// text, surfaced as a failure, of a failed one.
pub proof fn lemma_client_reads_server_replies(
    name: Seq<char>,
    status: HorustMsgServiceStatus,
    info: Seq<char>,
    error: Seq<char>,
)
    ensures
        status_outcome(status_reply(name, Ok(status))) == Ok::<
            (Seq<char>, HorustMsgServiceStatus),
            ClientErrorView,
        >((name, status)),
        status_outcome(status_reply(name, Err(error))) == Err::<
            (Seq<char>, HorustMsgServiceStatus),
            ClientErrorView,
        >(ClientErrorView::Remote(remote_text(status_failure_prefix() + error))),
        change_outcome(change_reply(name, Ok(status))) == Ok::<
            (Seq<char>, HorustMsgServiceStatus),
            ClientErrorView,
        >((name, status)),
        change_outcome(change_reply(name, Err(error))) == Err::<
            (Seq<char>, HorustMsgServiceStatus),
            ClientErrorView,
        >(ClientErrorView::Remote(remote_text(change_failure_prefix() + error))),
        info_outcome(info_reply(name, Ok(info))) == Ok::<
            (Seq<char>, Seq<char>),
            ClientErrorView,
        >((name, info)),
        info_outcome(info_reply(name, Err(error))) == Err::<
            (Seq<char>, Seq<char>),
            ClientErrorView,
        >(ClientErrorView::Remote(remote_text(status_failure_prefix() + error))),
{
    crate::messages::lemma_status_names(status, Seq::empty());
}

} // verus!
