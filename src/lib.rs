//! Control plane of a process supervisor: the administration wire protocol,
//! its byte encoding, request dispatch, the client-side reply handling and
//! the daemon-side mirror of service status and process ids.
pub mod client;
pub mod codec;
pub mod handler;
pub mod messages;
pub mod server;

pub use messages::{
    HorustChangeServiceStatus, HorustMsgError, HorustMsgMessage, HorustMsgRequest,
    HorustMsgResponse, HorustMsgServiceChangeRequest, HorustMsgServiceChangeResponse,
    HorustMsgServiceInfoRequest, HorustMsgServiceInfoResponse, HorustMsgServiceStatus,
    HorustMsgServiceStatusRequest, HorustMsgServiceStatusResponse, MessageType, Request, Response,
};
