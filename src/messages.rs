//! The wire protocol: the message envelope, its closed unions, and the two
//! enumerations with their stable textual names.
use vstd::prelude::*;

verus! {

/// Whether two string slices hold the same characters.
pub fn str_eq(a: &str, b: &str) -> (r: bool)
    ensures
        r == (a@ == b@),
{
    let n = a.unicode_len();
    let m = b.unicode_len();
    if n != m {
        return false;
    }
    let mut i: usize = 0;
    while i < n
        invariant
            n == a@.len(),
            m == b@.len(),
            n == m,
            i <= n,
            forall|j: int| 0 <= j < i ==> a@[j] == b@[j],
        decreases n - i,
    {
        if a.get_char(i) != b.get_char(i) {
            return false;
        }
        i = i + 1;
    }
    assert(a@ =~= b@);
    true
}

/// The envelope: exactly one of a request or a response, or nothing.
#[derive(Clone, Debug, PartialEq, Eq)]
pub struct HorustMsgMessage {
    pub message_type: Option<MessageType>,
}

#[derive(Clone, Debug, PartialEq, Eq)]
pub enum MessageType {
    Request(HorustMsgRequest),
    Response(HorustMsgResponse),
}

#[derive(Clone, Debug, PartialEq, Eq)]
pub struct HorustMsgRequest {
    pub request: Option<Request>,
}

#[derive(Clone, Debug, PartialEq, Eq)]
pub enum Request {
    StatusRequest(HorustMsgServiceStatusRequest),
    ChangeRequest(HorustMsgServiceChangeRequest),
    InfoRequest(HorustMsgServiceInfoRequest),
}

#[derive(Clone, Debug, PartialEq, Eq)]
pub struct HorustMsgResponse {
    pub response: Option<Response>,
}

#[derive(Clone, Debug, PartialEq, Eq)]
pub enum Response {
    Error(HorustMsgError),
    StatusResponse(HorustMsgServiceStatusResponse),
    InfoResponse(HorustMsgServiceInfoResponse),
    ChangeResponse(HorustMsgServiceChangeResponse),
}

#[derive(Clone, Debug, PartialEq, Eq)]
pub struct HorustMsgError {
    pub error_string: String,
}

#[derive(Clone, Debug, PartialEq, Eq)]
pub struct HorustMsgServiceStatusRequest {
    pub service_name: String,
}

#[derive(Clone, Debug, PartialEq, Eq)]
pub struct HorustMsgServiceStatusResponse {
    pub service_name: String,
    /// A `HorustMsgServiceStatus` as its wire number.
    pub service_status: i32,
}

#[derive(Clone, Debug, PartialEq, Eq)]
pub struct HorustMsgServiceChangeRequest {
    pub service_name: String,
    /// A `HorustChangeServiceStatus` as its wire number.
    pub service_status: i32,
}

#[derive(Clone, Debug, PartialEq, Eq)]
pub struct HorustMsgServiceInfoRequest {
    pub service_name: String,
}

#[derive(Clone, Debug, PartialEq, Eq)]
pub struct HorustMsgServiceInfoResponse {
    pub service_name: String,
    pub info: String,
}

/// The current status after a change: shaped like the status response.
#[derive(Clone, Debug, PartialEq, Eq)]
pub struct HorustMsgServiceChangeResponse {
    pub service_name: String,
    /// A `HorustMsgServiceStatus` as its wire number.
    pub service_status: i32,
}

/// The mathematical model of a request: the kind, the service name and,
/// for a change, the requested transition's wire number.
pub ghost enum RequestView {
    Status(Seq<char>),
    Change(Seq<char>, i32),
    Info(Seq<char>),
}

/// The mathematical model of a response.
pub ghost enum ResponseView {
    Error(Seq<char>),
    Status(Seq<char>, i32),
    Info(Seq<char>, Seq<char>),
    Change(Seq<char>, i32),
}

/// The mathematical model of an envelope; an inner `None` is an empty union.
pub ghost enum MessageView {
    Empty,
    Request(Option<RequestView>),
    Response(Option<ResponseView>),
}

impl View for Request {
    type V = RequestView;

    open spec fn view(&self) -> RequestView {
        match self {
            Request::StatusRequest(r) => RequestView::Status(r.service_name@),
            Request::ChangeRequest(r) => RequestView::Change(r.service_name@, r.service_status),
            Request::InfoRequest(r) => RequestView::Info(r.service_name@),
        }
    }
}

impl View for Response {
    type V = ResponseView;

    open spec fn view(&self) -> ResponseView {
        match self {
            Response::Error(e) => ResponseView::Error(e.error_string@),
            Response::StatusResponse(r) => ResponseView::Status(r.service_name@, r.service_status),
            Response::InfoResponse(r) => ResponseView::Info(r.service_name@, r.info@),
            Response::ChangeResponse(r) => ResponseView::Change(r.service_name@, r.service_status),
        }
    }
}

impl View for HorustMsgMessage {
    type V = MessageView;

    open spec fn view(&self) -> MessageView {
        match self.message_type {
            None => MessageView::Empty,
            Some(MessageType::Request(r)) => MessageView::Request(
                match r.request {
                    None => None,
                    Some(q) => Some(q@),
                },
            ),
            Some(MessageType::Response(r)) => MessageView::Response(
                match r.response {
                    None => None,
                    Some(p) => Some(p@),
                },
            ),
        }
    }
}

/// Lifecycle status of a service, as carried on the wire.
#[derive(Clone, Copy, Debug, PartialEq, Eq, Structural, Hash)]
pub enum HorustMsgServiceStatus {
    Starting,
    Started,
    Running,
    Inkilling,
    Success,
    Finished,
    Finishedfailed,
    Failed,
    Initial,
}

/// The stable textual name of each status.
pub open spec fn status_name(s: HorustMsgServiceStatus) -> Seq<char> {
    match s {
        HorustMsgServiceStatus::Starting => "STARTING"@,
        HorustMsgServiceStatus::Started => "STARTED"@,
        HorustMsgServiceStatus::Running => "RUNNING"@,
        HorustMsgServiceStatus::Inkilling => "INKILLING"@,
        HorustMsgServiceStatus::Success => "SUCCESS"@,
        HorustMsgServiceStatus::Finished => "FINISHED"@,
        HorustMsgServiceStatus::Finishedfailed => "FINISHEDFAILED"@,
        HorustMsgServiceStatus::Failed => "FAILED"@,
        HorustMsgServiceStatus::Initial => "INITIAL"@,
    }
}

/// The status whose textual name is `name`, if any.
pub open spec fn status_from_name(name: Seq<char>) -> Option<HorustMsgServiceStatus> {
    if name == "STARTING"@ {
        Some(HorustMsgServiceStatus::Starting)
    } else if name == "STARTED"@ {
        Some(HorustMsgServiceStatus::Started)
    } else if name == "RUNNING"@ {
        Some(HorustMsgServiceStatus::Running)
    } else if name == "INKILLING"@ {
        Some(HorustMsgServiceStatus::Inkilling)
    } else if name == "SUCCESS"@ {
        Some(HorustMsgServiceStatus::Success)
    } else if name == "FINISHED"@ {
        Some(HorustMsgServiceStatus::Finished)
    } else if name == "FINISHEDFAILED"@ {
        Some(HorustMsgServiceStatus::Finishedfailed)
    } else if name == "FAILED"@ {
        Some(HorustMsgServiceStatus::Failed)
    } else if name == "INITIAL"@ {
        Some(HorustMsgServiceStatus::Initial)
    } else {
        None
    }
}

/// The wire number of each status.
pub open spec fn status_number(s: HorustMsgServiceStatus) -> i32 {
    match s {
        HorustMsgServiceStatus::Starting => 0,
        HorustMsgServiceStatus::Started => 1,
        HorustMsgServiceStatus::Running => 2,
        HorustMsgServiceStatus::Inkilling => 3,
        HorustMsgServiceStatus::Success => 4,
        HorustMsgServiceStatus::Finished => 5,
        HorustMsgServiceStatus::Finishedfailed => 6,
        HorustMsgServiceStatus::Failed => 7,
        HorustMsgServiceStatus::Initial => 8,
    }
}

/// The status with wire number `n`, if any.
pub open spec fn status_of_number(n: i32) -> Option<HorustMsgServiceStatus> {
    if n == 0 {
        Some(HorustMsgServiceStatus::Starting)
    } else if n == 1 {
        Some(HorustMsgServiceStatus::Started)
    } else if n == 2 {
        Some(HorustMsgServiceStatus::Running)
    } else if n == 3 {
        Some(HorustMsgServiceStatus::Inkilling)
    } else if n == 4 {
        Some(HorustMsgServiceStatus::Success)
    } else if n == 5 {
        Some(HorustMsgServiceStatus::Finished)
    } else if n == 6 {
        Some(HorustMsgServiceStatus::Finishedfailed)
    } else if n == 7 {
        Some(HorustMsgServiceStatus::Failed)
    } else if n == 8 {
        Some(HorustMsgServiceStatus::Initial)
    } else {
        None
    }
}

impl HorustMsgServiceStatus {
    /// The stable textual name of this status.
    pub fn as_str_name(&self) -> (r: &'static str)
        ensures
            r@ == status_name(*self),
    {
        match self {
            HorustMsgServiceStatus::Starting => "STARTING",
            HorustMsgServiceStatus::Started => "STARTED",
            HorustMsgServiceStatus::Running => "RUNNING",
            HorustMsgServiceStatus::Inkilling => "INKILLING",
            HorustMsgServiceStatus::Success => "SUCCESS",
            HorustMsgServiceStatus::Finished => "FINISHED",
            HorustMsgServiceStatus::Finishedfailed => "FINISHEDFAILED",
            HorustMsgServiceStatus::Failed => "FAILED",
            HorustMsgServiceStatus::Initial => "INITIAL",
        }
    }

    /// The status named `value`, or `None` for any other string.
    pub fn from_str_name(value: &str) -> (r: Option<HorustMsgServiceStatus>)
        ensures
            r == status_from_name(value@),
    {
        if str_eq(value, "STARTING") {
            Some(HorustMsgServiceStatus::Starting)
        } else if str_eq(value, "STARTED") {
            Some(HorustMsgServiceStatus::Started)
        } else if str_eq(value, "RUNNING") {
            Some(HorustMsgServiceStatus::Running)
        } else if str_eq(value, "INKILLING") {
            Some(HorustMsgServiceStatus::Inkilling)
        } else if str_eq(value, "SUCCESS") {
            Some(HorustMsgServiceStatus::Success)
        } else if str_eq(value, "FINISHED") {
            Some(HorustMsgServiceStatus::Finished)
        } else if str_eq(value, "FINISHEDFAILED") {
            Some(HorustMsgServiceStatus::Finishedfailed)
        } else if str_eq(value, "FAILED") {
            Some(HorustMsgServiceStatus::Failed)
        } else if str_eq(value, "INITIAL") {
            Some(HorustMsgServiceStatus::Initial)
        } else {
            None
        }
    }

    /// The wire number of this status.
    pub fn to_i32(&self) -> (r: i32)
        ensures
            r == status_number(*self),
    {
        match self {
            HorustMsgServiceStatus::Starting => 0,
            HorustMsgServiceStatus::Started => 1,
            HorustMsgServiceStatus::Running => 2,
            HorustMsgServiceStatus::Inkilling => 3,
            HorustMsgServiceStatus::Success => 4,
            HorustMsgServiceStatus::Finished => 5,
            HorustMsgServiceStatus::Finishedfailed => 6,
            HorustMsgServiceStatus::Failed => 7,
            HorustMsgServiceStatus::Initial => 8,
        }
    }

    /// The status with wire number `value`, or `None` for an unknown number.
    pub fn from_i32(value: i32) -> (r: Option<HorustMsgServiceStatus>)
        ensures
            r == status_of_number(value),
    {
        if value == 0 {
            Some(HorustMsgServiceStatus::Starting)
        } else if value == 1 {
            Some(HorustMsgServiceStatus::Started)
        } else if value == 2 {
            Some(HorustMsgServiceStatus::Running)
        } else if value == 3 {
            Some(HorustMsgServiceStatus::Inkilling)
        } else if value == 4 {
            Some(HorustMsgServiceStatus::Success)
        } else if value == 5 {
            Some(HorustMsgServiceStatus::Finished)
        } else if value == 6 {
            Some(HorustMsgServiceStatus::Finishedfailed)
        } else if value == 7 {
            Some(HorustMsgServiceStatus::Failed)
        } else if value == 8 {
            Some(HorustMsgServiceStatus::Initial)
        } else {
            None
        }
    }
}

/// A transition requested by a client.
#[derive(Clone, Copy, Debug, PartialEq, Eq, Structural, Hash)]
pub enum HorustChangeServiceStatus {
    Start,
    Stop,
}

/// The stable textual name of each transition.
pub open spec fn change_name(c: HorustChangeServiceStatus) -> Seq<char> {
    match c {
        HorustChangeServiceStatus::Start => "START"@,
        HorustChangeServiceStatus::Stop => "STOP"@,
    }
}

/// The transition whose textual name is `name`, if any.
pub open spec fn change_from_name(name: Seq<char>) -> Option<HorustChangeServiceStatus> {
    if name == "START"@ {
        Some(HorustChangeServiceStatus::Start)
    } else if name == "STOP"@ {
        Some(HorustChangeServiceStatus::Stop)
    } else {
        None
    }
}

/// The wire number of each transition.
pub open spec fn change_number(c: HorustChangeServiceStatus) -> i32 {
    match c {
        HorustChangeServiceStatus::Start => 0,
        HorustChangeServiceStatus::Stop => 1,
    }
}

/// The transition with wire number `n`, if any.
pub open spec fn change_of_number(n: i32) -> Option<HorustChangeServiceStatus> {
    if n == 0 {
        Some(HorustChangeServiceStatus::Start)
    } else if n == 1 {
        Some(HorustChangeServiceStatus::Stop)
    } else {
        None
    }
}

impl HorustChangeServiceStatus {
    /// The stable textual name of this transition.
    pub fn as_str_name(&self) -> (r: &'static str)
        ensures
            r@ == change_name(*self),
    {
        match self {
            HorustChangeServiceStatus::Start => "START",
            HorustChangeServiceStatus::Stop => "STOP",
        }
    }

    /// The transition named `value`, or `None` for any other string.
    pub fn from_str_name(value: &str) -> (r: Option<HorustChangeServiceStatus>)
        ensures
            r == change_from_name(value@),
    {
        if str_eq(value, "START") {
            Some(HorustChangeServiceStatus::Start)
        } else if str_eq(value, "STOP") {
            Some(HorustChangeServiceStatus::Stop)
        } else {
            None
        }
    }

    /// The wire number of this transition.
    pub fn to_i32(&self) -> (r: i32)
        ensures
            r == change_number(*self),
    {
        match self {
            HorustChangeServiceStatus::Start => 0,
            HorustChangeServiceStatus::Stop => 1,
        }
    }

    /// The transition with wire number `value`, or `None` for an unknown number.
    pub fn from_i32(value: i32) -> (r: Option<HorustChangeServiceStatus>)
        ensures
            r == change_of_number(value),
    {
        if value == 0 {
            Some(HorustChangeServiceStatus::Start)
        } else if value == 1 {
            Some(HorustChangeServiceStatus::Stop)
        } else {
            None
        }
    }
}

/// Each status name leads back to its status, each wire number to its
/// status, and a string that names no status is refused.
pub proof fn lemma_status_names(s: HorustMsgServiceStatus, other: Seq<char>)
    ensures
        status_from_name(status_name(s)) == Some(s),
        status_of_number(status_number(s)) == Some(s),
        (forall|t: HorustMsgServiceStatus| other != #[trigger] status_name(t))
            ==> status_from_name(other) is None,
{
    reveal_strlit("STARTING");
    reveal_strlit("STARTED");
    reveal_strlit("RUNNING");
    reveal_strlit("INKILLING");
    reveal_strlit("SUCCESS");
    reveal_strlit("FINISHED");
    reveal_strlit("FINISHEDFAILED");
    reveal_strlit("FAILED");
    reveal_strlit("INITIAL");
    assert("STARTING"@.len() == 8 && "STARTING"@[0] == 'S' && "STARTING"@[1] == 'T');
    assert("STARTED"@.len() == 7 && "STARTED"@[0] == 'S' && "STARTED"@[1] == 'T');
    assert("RUNNING"@.len() == 7 && "RUNNING"@[0] == 'R' && "RUNNING"@[1] == 'U');
    assert("INKILLING"@.len() == 9 && "INKILLING"@[0] == 'I' && "INKILLING"@[1] == 'N');
    assert("SUCCESS"@.len() == 7 && "SUCCESS"@[0] == 'S' && "SUCCESS"@[1] == 'U');
    assert("FINISHED"@.len() == 8 && "FINISHED"@[0] == 'F' && "FINISHED"@[1] == 'I');
    assert("FINISHEDFAILED"@.len() == 14 && "FINISHEDFAILED"@[0] == 'F' && "FINISHEDFAILED"@[1] == 'I');
    assert("FAILED"@.len() == 6 && "FAILED"@[0] == 'F' && "FAILED"@[1] == 'A');
    assert("INITIAL"@.len() == 7 && "INITIAL"@[0] == 'I' && "INITIAL"@[1] == 'N');
    if forall|t: HorustMsgServiceStatus| other != #[trigger] status_name(t) {
        assert(other != status_name(HorustMsgServiceStatus::Starting));
        assert(other != status_name(HorustMsgServiceStatus::Started));
        assert(other != status_name(HorustMsgServiceStatus::Running));
        assert(other != status_name(HorustMsgServiceStatus::Inkilling));
        assert(other != status_name(HorustMsgServiceStatus::Success));
        assert(other != status_name(HorustMsgServiceStatus::Finished));
        assert(other != status_name(HorustMsgServiceStatus::Finishedfailed));
        assert(other != status_name(HorustMsgServiceStatus::Failed));
        assert(other != status_name(HorustMsgServiceStatus::Initial));
    }
}

/// Each transition name leads back to its transition, each wire number to
/// its transition, and a string that names no transition is refused.
pub proof fn lemma_change_names(c: HorustChangeServiceStatus, other: Seq<char>)
    ensures
        change_from_name(change_name(c)) == Some(c),
        change_of_number(change_number(c)) == Some(c),
        (forall|t: HorustChangeServiceStatus| other != #[trigger] change_name(t))
            ==> change_from_name(other) is None,
{
    reveal_strlit("START");
    reveal_strlit("STOP");
    assert("START"@.len() == 5 && "START"@[0] == 'S' && "START"@[3] == 'R');
    assert("STOP"@.len() == 4 && "STOP"@[0] == 'S' && "STOP"@[3] == 'P');
    if forall|t: HorustChangeServiceStatus| other != #[trigger] change_name(t) {
        assert(other != change_name(HorustChangeServiceStatus::Start));
        assert(other != change_name(HorustChangeServiceStatus::Stop));
    }
}

} // verus!
