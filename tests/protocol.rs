use horust_commands::client::{
    change_reply_of, change_request, info_reply_of, info_request, status_reply_of,
    status_request, unwrap_response, ClientError,
};
use horust_commands::codec::{decode_message, encode_message, DecodeError};
use horust_commands::handler::{info_result, CommandsHandler, Event, ServiceStatus};
use horust_commands::server::{
    handle_bytes, handle_message, new_horust_msg_error_response,
    new_horust_msg_service_change_response, new_horust_msg_service_info_response,
    new_horust_msg_service_status_response, reply_to_change, reply_to_info, reply_to_status,
    CommandsHandlerTrait,
};
use horust_commands::{
    HorustChangeServiceStatus, HorustMsgMessage, HorustMsgServiceStatus, MessageType, Response,
};

const ALL_STATUSES: [HorustMsgServiceStatus; 9] = [
    HorustMsgServiceStatus::Starting,
    HorustMsgServiceStatus::Started,
    HorustMsgServiceStatus::Running,
    HorustMsgServiceStatus::Inkilling,
    HorustMsgServiceStatus::Success,
    HorustMsgServiceStatus::Finished,
    HorustMsgServiceStatus::Finishedfailed,
    HorustMsgServiceStatus::Failed,
    HorustMsgServiceStatus::Initial,
];

/// A daemon whose process sampling finds no live process.
struct NoProcessDaemon {
    core: CommandsHandler,
}

impl CommandsHandlerTrait for NoProcessDaemon {
    fn get_service_status(&self, service_name: &str) -> Result<HorustMsgServiceStatus, String> {
        self.core.get_service_status(service_name)
    }

    fn get_service_info(&self, service_name: &str) -> Result<String, String> {
        self.core.service_pid(service_name)?;
        info_result(service_name, None)
    }

    fn update_service_status(
        &mut self,
        service_name: &str,
        new_status: HorustChangeServiceStatus,
    ) -> Result<HorustMsgServiceStatus, String> {
        self.core.update_service_status(service_name, new_status)
    }
}

fn web_daemon(status: ServiceStatus) -> NoProcessDaemon {
    let mut core = CommandsHandler::new(vec!["web".to_string()]);
    assert!(core.apply_events(&vec![
        Event::StatusChanged("web".to_string(), status),
        Event::PidChanged("web".to_string(), 1234),
    ]));
    NoProcessDaemon { core }
}

fn error_text(m: &HorustMsgMessage) -> Option<String> {
    match &m.message_type {
        Some(MessageType::Response(r)) => match &r.response {
            Some(Response::Error(e)) => Some(e.error_string.clone()),
            _ => None,
        },
        _ => None,
    }
}

#[test]
fn status_names_round_trip() {
    for s in ALL_STATUSES {
        assert_eq!(HorustMsgServiceStatus::from_str_name(s.as_str_name()), Some(s));
        assert_eq!(HorustMsgServiceStatus::from_i32(s.to_i32()), Some(s));
    }
    assert_eq!(HorustMsgServiceStatus::Running.as_str_name(), "RUNNING");
    assert_eq!(HorustMsgServiceStatus::Finishedfailed.as_str_name(), "FINISHEDFAILED");
    assert_eq!(HorustMsgServiceStatus::from_str_name("running"), None);
    assert_eq!(HorustMsgServiceStatus::from_str_name(""), None);
    assert_eq!(HorustMsgServiceStatus::from_str_name("RUNNINGX"), None);
    assert_eq!(HorustMsgServiceStatus::from_i32(9), None);
}

#[test]
fn change_names_round_trip() {
    for c in [HorustChangeServiceStatus::Start, HorustChangeServiceStatus::Stop] {
        assert_eq!(HorustChangeServiceStatus::from_str_name(c.as_str_name()), Some(c));
        assert_eq!(HorustChangeServiceStatus::from_i32(c.to_i32()), Some(c));
    }
    assert_eq!(HorustChangeServiceStatus::Stop.as_str_name(), "STOP");
    assert_eq!(HorustChangeServiceStatus::from_str_name("RESTART"), None);
    assert_eq!(HorustChangeServiceStatus::from_i32(-1), None);
}

#[test]
fn every_request_kind_round_trips() {
    let messages = vec![
        status_request("web".to_string()),
        info_request("db".to_string()),
        change_request("web".to_string(), "START").unwrap(),
        change_request("web".to_string(), "STOP").unwrap(),
        status_request(String::new()),
        HorustMsgMessage { message_type: None },
    ];
    for m in messages {
        let bytes = encode_message(&m);
        assert_eq!(decode_message(&bytes), Ok(m));
    }
}

#[test]
fn every_response_kind_round_trips() {
    let messages = vec![
        new_horust_msg_error_response("boom".to_string()),
        new_horust_msg_service_status_response("web".to_string(), HorustMsgServiceStatus::Failed),
        new_horust_msg_service_change_response(
            "web".to_string(),
            HorustMsgServiceStatus::Starting,
        ),
        new_horust_msg_service_info_response("web".to_string(), "pid:1".to_string()),
    ];
    for m in messages {
        let bytes = encode_message(&m);
        assert_eq!(decode_message(&bytes), Ok(m));
    }
}

#[test]
fn status_request_bytes_are_exact() {
    let bytes = encode_message(&status_request("web".to_string()));
    assert_eq!(bytes, vec![0x0A, 0x07, 0x0A, 0x05, 0x0A, 0x03, b'w', b'e', b'b']);
}

#[test]
fn change_request_bytes_are_exact() {
    let bytes = encode_message(&change_request("a".to_string(), "STOP").unwrap());
    assert_eq!(bytes, vec![0x0A, 0x07, 0x12, 0x05, 0x0A, 0x01, b'a', 0x10, 0x01]);
}

#[test]
fn long_and_unicode_strings_round_trip() {
    let long: String = "x".repeat(300);
    let m = new_horust_msg_service_info_response("sérvice-é".to_string(), long);
    let bytes = encode_message(&m);
    assert!(bytes.len() > 300);
    assert_eq!(decode_message(&bytes), Ok(m));
}

#[test]
fn negative_status_number_round_trips() {
    let m = horust_commands::client::new_request(horust_commands::Request::ChangeRequest(
        horust_commands::HorustMsgServiceChangeRequest {
            service_name: "web".to_string(),
            service_status: -5,
        },
    ));
    let bytes = encode_message(&m);
    assert_eq!(decode_message(&bytes), Ok(m));
}

#[test]
fn malformed_bytes_are_refused() {
    assert_eq!(decode_message(&[0x0A, 0x09, 0x0A]), Err(DecodeError));
    assert_eq!(decode_message(&[0xFF]), Err(DecodeError));
    assert_eq!(decode_message(&[0x0A, 0x03, 0x0A, 0x01, 0xFF]), Err(DecodeError));
}

#[test]
fn empty_bytes_decode_to_an_empty_message() {
    assert_eq!(decode_message(&[]), Ok(HorustMsgMessage { message_type: None }));
}

#[test]
fn status_request_for_known_service() {
    let mut d = web_daemon(ServiceStatus::Running);
    let reply = handle_message(&mut d, status_request("web".to_string())).unwrap();
    assert_eq!(
        status_reply_of(reply),
        Ok(("web".to_string(), HorustMsgServiceStatus::Running))
    );
}

#[test]
fn status_request_for_unknown_service_is_an_error() {
    let mut d = web_daemon(ServiceStatus::Running);
    let reply = handle_message(&mut d, status_request("db".to_string())).unwrap();
    assert_eq!(
        error_text(&reply).unwrap(),
        "Error from status handler: Error: service db not found."
    );
}

#[test]
fn stop_of_running_service_emits_kill_commands() {
    let mut d = web_daemon(ServiceStatus::Running);
    let reply =
        handle_message(&mut d, change_request("web".to_string(), "STOP").unwrap()).unwrap();
    assert_eq!(
        change_reply_of(reply),
        Ok(("web".to_string(), HorustMsgServiceStatus::Running))
    );
    assert_eq!(
        d.core.take_events(),
        vec![
            Event::StatusUpdate("web".to_string(), ServiceStatus::InKilling),
            Event::ForceKill("web".to_string()),
        ]
    );
    assert!(d.core.apply_event(&Event::StatusChanged("web".to_string(), ServiceStatus::InKilling)));
    assert_eq!(d.core.get_service_status("web"), Ok(HorustMsgServiceStatus::Inkilling));
    assert!(d.core.take_events().is_empty());
}

#[test]
fn start_of_running_service_also_runs_it() {
    let mut d = web_daemon(ServiceStatus::Running);
    assert_eq!(
        d.update_service_status("web", HorustChangeServiceStatus::Start),
        Ok(HorustMsgServiceStatus::Running)
    );
    assert_eq!(
        d.core.take_events(),
        vec![
            Event::StatusUpdate("web".to_string(), ServiceStatus::InKilling),
            Event::ForceKill("web".to_string()),
            Event::Run("web".to_string()),
        ]
    );
}

#[test]
fn start_of_finished_service_is_refused() {
    let mut d = web_daemon(ServiceStatus::Finished);
    let reply =
        handle_message(&mut d, change_request("web".to_string(), "START").unwrap()).unwrap();
    assert_eq!(
        error_text(&reply).unwrap(),
        "Error from change handler: Service web status is not present."
    );
    assert!(d.core.take_events().is_empty());
}

#[test]
fn change_of_unknown_service_is_refused() {
    let mut d = web_daemon(ServiceStatus::Running);
    assert_eq!(
        d.update_service_status("db", HorustChangeServiceStatus::Stop),
        Err("Service db not found.".to_string())
    );
    assert!(d.core.take_events().is_empty());
}

#[test]
fn change_with_unknown_transition_number_is_an_error() {
    let mut d = web_daemon(ServiceStatus::Running);
    let m = horust_commands::client::new_request(horust_commands::Request::ChangeRequest(
        horust_commands::HorustMsgServiceChangeRequest {
            service_name: "web".to_string(),
            service_status: 7,
        },
    ));
    let reply = handle_message(&mut d, m).unwrap();
    assert_eq!(
        error_text(&reply).unwrap(),
        "Error from change handler: unknown change status"
    );
    assert!(d.core.take_events().is_empty());
}

#[test]
fn info_for_dead_process_is_an_error() {
    let mut d = web_daemon(ServiceStatus::Running);
    let reply = handle_message(&mut d, info_request("web".to_string())).unwrap();
    let text = error_text(&reply).unwrap();
    assert!(text.contains("process not found"));
    assert_eq!(
        text,
        "Error from status handler: Error: service web process not found."
    );
}

#[test]
fn info_for_unknown_service_is_a_pid_error() {
    let mut d = web_daemon(ServiceStatus::Running);
    let reply = handle_message(&mut d, info_request("db".to_string())).unwrap();
    assert_eq!(
        error_text(&reply).unwrap(),
        "Error from status handler: Error: service db pid not found."
    );
}

#[test]
fn info_result_passes_the_sampled_line() {
    assert_eq!(info_result("web", Some("line".to_string())), Ok("line".to_string()));
}

#[test]
fn closed_connection_fails_the_status_call() {
    let received = decode_message(&[]).unwrap();
    assert_eq!(status_reply_of(received), Err(ClientError::NoResponse));
}

#[test]
fn mismatched_response_kind_is_reported() {
    let reply = new_horust_msg_service_info_response("web".to_string(), "i".to_string());
    match status_reply_of(reply) {
        Err(ClientError::Unexpected(Response::InfoResponse(r))) => assert_eq!(r.info, "i"),
        other => panic!("unexpected {:?}", other),
    }
}

#[test]
fn error_response_is_surfaced() {
    let reply = new_horust_msg_error_response("nope".to_string());
    assert_eq!(info_reply_of(reply), Err(ClientError::Remote("Error: nope".to_string())));
}

#[test]
fn invalid_status_number_is_reported() {
    let reply = HorustMsgMessage {
        message_type: Some(MessageType::Response(horust_commands::HorustMsgResponse {
            response: Some(Response::StatusResponse(
                horust_commands::HorustMsgServiceStatusResponse {
                    service_name: "web".to_string(),
                    service_status: 42,
                },
            )),
        })),
    };
    assert_eq!(status_reply_of(reply), Err(ClientError::InvalidStatus(42)));
}

#[test]
fn unknown_transition_name_is_refused() {
    assert_eq!(
        change_request("web".to_string(), "RESTART"),
        Err(ClientError::UnknownChange("RESTART".to_string()))
    );
}

#[test]
fn unwrap_response_of_request_is_none() {
    assert_eq!(unwrap_response(status_request("web".to_string())), None);
}

#[test]
fn request_bytes_get_one_response() {
    let mut d = web_daemon(ServiceStatus::Running);
    let bytes = encode_message(&status_request("web".to_string()));
    let out = handle_bytes(&mut d, &bytes).unwrap().unwrap();
    let reply = decode_message(&out).unwrap();
    assert_eq!(
        status_reply_of(reply),
        Ok(("web".to_string(), HorustMsgServiceStatus::Running))
    );
    assert_eq!(handle_bytes(&mut d, &[]), Ok(None));
    assert_eq!(handle_bytes(&mut d, &[0xFF]), Err(DecodeError));
}

#[test]
fn events_apply_until_shutdown() {
    let mut core = CommandsHandler::new(vec!["a".to_string(), "b".to_string(), "a".to_string()]);
    assert_eq!(core.get_service_status("a"), Ok(HorustMsgServiceStatus::Initial));
    assert_eq!(core.service_pid("b"), Ok(0));
    let go_on = core.apply_events(&vec![
        Event::StatusChanged("a".to_string(), ServiceStatus::Started),
        Event::Other,
        Event::PidChanged("zzz".to_string(), 9),
        Event::ShuttingDownInitiated,
        Event::StatusChanged("b".to_string(), ServiceStatus::Failed),
    ]);
    assert!(!go_on);
    assert_eq!(core.get_service_status("a"), Ok(HorustMsgServiceStatus::Started));
    assert_eq!(core.get_service_status("b"), Ok(HorustMsgServiceStatus::Initial));
    assert_eq!(
        core.service_pid("zzz"),
        Err("Error: service zzz pid not found.".to_string())
    );
}

#[test]
fn client_reads_server_replies() {
    let reply = reply_to_status("web".to_string(), Ok(HorustMsgServiceStatus::Success));
    assert_eq!(
        status_reply_of(reply),
        Ok(("web".to_string(), HorustMsgServiceStatus::Success))
    );
    let reply = reply_to_change("web".to_string(), Err("x".to_string()));
    assert_eq!(
        change_reply_of(reply),
        Err(ClientError::Remote("Error: Error from change handler: x".to_string()))
    );
    let reply = reply_to_info("web".to_string(), Ok("line".to_string()));
    assert_eq!(info_reply_of(reply), Ok(("web".to_string(), "line".to_string())));
}
