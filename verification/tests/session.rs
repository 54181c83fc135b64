use sandoitchi_bridge_service::vts::requests::{
    envelope, ParameterCreation, API_NAME, FULL_WEIGHT, PARAMETER_LIMIT, PLUGIN_DEVELOPER,
    REQUEST_ID, VTS_API_VERSION,
};
use sandoitchi_bridge_service::vts::responses::{
    APIError, APIStateResponse, AuthenticationResponse, AuthenticationToken,
};
use sandoitchi_bridge_service::vts::session::{
    auth, reply_kind, req_status_msg, Action, Connector, ControlMessage, Effect, MessageLoop,
    Phase, Reply, ReplyKind,
};

fn registration(name: &str, rule: usize) -> ParameterCreation {
    ParameterCreation {
        parameter_name: name.to_string(),
        explanation: "Custom Sandoitchi Bridge param".to_string(),
        rule,
    }
}

fn state(authenticated: bool) -> Reply {
    Reply::State(APIStateResponse {
        active: true,
        v_tube_studio_version: "1.30.0".to_string(),
        current_session_authenticated: authenticated,
    })
}

fn error(code: u16) -> Reply {
    Reply::ApiError(APIError { error_id: code, message: "no".to_string() })
}

fn verdict(authenticated: bool) -> Reply {
    Reply::Authentication(AuthenticationResponse { authenticated, reason: String::new() })
}

fn grant(token: &str) -> Reply {
    Reply::Token(AuthenticationToken { authentication_token: token.to_string() })
}

/// Sends the head of the queue over and over, answering with `replies`, and
/// returns what was sent.
fn drain(session: &mut MessageLoop) -> Vec<ControlMessage> {
    let mut queue = Vec::new();
    let mut guard = 0;
    while let Action::Send(message) = session.next_action() {
        let message = message.clone();
        let reply = match &message {
            ControlMessage::StatusQuery => state(true),
            ControlMessage::RegisterParameter(_) => Reply::ParameterCreated,
            ControlMessage::Authenticate { .. } => verdict(true),
            ControlMessage::TokenRequest => grant("granted"),
        };
        queue.push(message);
        session.on_reply(reply);
        guard += 1;
        assert!(guard < 100);
    }
    queue
}

#[test]
fn a_connection_starts_with_status_query_then_registrations() {
    let registrations = vec![registration("Custom1", 0), registration("Custom2", 3)];
    let mut session = MessageLoop::start(None, registrations.clone());
    assert_eq!(session.pending(), 3);
    assert_eq!(
        drain(&mut session),
        vec![
            ControlMessage::StatusQuery,
            ControlMessage::RegisterParameter(registrations[0].clone()),
            ControlMessage::RegisterParameter(registrations[1].clone()),
        ]
    );
    assert!(matches!(session.next_action(), Action::Stream));
}

#[test]
fn a_reconnect_starts_cold() {
    let registrations = vec![registration("Custom1", 0)];
    let mut first = MessageLoop::start(None, registrations.clone());
    // Get the first connection into streaming, with a token request pending
    // in between, then let it fail: it is simply dropped.
    first.on_reply(state(false));
    first.on_reply(grant("abc"));
    first.on_reply(verdict(true));
    first.on_reply(Reply::ParameterCreated);
    assert!(matches!(first.next_action(), Action::Stream));
    drop(first);
    let mut second = MessageLoop::start(Some("abc".to_string()), registrations.clone());
    match second.next_action() {
        Action::Send(message) => assert_eq!(*message, ControlMessage::StatusQuery),
        other => panic!("expected the status query, got {:?}", other),
    }
    second.on_reply(state(true));
    match second.next_action() {
        Action::Send(message) => {
            assert_eq!(*message, ControlMessage::RegisterParameter(registrations[0].clone()))
        }
        other => panic!("expected the registration, got {:?}", other),
    }
}

#[test]
fn the_head_stays_queued_until_its_reply_is_in() {
    let session = MessageLoop::start(None, vec![]);
    for _ in 0..3 {
        assert!(matches!(session.next_action(), Action::Send(ControlMessage::StatusQuery)));
    }
    assert_eq!(session.pending(), 1);
}

#[test]
fn unauthenticated_status_puts_authentication_first() {
    let mut session = MessageLoop::start(Some("tok".to_string()), vec![registration("C", 0)]);
    assert_eq!(session.on_reply(state(false)), Effect::Nothing);
    assert_eq!(session.pending(), 2);
    match session.next_action() {
        Action::Send(message) => {
            assert_eq!(*message, ControlMessage::Authenticate { token: "tok".to_string() })
        }
        other => panic!("unexpected {:?}", other),
    }
}

#[test]
fn unauthenticated_status_without_token_asks_for_one() {
    let mut session = MessageLoop::start(None, vec![]);
    session.on_reply(state(false));
    assert!(matches!(session.next_action(), Action::Send(ControlMessage::TokenRequest)));
}

#[test]
fn authenticated_status_only_dequeues() {
    let mut session = MessageLoop::start(None, vec![]);
    assert_eq!(session.on_reply(state(true)), Effect::Nothing);
    assert_eq!(session.pending(), 0);
    assert!(matches!(session.next_action(), Action::Stream));
}

#[test]
fn a_grant_is_persisted_and_used_at_once() {
    let mut session = MessageLoop::start(None, vec![registration("C", 0)]);
    session.on_reply(state(false));
    assert_eq!(session.on_reply(grant("s3cr3t")), Effect::PersistToken("s3cr3t".to_string()));
    assert_eq!(session.token(), &Some("s3cr3t".to_string()));
    assert_eq!(session.pending(), 2);
    match session.next_action() {
        Action::Send(message) => {
            assert_eq!(*message, ControlMessage::Authenticate { token: "s3cr3t".to_string() })
        }
        other => panic!("unexpected {:?}", other),
    }
}

#[test]
fn a_persisted_token_is_reused_verbatim_on_the_next_run() {
    let mut first = MessageLoop::start(None, vec![]);
    first.on_reply(state(false));
    let stored = match first.on_reply(grant(" Tok/én+= ")) {
        Effect::PersistToken(token) => token,
        other => panic!("unexpected {:?}", other),
    };
    let mut second = MessageLoop::start(Some(stored), vec![]);
    second.on_reply(state(false));
    match second.next_action() {
        Action::Send(message) => {
            assert_eq!(*message, ControlMessage::Authenticate { token: " Tok/én+= ".to_string() })
        }
        other => panic!("unexpected {:?}", other),
    }
}

#[test]
fn an_accepted_authentication_only_dequeues() {
    let mut session = MessageLoop::start(Some("tok".to_string()), vec![registration("C", 0)]);
    session.on_reply(state(false));
    assert_eq!(session.on_reply(verdict(true)), Effect::Nothing);
    assert_eq!(session.pending(), 1);
    assert_eq!(session.token(), &Some("tok".to_string()));
}

#[test]
fn a_rejected_authentication_clears_the_token_and_asks_anew_at_the_back() {
    let custom = registration("C", 0);
    let mut session = MessageLoop::start(Some("stale".to_string()), vec![custom.clone()]);
    session.on_reply(state(false));
    assert_eq!(session.on_reply(verdict(false)), Effect::ClearToken);
    assert_eq!(session.token(), &None);
    assert_eq!(
        drain(&mut session),
        vec![
            ControlMessage::RegisterParameter(custom),
            ControlMessage::TokenRequest,
            ControlMessage::Authenticate { token: "granted".to_string() },
        ]
    );
}

#[test]
fn already_satisfied_registrations_count_as_done() {
    for code in [352u16, 354] {
        let mut session = MessageLoop::start(None, vec![registration("C", 0)]);
        session.on_reply(state(true));
        assert_eq!(session.on_reply(error(code)), Effect::Nothing);
        assert_eq!(session.pending(), 0);
    }
}

#[test]
fn other_known_errors_change_nothing() {
    for code in [8u16, 51, 450] {
        let mut session = MessageLoop::start(None, vec![registration("C", 0)]);
        assert_eq!(session.on_reply(error(code)), Effect::Nothing);
        assert_eq!(session.pending(), 2);
        assert!(matches!(session.next_action(), Action::Send(ControlMessage::StatusQuery)));
    }
}

#[test]
fn an_unlisted_error_is_reported_and_changes_nothing() {
    let mut session = MessageLoop::start(None, vec![]);
    assert_eq!(session.on_reply(error(9999)), Effect::UnexpectedError(9999));
    assert_eq!(session.pending(), 1);
}

#[test]
fn acknowledgements() {
    let mut session = MessageLoop::start(None, vec![registration("C", 0)]);
    assert_eq!(session.on_reply(Reply::InjectAck), Effect::Nothing);
    assert_eq!(session.pending(), 2);
    assert_eq!(session.on_reply(Reply::Unrecognized), Effect::Nothing);
    assert_eq!(session.pending(), 2);
    assert_eq!(session.on_reply(Reply::ParameterCreated), Effect::Nothing);
    assert_eq!(session.pending(), 1);
}

#[test]
fn dequeue_of_an_empty_queue_is_harmless() {
    let mut session = MessageLoop::start(None, vec![]);
    session.on_reply(state(true));
    session.on_reply(Reply::ParameterCreated);
    session.on_reply(verdict(true));
    assert_eq!(session.pending(), 0);
    // A status reply while streaming still asks for authentication.
    session.on_reply(state(false));
    assert!(matches!(session.next_action(), Action::Send(ControlMessage::TokenRequest)));
}

#[test]
fn a_heartbeat_holds_the_next_send() {
    let mut session = MessageLoop::start(None, vec![]);
    assert_eq!(session.on_reply(Reply::Heartbeat), Effect::Nothing);
    assert!(matches!(session.next_action(), Action::Hold));
    // Any other frame that is not text leaves the hold as it is.
    session.on_reply(Reply::Other);
    assert!(matches!(session.next_action(), Action::Hold));
    // The text reply lifts it.
    session.on_reply(state(true));
    assert!(matches!(session.next_action(), Action::Stream));
}

#[test]
fn other_frames_do_not_start_a_hold() {
    let mut session = MessageLoop::start(None, vec![]);
    session.on_reply(Reply::Other);
    assert!(matches!(session.next_action(), Action::Send(ControlMessage::StatusQuery)));
}

#[test]
fn a_reload_reseeds_the_queue() {
    let mut session = MessageLoop::start(Some("tok".to_string()), vec![registration("Old", 0)]);
    session.on_reply(state(false));
    assert_eq!(session.pending(), 2);
    let fresh = vec![registration("New1", 1), registration("New2", 2)];
    session.reload(fresh.clone());
    assert_eq!(session.token(), &Some("tok".to_string()));
    assert_eq!(
        drain(&mut session),
        vec![
            ControlMessage::StatusQuery,
            ControlMessage::RegisterParameter(fresh[0].clone()),
            ControlMessage::RegisterParameter(fresh[1].clone()),
        ]
    );
}

#[test]
fn requests_by_hand() {
    assert_eq!(req_status_msg(), ControlMessage::StatusQuery);
    assert_eq!(auth(&None), ControlMessage::TokenRequest);
    assert_eq!(
        auth(&Some("abc".to_string())),
        ControlMessage::Authenticate { token: "abc".to_string() }
    );
}

#[test]
fn what_the_requests_carry() {
    let status = ControlMessage::StatusQuery;
    let header = status.header();
    assert_eq!(header.api_name, "VTubeStudioPublicAPI");
    assert_eq!(header.api_version, "1.0");
    assert_eq!(header.request_id, "SandoitchiBridge");
    assert_eq!(header.message_type, "APIStateRequest");
    assert!(status.token_request().is_none());
    assert!(status.authentication().is_none());
    assert!(status.registration().is_none());

    let ask = ControlMessage::TokenRequest;
    assert_eq!(ask.header().message_type, "AuthenticationTokenRequest");
    let data = ask.token_request().unwrap();
    assert_eq!(data.plugin_name, "SandoitchiBridge");
    assert_eq!(data.plugin_developer, "An1by");
    assert_eq!(data.plugin_icon, None);

    let login = ControlMessage::Authenticate { token: "abc".to_string() };
    assert_eq!(login.header().message_type, "AuthenticationRequest");
    let data = login.authentication().unwrap();
    assert_eq!(data.plugin_name, "SandoitchiBridge");
    assert_eq!(data.plugin_developer, "An1by");
    assert_eq!(data.authentication_token, "abc");

    let custom = registration("Custom", 4);
    let register = ControlMessage::RegisterParameter(custom.clone());
    assert_eq!(register.header().message_type, "ParameterCreationRequest");
    assert_eq!(register.registration(), Some(&custom));

    let plain = envelope("InjectParameterDataRequest");
    assert_eq!(plain.api_name, API_NAME);
    assert_eq!(plain.api_version, VTS_API_VERSION);
    assert_eq!(plain.request_id, REQUEST_ID);
    assert_eq!(PLUGIN_DEVELOPER, "An1by");
    assert_eq!(PARAMETER_LIMIT, 1_000_000);
    assert_eq!(FULL_WEIGHT, 1);
}

#[test]
fn replies_are_told_apart_by_their_tag() {
    assert_eq!(reply_kind(Some("APIError")), ReplyKind::ApiError);
    assert_eq!(reply_kind(Some("APIStateResponse")), ReplyKind::State);
    assert_eq!(reply_kind(Some("AuthenticationTokenResponse")), ReplyKind::Token);
    assert_eq!(reply_kind(Some("AuthenticationResponse")), ReplyKind::Authentication);
    assert_eq!(reply_kind(Some("InjectParameterDataResponse")), ReplyKind::InjectAck);
    assert_eq!(reply_kind(Some("ParameterCreationResponse")), ReplyKind::ParameterCreated);
    assert_eq!(reply_kind(Some("apierror")), ReplyKind::Unrecognized);
    assert_eq!(reply_kind(Some("HotkeysInCurrentModelResponse")), ReplyKind::Unrecognized);
    assert_eq!(reply_kind(Some("")), ReplyKind::Unrecognized);
    assert_eq!(reply_kind(None), ReplyKind::Unrecognized);
}

#[test]
fn a_fault_leads_back_to_the_search_and_to_a_cold_start() {
    let registrations = vec![registration("Custom1", 0)];
    let mut session = Connector::new().connected(None, registrations.clone());
    assert_eq!(session.phase(), Phase::Connected);
    session.on_reply(state(false));
    session.on_reply(grant("abc"));
    session.on_reply(verdict(true));
    session.on_reply(Reply::ParameterCreated);
    assert_eq!(session.phase(), Phase::Streaming);
    let connector = session.fault();
    assert_eq!(connector.port(), 8001);
    let mut again = connector.connected(Some("abc".to_string()), registrations.clone());
    assert_eq!(again.phase(), Phase::Connected);
    assert_eq!(
        drain(&mut again),
        vec![
            ControlMessage::StatusQuery,
            ControlMessage::RegisterParameter(registrations[0].clone()),
        ]
    );
}
