use banter::actor::{
    connect, disconnect, handshake_lines, normalize_channel_name, send, Inbound, LoopStep, SessionError,
    Supervisor, BACKOFF_SECS, OUTBOX_CAPACITY,
};
use banter::dispatch::Event;
use banter::error::CommandError;
use banter::models::OAuthTokens;

const ID_TOKEN: &str = "h.eyJwcmVmZXJyZWRfdXNlcm5hbWUiOiJhbGljZSJ9.s";

fn creds() -> OAuthTokens {
    OAuthTokens::builder("tok123".to_string()).id_token(Some(ID_TOKEN.to_string())).build()
}

#[test]
fn channel_names_are_normalized() {
    assert_eq!(normalize_channel_name("SomeOne"), "#someone");
    assert_eq!(normalize_channel_name("#MixedCase"), "#mixedcase");
}

#[test]
fn connect_yields_plan() {
    let mut s = Supervisor::new();
    let plan = connect(&mut s, "Chan", Some(&creds())).unwrap();
    assert_eq!(plan.token, "tok123");
    assert_eq!(plan.username, "alice");
    assert_eq!(plan.channel, "#chan");
    assert!(s.is_running());
}

#[test]
fn connect_twice_is_refused_until_terminated() {
    let mut s = Supervisor::new();
    assert!(connect(&mut s, "chan", Some(&creds())).is_ok());
    assert_eq!(connect(&mut s, "other", Some(&creds())).err(), Some(CommandError::AlreadyConnected));
    disconnect(&mut s);
    assert!(connect(&mut s, "chan", Some(&creds())).is_ok());
}

#[test]
fn connect_after_reconnect_request() {
    let mut s = Supervisor::new();
    let plan = connect(&mut s, "chan", Some(&creds())).unwrap();
    s.publish(plan.generation);
    let evs = s.handle_frame(":tmi.twitch.tv RECONNECT\r\n");
    assert!(matches!(evs.as_slice(), [Event::Reconnect]));
    assert!(!s.is_running());
    assert_eq!(s.session_ended(plan.generation, &Ok(())), LoopStep::Stop);
    assert!(connect(&mut s, "chan", Some(&creds())).is_ok());
}

#[test]
fn connect_errors_leave_state_alone() {
    let mut s = Supervisor::new();
    assert_eq!(connect(&mut s, "c", None).err(), Some(CommandError::NoSession));
    let no_id = OAuthTokens::builder("t".to_string()).build();
    assert_eq!(connect(&mut s, "c", Some(&no_id)).err(), Some(CommandError::MissingIdentity));
    let bad = OAuthTokens::builder("t".to_string()).id_token(Some("x.y".to_string())).build();
    assert_eq!(connect(&mut s, "c", Some(&bad)).err(), Some(CommandError::MalformedIdentity));
    assert!(!s.is_running());
}

#[test]
fn send_before_handshake_is_not_connected() {
    let mut s = Supervisor::new();
    assert_eq!(send(&mut s, "hi"), Err(CommandError::NotConnected));
    let plan = connect(&mut s, "chan", Some(&creds())).unwrap();
    assert_eq!(send(&mut s, "hi"), Err(CommandError::NotConnected));
    assert!(s.take_outbound(plan.generation).is_none());
}

#[test]
fn send_after_handshake_queues_one_line() {
    let mut s = Supervisor::new();
    let plan = connect(&mut s, "chan", Some(&creds())).unwrap();
    s.publish(plan.generation);
    assert_eq!(send(&mut s, "hi"), Ok(()));
    assert_eq!(s.take_outbound(plan.generation), Some(vec!["PRIVMSG #chan :hi".to_string()]));
    assert_eq!(s.take_outbound(plan.generation), Some(vec![]));
}

#[test]
fn send_reports_full_queue() {
    let mut s = Supervisor::new();
    let plan = connect(&mut s, "c", Some(&creds())).unwrap();
    s.publish(plan.generation);
    for _ in 0..OUTBOX_CAPACITY {
        assert_eq!(send(&mut s, "x"), Ok(()));
    }
    assert_eq!(send(&mut s, "x"), Err(CommandError::QueueFull));
    assert_eq!(s.take_outbound(plan.generation).map(|v| v.len()), Some(64));
}

#[test]
fn disconnect_when_idle_is_noop() {
    let mut s = Supervisor::new();
    disconnect(&mut s);
    disconnect(&mut s);
    assert!(!s.is_running());
    assert!(!s.is_linked());
    assert!(s.take_outbound(0).is_none());
}

#[test]
fn disconnect_queues_part_line() {
    let mut s = Supervisor::new();
    let plan = connect(&mut s, "chan", Some(&creds())).unwrap();
    s.publish(plan.generation);
    disconnect(&mut s);
    assert!(!s.is_running());
    assert_eq!(s.take_outbound(plan.generation), Some(vec!["PART #chan".to_string()]));
}

#[test]
fn handshake_order() {
    assert_eq!(
        handshake_lines("tok", "alice", "#chan"),
        vec![
            "CAP REQ :twitch.tv/tags twitch.tv/commands".to_string(),
            "PASS oauth:tok".to_string(),
            "NICK alice".to_string(),
            "JOIN #chan".to_string(),
        ]
    );
}

#[test]
fn ping_after_capability_ack_gets_one_pong_first() {
    let mut s = Supervisor::new();
    let plan = connect(&mut s, "chan", Some(&creds())).unwrap();
    assert_eq!(handshake_lines(&plan.token, &plan.username, &plan.channel).len(), 4);
    s.publish(plan.generation);
    let first = s.on_inbound(Inbound::Text(":tmi.twitch.tv CAP * ACK :twitch.tv/tags twitch.tv/commands\r\n".to_string()));
    assert!(matches!(first, Ok(ref v) if v.is_empty()));
    let second = s.on_inbound(Inbound::Text("PING :tmi.example\r\n".to_string()));
    assert!(matches!(second, Ok(ref v) if v.len() == 1));
    assert_eq!(s.take_outbound(plan.generation), Some(vec!["PONG :tmi.example".to_string()]));
    assert_eq!(send(&mut s, "later"), Ok(()));
    assert_eq!(s.take_outbound(plan.generation), Some(vec!["PRIVMSG #chan :later".to_string()]));
}

#[test]
fn closed_socket_retries_with_new_handshake() {
    let mut s = Supervisor::new();
    let plan = connect(&mut s, "chan", Some(&creds())).unwrap();
    let first = handshake_lines(&plan.token, &plan.username, &plan.channel);
    s.publish(plan.generation);
    let chat = s.on_inbound(Inbound::Text("@color=#fff :a!a@a PRIVMSG #chan :mid\r\n".to_string()));
    assert!(matches!(chat, Ok(ref v) if v.len() == 1));
    let outcome = match s.on_inbound(Inbound::Closed) {
        Err(e) => Err(e),
        Ok(_) => panic!("a closed socket ends the session"),
    };
    assert!(matches!(outcome, Err(SessionError::Closed)));
    assert_eq!(s.session_ended(plan.generation, &outcome.map(|_: Vec<Event>| ())), LoopStep::Retry);
    assert!(s.is_current(plan.generation));
    assert_eq!(BACKOFF_SECS, 3);
    assert!(!s.is_linked());
    assert!(s.is_running());
    let again = handshake_lines(&plan.token, &plan.username, &plan.channel);
    assert_eq!(first, again);
    s.publish(plan.generation);
    assert_eq!(s.take_outbound(plan.generation), Some(vec![]));
}

#[test]
fn timeout_and_transport_errors_end_session() {
    let mut s = Supervisor::new();
    let plan = connect(&mut s, "c", Some(&creds())).unwrap();
    s.publish(plan.generation);
    assert!(matches!(s.on_inbound(Inbound::TimedOut), Err(SessionError::Timeout)));
    match s.on_inbound(Inbound::Failed("reset".to_string())) {
        Err(SessionError::Transport(e)) => assert_eq!(e, "reset"),
        _ => panic!("expected a transport error"),
    }
    assert!(matches!(s.on_inbound(Inbound::Other), Ok(ref v) if v.is_empty()));
    disconnect(&mut s);
    assert_eq!(s.session_ended(plan.generation, &Err(SessionError::Timeout)), LoopStep::Stop);
    s.loop_finished(plan.generation);
    assert!(s.take_outbound(plan.generation).is_none());
}

#[test]
fn error_messages() {
    assert_eq!(CommandError::AlreadyConnected.message(), "already connected");
    assert_eq!(CommandError::NotConnected.message(), "not connected");
}

#[test]
fn stale_loop_leaves_new_session_alone() {
    let mut s = Supervisor::new();
    let old = connect(&mut s, "chan", Some(&creds())).unwrap();
    s.publish(old.generation);
    disconnect(&mut s);
    let new = connect(&mut s, "chan", Some(&creds())).unwrap();
    assert_ne!(old.generation, new.generation);
    assert!(!s.is_current(old.generation));
    assert!(s.is_current(new.generation));
    s.publish(new.generation);
    s.publish(old.generation);
    assert_eq!(send(&mut s, "hi"), Ok(()));
    assert!(s.take_outbound(old.generation).is_none());
    assert_eq!(s.session_ended(old.generation, &Err(SessionError::Closed)), LoopStep::Stop);
    s.loop_finished(old.generation);
    assert!(s.is_linked());
    assert_eq!(s.take_outbound(new.generation), Some(vec!["PRIVMSG #chan :hi".to_string()]));
}
