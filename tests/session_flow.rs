use bili_to_tg::session::{
    cookie_from_set_cookie, parse_qr_issue, AuthError, Handshake, HandshakePhase, PollStep,
    ProtocolField, QrChallenge, Session, SessionState, EXPIRED_CODE, REQUEST_TIMEOUT_SECS,
};
use bili_to_tg::types::{Config, DisplayHistory, DisplayHistoryURL};

fn challenge() -> QrChallenge {
    QrChallenge { url: "https://qr".to_string(), key: "k1".to_string() }
}

fn msg(s: &str) -> Option<String> {
    Some(s.to_string())
}

#[test]
fn expired_challenge_ends_handshake_and_restores_session() {
    let mut session = Session::restore("old=1; ");
    assert!(session.apply_probe(Some(0), Some(42)).unwrap());
    let mut hs = Handshake::begin(&mut session, &challenge());
    assert_eq!(session.state(), SessionState::AwaitingScan);
    let r = hs.on_poll(&mut session, Some(86101), msg("waiting"), &vec![]);
    assert_eq!(r.unwrap(), PollStep::Pending);
    let r = hs.on_poll(&mut session, Some(EXPIRED_CODE), msg("expired"), &vec!["a=b; Path=/".to_string()]);
    match r {
        Err(AuthError::Expired(m)) => assert_eq!(m, "expired"),
        other => panic!("unexpected {:?}", other),
    }
    assert_eq!(hs.phase(), HandshakePhase::Failed);
    assert_eq!(session.state(), SessionState::Authenticated);
    assert_eq!(session.credential(), "old=1; ");
    assert_eq!(session.account_id(), Some(42));
    // the same challenge is never polled again
    assert!(matches!(hs.on_poll(&mut session, Some(0), msg("ok"), &vec![]), Err(AuthError::Finished)));
    assert_eq!(session.credential(), "old=1; ");
}

#[test]
fn confirmed_poll_commits_credential_and_client_together() {
    let mut session = Session::new();
    assert!(session.client_config().cookie.is_none());
    let mut hs = Handshake::begin(&mut session, &challenge());
    assert_eq!(hs.poll_key(), "k1");
    let cookies = vec![
        "SESSDATA=abc; Path=/; HttpOnly".to_string(),
        "bili_jct=xyz".to_string(),
    ];
    let r = hs.on_poll(&mut session, Some(0), msg("ok"), &cookies);
    assert_eq!(r.unwrap(), PollStep::Confirmed);
    assert_eq!(session.credential(), "SESSDATA=abc; bili_jct=xyz; ");
    let cfg = session.client_config();
    assert_eq!(cfg.cookie.as_deref(), Some("SESSDATA=abc; bili_jct=xyz; "));
    assert_eq!(cfg.timeout_secs, REQUEST_TIMEOUT_SECS);
    assert!(cfg.user_agent.starts_with("Mozilla/5.0"));
    assert_eq!(session.account_id(), None);
    hs.finish(&mut session, Some(0), Some(7)).unwrap();
    assert_eq!(session.state(), SessionState::Authenticated);
    assert_eq!(session.account_id(), Some(7));
}

#[test]
fn failed_probe_after_confirmation_fails_login() {
    let mut session = Session::new();
    let mut hs = Handshake::begin(&mut session, &challenge());
    hs.on_poll(&mut session, Some(0), msg("ok"), &vec!["a=1".to_string()]).unwrap();
    assert!(matches!(hs.finish(&mut session, Some(-101), None), Err(AuthError::NotAuthenticated)));
    assert_eq!(session.account_id(), None);
}

#[test]
fn poll_without_message_is_protocol_error() {
    let mut session = Session::new();
    let mut hs = Handshake::begin(&mut session, &challenge());
    let r = hs.on_poll(&mut session, Some(0), None, &vec![]);
    assert!(matches!(r, Err(AuthError::Protocol(ProtocolField::Message))));
    assert_eq!(session.state(), SessionState::Unauthenticated);
    assert_eq!(session.credential(), "");
}

#[test]
fn cookie_pairs_are_joined() {
    assert_eq!(cookie_from_set_cookie(&vec![]), "");
    assert_eq!(cookie_from_set_cookie(&vec![";x".to_string()]), "; ");
    assert_eq!(
        cookie_from_set_cookie(&vec!["a=1;b".to_string(), "c=2".to_string()]),
        "a=1; c=2; "
    );
}

#[test]
fn probe_outcomes() {
    let mut s = Session::restore("c=1");
    assert!(!s.apply_probe(Some(-101), None).unwrap());
    assert_eq!(s.state(), SessionState::Expired);
    assert_eq!(s.account_id(), None);
    let mut fresh = Session::new();
    assert!(!fresh.apply_probe(Some(-101), None).unwrap());
    assert_eq!(fresh.state(), SessionState::Unauthenticated);
    assert!(matches!(s.apply_probe(None, Some(1)), Err(AuthError::Protocol(ProtocolField::Code))));
    assert!(matches!(
        s.apply_probe(Some(0), None),
        Err(AuthError::Protocol(ProtocolField::AccountId))
    ));
    assert_eq!(s.state(), SessionState::Expired);
    assert!(s.apply_probe(Some(0), Some(99)).unwrap());
    assert_eq!(s.account_id(), Some(99));
}

#[test]
fn qr_issue_outcomes() {
    let c = parse_qr_issue(Some(0), None, msg("https://u"), msg("key")).unwrap();
    assert_eq!(c.url, "https://u");
    assert_eq!(c.key, "key");
    match parse_qr_issue(Some(-1), msg("busy"), None, None) {
        Err(AuthError::Refused(m)) => assert_eq!(m, "busy"),
        other => panic!("unexpected {:?}", other),
    }
    assert!(matches!(parse_qr_issue(None, None, None, None), Err(AuthError::Protocol(ProtocolField::Code))));
    assert!(matches!(parse_qr_issue(Some(-1), None, None, None), Err(AuthError::Protocol(ProtocolField::Message))));
    assert!(matches!(parse_qr_issue(Some(0), None, None, msg("k")), Err(AuthError::Protocol(ProtocolField::Url))));
    assert!(matches!(parse_qr_issue(Some(0), None, msg("u"), None), Err(AuthError::Protocol(ProtocolField::PollKey))));
}

#[test]
fn video_link_from_identifier() {
    let u = DisplayHistoryURL::from_bid("BV1GJ411x7h7").unwrap();
    assert_eq!(u.as_str(), "https://www.bilibili.com/video/BV1GJ411x7h7/");
    assert_eq!(DisplayHistoryURL::from_bid("av170001").unwrap_err().bid, "av170001");
    assert!(DisplayHistoryURL::from_bid("B").is_err());
    assert!(DisplayHistoryURL::from_bid("").is_err());
}

#[test]
fn display_history_message() {
    let d = DisplayHistory::new("BV1", "T").unwrap();
    assert_eq!(d.message("now"), "<b>T</b>\nhttps://www.bilibili.com/video/BV1/\nAt: <i>now</i>");
    let c = Config { chat_id: "1".to_string(), token: "t".to_string() };
    assert_eq!(c.chat_id, "1");
}
