use script_utils::transmission::{AddStep, TransmissionAPI, TransmissionReply};

#[test]
fn fresh_client_state() {
    let api = TransmissionAPI::new();
    assert_eq!(api.session_id(), "");
    assert_eq!(api.tag(), 0);
}

#[test]
fn request_body_and_tags() {
    let mut api = TransmissionAPI::new();
    let body = api.next_request("http://t/x.torrent", Some("/data/tv"));
    assert_eq!(
        body,
        r#"{"tag":"1","method":"torrent-add","arguments":{"filename":"http://t/x.torrent","download-dir":"/data/tv"}}"#
    );
    assert_eq!(api.tag(), 1);
    let body2 = api.next_request("u", None);
    assert_eq!(
        body2,
        r#"{"tag":"2","method":"torrent-add","arguments":{"filename":"u","download-dir":""}}"#
    );
}

#[test]
fn conflict_renews_session_then_success() {
    let mut api = TransmissionAPI::new();
    let _ = api.next_request("u", None);
    let step = api.handle_reply(TransmissionReply::Conflict(Some("SID42".to_string())));
    assert_eq!(step, AddStep::Retry);
    assert_eq!(api.session_id(), "SID42");
    assert_eq!(api.tag(), 1);
    let body = api.next_request("u", None);
    assert!(body.contains(r#""tag":"2""#));
    let done = api.handle_reply(TransmissionReply::Success(
        r#"{"arguments":{"torrent-added":{"id":1}},"result":"success"}"#.to_string(),
    ));
    assert_eq!(done, AddStep::Finished(true));
    assert_eq!(api.session_id(), "SID42");
}

#[test]
fn other_replies() {
    let mut api = TransmissionAPI::new();
    assert_eq!(
        api.handle_reply(TransmissionReply::Success(r#"{"result":"duplicate torrent"}"#.to_string())),
        AddStep::Finished(false)
    );
    assert_eq!(api.handle_reply(TransmissionReply::Conflict(None)), AddStep::MissingSessionId);
    assert_eq!(api.handle_reply(TransmissionReply::Other(500)), AddStep::UnexpectedStatus(500));
    assert_eq!(api.session_id(), "");
}
