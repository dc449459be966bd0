use gateway_api::feed::{feed_step, FeedAction, FeedEvent};
use gateway_api::models::{RequestLog, WsMessage};

#[test]
fn close_and_send_failure_stop_the_feed() {
    assert!(matches!(feed_step(FeedEvent::ClientClosed), FeedAction::Stop));
    assert!(matches!(feed_step(FeedEvent::SendFailed), FeedAction::Stop));
}

#[test]
fn ping_is_answered_with_same_payload() {
    match feed_step(FeedEvent::ClientPing(vec![1, 2, 3])) {
        FeedAction::Pong(d) => assert_eq!(d, vec![1, 2, 3]),
        other => panic!("unexpected {:?}", other),
    }
}

#[test]
fn published_event_is_relayed() {
    let log = RequestLog::new("GET".to_string(), "/a".to_string(), 200, 1, "::1".to_string(), 1_700_000_000_000);
    match feed_step(FeedEvent::Published(WsMessage::NewLog { log })) {
        FeedAction::Relay(WsMessage::NewLog { log }) => assert_eq!(log.path, "/a"),
        other => panic!("unexpected {:?}", other),
    }
}

#[test]
fn gaps_and_other_frames_are_skipped() {
    assert!(matches!(feed_step(FeedEvent::Missed), FeedAction::Wait));
    assert!(matches!(feed_step(FeedEvent::ClientOther), FeedAction::Wait));
}
