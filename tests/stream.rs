use fee_race::stream::{
    log_lines, EventSource, InboundMessage, StreamAction, StreamEvent, StreamPhase, RECONNECT_DELAY_MS,
};

#[test]
fn reconnects_after_failures() {
    let k = 3;
    let mut s = EventSource::new();
    let mut actions = vec![s.step(StreamEvent::Start)];
    for _ in 0..k {
        actions.push(s.step(StreamEvent::ConnectFailed));
        actions.push(s.step(StreamEvent::Waited));
    }
    actions.push(s.step(StreamEvent::Connected));
    actions.push(s.step(StreamEvent::SubscribeSent));
    assert_eq!(s.phase, StreamPhase::Streaming);
    let connects = actions.iter().filter(|a| **a == StreamAction::Connect).count();
    assert_eq!(connects, k + 1);
    for (i, a) in actions.iter().enumerate() {
        if *a == StreamAction::Connect && i > 0 {
            assert_eq!(actions[i - 1], StreamAction::Wait { ms: RECONNECT_DELAY_MS });
        }
    }
    assert_eq!(RECONNECT_DELAY_MS, 5000);
}

#[test]
fn messages_while_streaming() {
    let mut s = EventSource::new();
    s.step(StreamEvent::Start);
    s.step(StreamEvent::Connected);
    s.step(StreamEvent::SubscribeSent);
    let logs = vec![Some("Program log: buy".to_string()), None, Some("done".to_string())];
    assert_eq!(
        s.step(StreamEvent::Message { msg: InboundMessage::Text { logs: Some(logs) } }),
        StreamAction::Trigger { lines: vec!["Program log: buy".to_string(), "done".to_string()] }
    );
    assert_eq!(s.step(StreamEvent::Message { msg: InboundMessage::Text { logs: None } }), StreamAction::Read);
    assert_eq!(s.step(StreamEvent::Message { msg: InboundMessage::Undecodable }), StreamAction::Read);
    assert_eq!(s.step(StreamEvent::Message { msg: InboundMessage::NonText }), StreamAction::Read);
    assert_eq!(s.phase, StreamPhase::Streaming);
    assert_eq!(s.step(StreamEvent::StreamLost), StreamAction::Wait { ms: RECONNECT_DELAY_MS });
    assert_eq!(s.phase, StreamPhase::Disconnected);
    assert_eq!(s.step(StreamEvent::Waited), StreamAction::Connect);
}

#[test]
fn failed_subscription_reconnects() {
    let mut s = EventSource::new();
    s.step(StreamEvent::Start);
    s.step(StreamEvent::Connected);
    assert_eq!(s.step(StreamEvent::SubscribeFailed), StreamAction::Wait { ms: RECONNECT_DELAY_MS });
    assert_eq!(s.step(StreamEvent::Message { msg: InboundMessage::NonText }), StreamAction::Ignore);
}

#[test]
fn log_lines_keep_strings_in_order() {
    let entries = vec![None, Some("a".to_string()), Some("b".to_string())];
    assert_eq!(log_lines(&entries), vec!["a".to_string(), "b".to_string()]);
    assert!(log_lines(&Vec::new()).is_empty());
}

#[test]
fn subscription_request_names_wallet() {
    let r = fee_race::stream::subscription_request("Wa11et");
    assert_eq!(
        r,
        r#"{"jsonrpc":"2.0","id":1,"method":"logsSubscribe","params":[{"mentions":["Wa11et"]}]}"#
    );
}
