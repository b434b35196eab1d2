use fee_race::decode::decode_message;
use fee_race::stream::InboundMessage;

#[test]
fn decodes_log_array() {
    let text = r#"{"jsonrpc":"2.0","method":"logsNotification","params":{"result":{"context":{"slot":5},"value":{"signature":"s","err":null,"logs":["Program log: a",7,"Program log: b"]}},"subscription":1}}"#;
    assert_eq!(
        decode_message(text),
        InboundMessage::Text {
            logs: Some(vec![Some("Program log: a".to_string()), None, Some("Program log: b".to_string())])
        }
    );
}

#[test]
fn message_without_logs_is_no_event() {
    assert_eq!(decode_message(r#"{"jsonrpc":"2.0","result":42,"id":1}"#), InboundMessage::Text { logs: None });
    assert_eq!(
        decode_message(r#"{"params":{"result":{"value":{"logs":"x"}}}}"#),
        InboundMessage::Text { logs: None }
    );
}

#[test]
fn invalid_json_is_undecodable() {
    assert_eq!(decode_message("not json {"), InboundMessage::Undecodable);
}

#[test]
fn empty_log_array() {
    assert_eq!(
        decode_message(r#"{"params":{"result":{"value":{"logs":[]}}}}"#),
        InboundMessage::Text { logs: Some(vec![]) }
    );
}
