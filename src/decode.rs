//! Decoding of the stream's text messages: the log lines of one event sit
//! under `params.result.value.logs`; a message without that array carries no
//! event, and one that is not JSON is dropped.

use crate::stream::InboundMessage;
use serde_json::Value;
use vstd::prelude::*;

verus! {

/// Whether serde_json parses `s` as a `Value`.
pub uninterp spec fn json_parses(s: Seq<char>) -> bool;

/// For text that serde_json parses, the entries of the array found at the JSON
/// pointer `pointer` (`None` where the path is absent or holds no array), each
/// entry's text where it is a string.
pub uninterp spec fn json_entries_at(s: Seq<char>, pointer: Seq<char>) -> Option<
    Seq<Option<Seq<char>>>,
>;

/// The text of each entry.
pub open spec fn entries_view(l: Seq<Option<String>>) -> Seq<Option<Seq<char>>> {
    l.map_values(
        |e: Option<String>|
            match e {
                Some(s) => Some(s@),
                None => None,
            },
    )
}

/// Relies on `serde_json::from_str::<Value>`, then `Value::pointer`,
/// `Value::as_array` and `Value::as_str`: whether the text parses, and the
/// string entries of the array at `pointer`, depend on the text and the
/// pointer alone.
#[verifier::external_body]
fn parse_entries_at(text: &str, pointer: &str) -> (r: Option<Option<Vec<Option<String>>>>)
    ensures
        r is Some <==> json_parses(text@),
        r matches Some(found) ==> (match found {
            Some(l) => json_entries_at(text@, pointer@) == Some(entries_view(l@)),
            None => json_entries_at(text@, pointer@) is None,
        }),
{
    match serde_json::from_str::<Value>(text) {
        Err(_) => None,
        Ok(v) => Some(
            v.pointer(pointer).and_then(|x| x.as_array()).map(
                |a| a.iter().map(|e| e.as_str().map(str::to_string)).collect(),
            ),
        ),
    }
}

/// Where an event's log lines sit in a message.
pub const LOGS_POINTER: &'static str = "/params/result/value/logs";

/// Decodes one text message. It is `Undecodable` exactly when serde_json does
/// not parse the text; otherwise it holds the entries of the log array, if
/// there is one.
pub fn decode_message(text: &str) -> (r: InboundMessage)
    ensures
        r is Undecodable <==> !json_parses(text@),
        !(r is NonText),
        r matches InboundMessage::Text { logs } ==> (match logs {
            Some(l) => json_entries_at(text@, LOGS_POINTER@) == Some(entries_view(l@)),
            None => json_entries_at(text@, LOGS_POINTER@) is None,
        }),
{
    match parse_entries_at(text, LOGS_POINTER) {
        None => InboundMessage::Undecodable,
        Some(logs) => InboundMessage::Text { logs },
    }
}

} // verus!
