//! The event stream: a persistent subscription to the watched account's log
//! events, reconnected after a flat delay whenever it fails.
//!
//! The caller owns the connection: it performs each action this machine
//! returns and reports what happened. Inbound messages reach the machine
//! already decoded into plain values.

use vstd::prelude::*;
use vstd::string::StringExecFns;

verus! {

/// Flat delay before every reconnect, in milliseconds. It does not grow:
/// a stream that keeps failing is for an operator to see, not a load to shed.
pub const RECONNECT_DELAY_MS: u64 = 5000;

/// One inbound message of the stream.
#[derive(Clone, Debug, PartialEq, Eq)]
pub enum InboundMessage {
    /// A text message decoded as JSON. `logs` holds the entries found under
    /// `params.result.value.logs` (`None` where that path is absent or no
    /// array), each `Some` only where the entry is a string.
    Text { logs: Option<Vec<Option<String>>> },
    /// A text message that is not JSON.
    Undecodable,
    /// A binary, ping, pong or other non-text message.
    NonText,
}

#[derive(Clone, Copy, Debug, PartialEq, Eq, Structural)]
pub enum StreamPhase {
    /// Not yet started.
    Idle,
    Connecting,
    /// Connected; the subscription request is being sent.
    Subscribing,
    Streaming,
    /// Waiting out the reconnect delay.
    Disconnected,
}

#[derive(Clone, Debug, PartialEq, Eq)]
pub enum StreamEvent {
    Start,
    ConnectFailed,
    Connected,
    SubscribeFailed,
    SubscribeSent,
    Message { msg: InboundMessage },
    /// A transport error, or the peer closed the stream.
    StreamLost,
    Waited,
}

#[derive(Clone, Debug, PartialEq, Eq)]
pub enum StreamAction {
    Connect,
    /// Send the subscription request for the watched account.
    Subscribe,
    /// Read the next message.
    Read,
    /// Evaluate one trigger per log line, then read on.
    Trigger { lines: Vec<String> },
    Wait { ms: u64 },
    /// The event does not fit the current phase and changed nothing.
    Ignore,
}

/// The string entries of `entries`, in order.
pub open spec fn string_entries(entries: Seq<Option<String>>) -> Seq<String>
    decreases entries.len(),
{
    if entries.len() == 0 {
        Seq::empty()
    } else {
        let prefix = string_entries(entries.drop_last());
        match entries.last() {
            Some(s) => prefix.push(s),
            None => prefix,
        }
    }
}

/// Whether `a` carries the log lines `lines`.
pub open spec fn triggers_lines(a: StreamAction, lines: Seq<String>) -> bool {
    match a {
        StreamAction::Trigger { lines: l } => l@ == lines,
        _ => false,
    }
}

/// Whether `ev` is a message with log entries, which triggers while streaming.
pub open spec fn log_entries_of(ev: StreamEvent) -> Option<Vec<Option<String>>> {
    match ev {
        StreamEvent::Message { msg: InboundMessage::Text { logs } } => logs,
        _ => None,
    }
}

/// One transition of the stream: the phase after `ev` from phase `p`.
pub open spec fn stream_next(p: StreamPhase, ev: StreamEvent) -> StreamPhase {
    match (p, ev) {
        (StreamPhase::Idle, StreamEvent::Start) => StreamPhase::Connecting,
        (StreamPhase::Connecting, StreamEvent::ConnectFailed) => StreamPhase::Disconnected,
        (StreamPhase::Connecting, StreamEvent::Connected) => StreamPhase::Subscribing,
        (StreamPhase::Subscribing, StreamEvent::SubscribeFailed) => StreamPhase::Disconnected,
        (StreamPhase::Subscribing, StreamEvent::SubscribeSent) => StreamPhase::Streaming,
        (StreamPhase::Streaming, StreamEvent::StreamLost) => StreamPhase::Disconnected,
        (StreamPhase::Disconnected, StreamEvent::Waited) => StreamPhase::Connecting,
        _ => p,
    }
}

/// The action for `ev` from phase `p`, for every event but a message with log
/// entries while streaming (which triggers on its lines).
pub open spec fn plain_action(p: StreamPhase, ev: StreamEvent) -> StreamAction {
    match (p, ev) {
        (StreamPhase::Idle, StreamEvent::Start) => StreamAction::Connect,
        (StreamPhase::Connecting, StreamEvent::ConnectFailed) => StreamAction::Wait {
            ms: RECONNECT_DELAY_MS,
        },
        (StreamPhase::Connecting, StreamEvent::Connected) => StreamAction::Subscribe,
        (StreamPhase::Subscribing, StreamEvent::SubscribeFailed) => StreamAction::Wait {
            ms: RECONNECT_DELAY_MS,
        },
        (StreamPhase::Subscribing, StreamEvent::SubscribeSent) => StreamAction::Read,
        (StreamPhase::Streaming, StreamEvent::Message { .. }) => StreamAction::Read,
        (StreamPhase::Streaming, StreamEvent::StreamLost) => StreamAction::Wait {
            ms: RECONNECT_DELAY_MS,
        },
        (StreamPhase::Disconnected, StreamEvent::Waited) => StreamAction::Connect,
        _ => StreamAction::Ignore,
    }
}

/// Whether `a` is the action owed for `ev` from phase `p`.
pub open spec fn stream_action(p: StreamPhase, ev: StreamEvent, a: StreamAction) -> bool {
    if p == StreamPhase::Streaming && log_entries_of(ev) is Some {
        triggers_lines(a, string_entries(log_entries_of(ev)->Some_0@))
    } else {
        a == plain_action(p, ev)
    }
}

/// Text of the subscription request sent right after connecting, up to the
/// watched account.
pub const SUBSCRIBE_HEAD: &'static str = "{\"jsonrpc\":\"2.0\",\"id\":1,\"method\":\"logsSubscribe\",\"params\":[{\"mentions\":[\"";

/// Text of the subscription request after the watched account.
pub const SUBSCRIBE_TAIL: &'static str = "\"]}]}";

/// The subscription request for the account `wallet`.
pub open spec fn subscription_text(wallet: Seq<char>) -> Seq<char> {
    SUBSCRIBE_HEAD@ + wallet + SUBSCRIBE_TAIL@
}

/// The JSON-RPC request that subscribes to the log events mentioning `wallet`.
pub fn subscription_request(wallet: &str) -> (r: String)
    ensures
        r@ == subscription_text(wallet@),
{
    let mut r = String::new();
    r.append(SUBSCRIBE_HEAD);
    r.append(wallet);
    r.append(SUBSCRIBE_TAIL);
    assert(r@ =~= subscription_text(wallet@));
    r
}

/// The string entries of `entries`, in order: the log lines that trigger.
pub fn log_lines(entries: &Vec<Option<String>>) -> (r: Vec<String>)
    ensures
        r@ == string_entries(entries@),
{
    let mut r: Vec<String> = Vec::new();
    let mut i: usize = 0;
    while i < entries.len()
        invariant
            i <= entries@.len(),
            r@ == string_entries(entries@.subrange(0, i as int)),
        decreases entries@.len() - i,
    {
        assert(entries@.subrange(0, i + 1).drop_last() =~= entries@.subrange(0, i as int));
        match &entries[i] {
            Some(s) => {
                r.push(s.clone());
            },
            None => {},
        }
        i = i + 1;
    }
    assert(entries@.subrange(0, i as int) =~= entries@);
    r
}

pub struct EventSource {
    pub phase: StreamPhase,
}

impl EventSource {
    pub fn new() -> (r: Self)
        ensures
            r.phase == StreamPhase::Idle,
    {
        EventSource { phase: StreamPhase::Idle }
    }

    /// Takes one event and returns the action it calls for.
    pub fn step(&mut self, ev: StreamEvent) -> (r: StreamAction)
        ensures
            final(self).phase == stream_next(old(self).phase, ev),
            stream_action(old(self).phase, ev, r),
    {
        match (self.phase, ev) {
            (StreamPhase::Idle, StreamEvent::Start) => {
                self.phase = StreamPhase::Connecting;
                StreamAction::Connect
            },
            (StreamPhase::Connecting, StreamEvent::ConnectFailed) => {
                self.phase = StreamPhase::Disconnected;
                StreamAction::Wait { ms: RECONNECT_DELAY_MS }
            },
            (StreamPhase::Connecting, StreamEvent::Connected) => {
                self.phase = StreamPhase::Subscribing;
                StreamAction::Subscribe
            },
            (StreamPhase::Subscribing, StreamEvent::SubscribeFailed) => {
                self.phase = StreamPhase::Disconnected;
                StreamAction::Wait { ms: RECONNECT_DELAY_MS }
            },
            (StreamPhase::Subscribing, StreamEvent::SubscribeSent) => {
                self.phase = StreamPhase::Streaming;
                StreamAction::Read
            },
            (StreamPhase::Streaming, StreamEvent::Message { msg }) => match msg {
                InboundMessage::Text { logs: Some(entries) } => StreamAction::Trigger {
                    lines: log_lines(&entries),
                },
                _ => StreamAction::Read,
            },
            (StreamPhase::Streaming, StreamEvent::StreamLost) => {
                self.phase = StreamPhase::Disconnected;
                StreamAction::Wait { ms: RECONNECT_DELAY_MS }
            },
            (StreamPhase::Disconnected, StreamEvent::Waited) => {
                self.phase = StreamPhase::Connecting;
                StreamAction::Connect
            },
            _ => StreamAction::Ignore,
        }
    }
}

/// The phases and actions of a stream fed `evs` in order from phase `p`, where
/// no event is a message with log entries.
pub open spec fn plain_run(p: StreamPhase, evs: Seq<StreamEvent>) -> (StreamPhase, Seq<StreamAction>)
    decreases evs.len(),
{
    if evs.len() == 0 {
        (p, Seq::empty())
    } else {
        let (q, rest) = plain_run(stream_next(p, evs[0]), evs.drop_first());
        (q, seq![plain_action(p, evs[0])].add(rest))
    }
}

/// `k` connection attempts that fail, each followed by the reconnect delay.
pub open spec fn failed_connects(k: nat) -> Seq<StreamEvent>
    decreases k,
{
    if k == 0 {
        Seq::empty()
    } else {
        failed_connects((k - 1) as nat).push(StreamEvent::ConnectFailed).push(StreamEvent::Waited)
    }
}

/// What the stream asks for while `k` connection attempts fail.
pub open spec fn reconnect_actions(k: nat) -> Seq<StreamAction>
    decreases k,
{
    if k == 0 {
        Seq::empty()
    } else {
        reconnect_actions((k - 1) as nat).push(StreamAction::Wait { ms: RECONNECT_DELAY_MS }).push(
            StreamAction::Connect,
        )
    }
}

/// How many of `actions` open a connection.
pub open spec fn connect_count(actions: Seq<StreamAction>) -> nat
    decreases actions.len(),
{
    if actions.len() == 0 {
        0
    } else {
        connect_count(actions.drop_last()) + (if actions.last() is Connect { 1nat } else { 0nat })
    }
}

proof fn lemma_plain_run_append(p: StreamPhase, a: Seq<StreamEvent>, b: Seq<StreamEvent>)
    ensures
        plain_run(p, a.add(b)).0 == plain_run(plain_run(p, a).0, b).0,
        plain_run(p, a.add(b)).1 == plain_run(p, a).1.add(plain_run(plain_run(p, a).0, b).1),
    decreases a.len(),
{
    if a.len() == 0 {
        assert(a.add(b) =~= b);
        assert(plain_run(p, a).1.add(plain_run(p, b).1) =~= plain_run(p, b).1);
    } else {
        assert(a.add(b).drop_first() =~= a.drop_first().add(b));
        lemma_plain_run_append(stream_next(p, a[0]), a.drop_first(), b);
        let x = plain_action(p, a[0]);
        let r1 = plain_run(stream_next(p, a[0]), a.drop_first()).1;
        let r2 = plain_run(plain_run(p, a).0, b).1;
        assert(seq![x].add(r1.add(r2)) =~= seq![x].add(r1).add(r2));
    }
}

proof fn lemma_plain_run_one(p: StreamPhase, e: StreamEvent)
    ensures
        plain_run(p, seq![e]) == (stream_next(p, e), seq![plain_action(p, e)]),
{
    reveal_with_fuel(plain_run, 2);
    assert(seq![e].drop_first() =~= Seq::<StreamEvent>::empty());
    assert(seq![plain_action(p, e)].add(Seq::<StreamAction>::empty()) =~= seq![plain_action(p, e)]);
}

proof fn lemma_plain_run_two(p: StreamPhase, e1: StreamEvent, e2: StreamEvent)
    ensures
        plain_run(p, seq![e1, e2]) == (
            stream_next(stream_next(p, e1), e2),
            seq![plain_action(p, e1), plain_action(stream_next(p, e1), e2)],
        ),
{
    lemma_plain_run_one(p, e1);
    lemma_plain_run_one(stream_next(p, e1), e2);
    assert(seq![e1, e2] =~= seq![e1].add(seq![e2]));
    lemma_plain_run_append(p, seq![e1], seq![e2]);
    assert(seq![plain_action(p, e1)].add(seq![plain_action(stream_next(p, e1), e2)]) =~= seq![
        plain_action(p, e1),
        plain_action(stream_next(p, e1), e2),
    ]);
}

proof fn lemma_connect_count_add(a: Seq<StreamAction>, b: Seq<StreamAction>)
    ensures
        connect_count(a.add(b)) == connect_count(a) + connect_count(b),
    decreases b.len(),
{
    if b.len() == 0 {
        assert(a.add(b) =~= a);
    } else {
        assert(a.add(b).drop_last() =~= a.add(b.drop_last()));
        lemma_connect_count_add(a, b.drop_last());
    }
}

proof fn lemma_failed_connects(k: nat)
    ensures
        plain_run(StreamPhase::Connecting, failed_connects(k)) == (
            StreamPhase::Connecting,
            reconnect_actions(k),
        ),
        connect_count(reconnect_actions(k)) == k,
    decreases k,
{
    if k == 0 {
        assert(reconnect_actions(0) =~= Seq::<StreamAction>::empty());
    } else {
        let pair = seq![StreamEvent::ConnectFailed, StreamEvent::Waited];
        lemma_failed_connects((k - 1) as nat);
        assert(failed_connects(k) =~= failed_connects((k - 1) as nat).add(pair));
        lemma_plain_run_append(StreamPhase::Connecting, failed_connects((k - 1) as nat), pair);
        lemma_plain_run_two(StreamPhase::Connecting, StreamEvent::ConnectFailed, StreamEvent::Waited);
        let acts = seq![StreamAction::Wait { ms: RECONNECT_DELAY_MS }, StreamAction::Connect];
        assert(plain_run(StreamPhase::Connecting, pair).1 =~= acts);
        assert(reconnect_actions(k) =~= reconnect_actions((k - 1) as nat).add(acts));
        let w = reconnect_actions((k - 1) as nat).push(StreamAction::Wait { ms: RECONNECT_DELAY_MS });
        assert(reconnect_actions(k).drop_last() =~= w);
        assert(w.drop_last() =~= reconnect_actions((k - 1) as nat));
        assert(connect_count(w) == k - 1);
        assert(reconnect_actions(k).last() is Connect);
        assert(connect_count(reconnect_actions(k)) == connect_count(w) + 1);
    }
}

/// A stream whose first `k` connection attempts fail and whose next one
/// succeeds reaches `Streaming` after exactly `k + 1` connection attempts,
/// each retry coming right after a wait of the flat reconnect delay.
pub proof fn lemma_reconnect_liveness(k: nat)
    ensures
        ({
            let evs = seq![StreamEvent::Start].add(failed_connects(k)).add(
                seq![StreamEvent::Connected, StreamEvent::SubscribeSent],
            );
            let (p, actions) = plain_run(StreamPhase::Idle, evs);
            &&& p == StreamPhase::Streaming
            &&& actions == seq![StreamAction::Connect].add(reconnect_actions(k)).add(
                seq![StreamAction::Subscribe, StreamAction::Read],
            )
            &&& connect_count(actions) == k + 1
        }),
{
    let start = seq![StreamEvent::Start];
    let tail = seq![StreamEvent::Connected, StreamEvent::SubscribeSent];
    lemma_failed_connects(k);
    lemma_plain_run_one(StreamPhase::Idle, StreamEvent::Start);
    lemma_plain_run_append(StreamPhase::Idle, start, failed_connects(k));
    lemma_plain_run_append(StreamPhase::Idle, start.add(failed_connects(k)), tail);
    lemma_plain_run_two(StreamPhase::Connecting, StreamEvent::Connected, StreamEvent::SubscribeSent);
    let tail_acts = seq![StreamAction::Subscribe, StreamAction::Read];
    assert(plain_run(StreamPhase::Connecting, tail).1 =~= tail_acts);
    let first = seq![StreamAction::Connect];
    lemma_connect_count_add(first, reconnect_actions(k));
    lemma_connect_count_add(first.add(reconnect_actions(k)), tail_acts);
    assert(first.drop_last() =~= Seq::<StreamAction>::empty());
    assert(tail_acts.drop_last() =~= seq![StreamAction::Subscribe]);
    assert(tail_acts.drop_last().drop_last() =~= Seq::<StreamAction>::empty());
    assert(connect_count(first.drop_last()) == 0);
    assert(first.last() is Connect);
    assert(connect_count(first) == 1);
    assert(connect_count(tail_acts.drop_last()) == 0);
    assert(connect_count(tail_acts) == 0);
    let evs = start.add(failed_connects(k)).add(tail);
    assert(plain_run(StreamPhase::Idle, start.add(failed_connects(k))).0 == StreamPhase::Connecting);
    assert(plain_run(StreamPhase::Idle, start.add(failed_connects(k))).1 == first.add(
        reconnect_actions(k),
    ));
    assert(plain_run(StreamPhase::Idle, evs).0 == StreamPhase::Streaming);
}

} // verus!
