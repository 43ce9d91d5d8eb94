//! The event connection to DSH's `/api/events.*` endpoints: the WebSocket
//! URL, what each received message leads to, the reconnect decision, and
//! the extraction of the frame from its envelope
//! `{type:'server-request', rpcId, method, payload}`.

use vstd::prelude::*;

use crate::child_dsh::occurs_at;
use crate::json::{lookup_member, parse_json, spec_parse_json, Json};
use crate::strings::{push_char, push_str, str_eq, to_chars};

verus! {

/// How long to wait before reconnecting after the connection ended (3 s).
pub const RECONNECT_DELAY_MS: u64 = 3000;

#[verifier::external_type_specification]
#[verifier::external_body]
pub struct ExReqwestClient(reqwest::Client);

/// `s` with every occurrence of `p` replaced by `q`, scanning from the left
/// without overlaps (`str::replace`, for a non-empty `p`).
pub open spec fn replace_seq(s: Seq<char>, p: Seq<char>, q: Seq<char>) -> Seq<char>
    decreases s.len(),
{
    if p.len() == 0 || s.len() < p.len() {
        s
    } else if s.take(p.len() as int) == p {
        q + replace_seq(s.skip(p.len() as int), p, q)
    } else {
        seq![s[0]] + replace_seq(s.drop_first(), p, q)
    }
}

/// The WebSocket URL of an HTTP URL: `https://` becomes `wss://`, then
/// `http://` becomes `ws://`.
pub open spec fn ws_url_spec(url: Seq<char>) -> Seq<char> {
    replace_seq(replace_seq(url, "https://"@, "wss://"@), "http://"@, "ws://"@)
}

/// Replaces every occurrence of `p` in `s` by `q`.
fn replace_all(s: &str, p: &str, q: &str) -> (r: String)
    requires
        p@.len() > 0,
    ensures
        r@ == replace_seq(s@, p@, q@),
{
    let cs = to_chars(s);
    let pc = to_chars(p);
    let mut out = String::new();
    let mut i: usize = 0;
    assert(cs@.skip(0) =~= cs@);
    while i < cs.len()
        invariant
            i <= cs.len(),
            cs@ == s@,
            pc@ == p@,
            p@.len() > 0,
            out@ + replace_seq(cs@.skip(i as int), p@, q@) == replace_seq(s@, p@, q@),
        decreases cs.len() - i,
    {
        let ghost t = cs@.skip(i as int);
        let ghost before = out@;
        assert(t[0] == cs@[i as int]);
        assert(t.drop_first() =~= cs@.skip(i + 1));
        let m = crate::child_dsh::matches_at(&cs, &pc, i);
        if m {
            assert(t.take(p@.len() as int) =~= cs@.subrange(i as int, i + p@.len()));
            assert(t.skip(p@.len() as int) =~= cs@.skip(i + p@.len()));
            push_str(&mut out, q);
            assert(out@ + replace_seq(cs@.skip(i + pc.len()), p@, q@) =~= before + (q@
                + replace_seq(t.skip(p@.len() as int), p@, q@)));
            i = i + pc.len();
        } else {
            proof {
                if t.len() >= p@.len() {
                    assert(t.take(p@.len() as int) =~= cs@.subrange(i as int, i + p@.len()));
                } else {
                    assert(replace_seq(t.drop_first(), p@, q@) == t.drop_first());
                    assert(seq![t[0]] + t.drop_first() =~= t);
                }
            }
            push_char(&mut out, cs[i]);
            assert(out@ + replace_seq(cs@.skip(i + 1), p@, q@) =~= before + (seq![t[0]]
                + replace_seq(t.drop_first(), p@, q@)));
            i = i + 1;
        }
    }
    assert(cs@.skip(i as int) =~= Seq::<char>::empty());
    assert(out@ + Seq::<char>::empty() =~= out@);
    out
}

/// A connection to one event endpoint of DSH.
pub struct SseConnector {
    url: String,
}

impl View for SseConnector {
    type V = Seq<char>;

    /// The endpoint's HTTP URL.
    closed spec fn view(&self) -> Seq<char> {
        self.url@
    }
}

impl SseConnector {
    /// A connector for the endpoint at `url`. The HTTP client is not needed:
    /// the events come over a WebSocket.
    pub fn new(url: String, _http: reqwest::Client) -> (r: Self)
        ensures
            r@ == url@,
    {
        SseConnector { url }
    }

    /// The WebSocket URL to connect to.
    pub fn ws_url(&self) -> (r: String)
        ensures
            r@ == ws_url_spec(self@),
    {
        proof {
            reveal_strlit("https://");
            reveal_strlit("http://");
        }
        let a = replace_all(self.url.as_str(), "https://", "wss://");
        replace_all(a.as_str(), "http://", "ws://")
    }
}

/// The frame carried by an envelope: its `payload` member, or the whole
/// value when it has none.
pub open spec fn payload_of(envelope: Json) -> Json {
    match envelope.spec_get("payload"@) {
        Some(p) => p,
        None => envelope,
    }
}

/// The index of the first member of `fields` named `key`.
fn member_index(fields: &Vec<(String, Json)>, key: &str) -> (r: Option<usize>)
    ensures
        match r {
            Some(i) => i < fields.len() && lookup_member(fields@, key@) == Some(fields@[i as int].1),
            None => lookup_member(fields@, key@) is None,
        },
{
    let mut i: usize = 0;
    assert(fields@.skip(0) =~= fields@);
    while i < fields.len()
        invariant
            i <= fields.len(),
            lookup_member(fields@, key@) == lookup_member(fields@.skip(i as int), key@),
        decreases fields.len() - i,
    {
        assert(fields@.skip(i as int).drop_first() =~= fields@.skip(i + 1));
        assert(fields@.skip(i as int)[0] == fields@[i as int]);
        if str_eq(fields[i].0.as_str(), key) {
            return Some(i);
        }
        i = i + 1;
    }
    None
}

/// The frame carried by an envelope (see [`payload_of`]).
pub fn frame_payload(envelope: Json) -> (r: Json)
    ensures
        r == payload_of(envelope),
{
    match envelope {
        Json::Object(fields) => {
            match member_index(&fields, "payload") {
                Some(i) => {
                    let mut fields = fields;
                    let (_, v) = fields.remove(i);
                    v
                },
                None => Json::Object(fields),
            }
        },
        other => other,
    }
}

/// The frame of a WebSocket text message: the envelope is parsed as JSON and
/// its `payload` is taken; `None` when the text is not JSON.
pub fn parse_frame(text: &str) -> (r: Option<Json>)
    ensures
        r == match spec_parse_json(text@) {
            Some(e) => Some(payload_of(e)),
            None => None,
        },
{
    match parse_json(text) {
        Some(envelope) => Some(frame_payload(envelope)),
        None => None,
    }
}

/// A message received on the WebSocket, as far as the connector looks at it.
#[derive(Debug)]
pub enum WsMessage {
    Text(String),
    Binary,
    Ping,
    Pong,
    Close,
    Other,
}

/// What the reading loop does with a received message.
#[derive(Debug)]
pub enum MessageAction {
    /// Hand this frame to the callback.
    Deliver(Json),
    /// The server closed the connection: stop reading.
    Stop,
    /// Nothing to do.
    Ignore,
}

/// What a received message leads to: a text message whose envelope parses
/// delivers its frame, a close frame stops the reading, anything else
/// (including a text that is not JSON) is ignored.
pub open spec fn message_action(m: WsMessage) -> MessageAction {
    match m {
        WsMessage::Text(t) => match spec_parse_json(t@) {
            Some(e) => MessageAction::Deliver(payload_of(e)),
            None => MessageAction::Ignore,
        },
        WsMessage::Close => MessageAction::Stop,
        _ => MessageAction::Ignore,
    }
}

/// Decides what to do with a received message.
pub fn on_message(m: WsMessage) -> (r: MessageAction)
    ensures
        r == message_action(m),
{
    match m {
        WsMessage::Text(t) => match parse_frame(t.as_str()) {
            Some(frame) => MessageAction::Deliver(frame),
            None => MessageAction::Ignore,
        },
        WsMessage::Close => MessageAction::Stop,
        _ => MessageAction::Ignore,
    }
}

/// What the connector does once a connection has ended.
#[derive(Debug, Clone, Copy, PartialEq, Eq, Structural)]
pub enum AfterDisconnect {
    /// Cancelled: leave the loop.
    Exit,
    /// Run the reconnect callback, wait [`RECONNECT_DELAY_MS`], connect again.
    Reconnect,
}

/// Once a connection ended (normally or with an error), the connector leaves
/// when it was cancelled and reconnects otherwise.
pub fn after_disconnect(cancelled: bool) -> (r: AfterDisconnect)
    ensures
        r == (if cancelled {
            AfterDisconnect::Exit
        } else {
            AfterDisconnect::Reconnect
        }),
{
    if cancelled {
        AfterDisconnect::Exit
    } else {
        AfterDisconnect::Reconnect
    }
}

} // verus!
