//! Hub message kinds, protocol selection, and the text (JSON) record format.
use vstd::prelude::*;
use vstd::string::StrSliceExecFns;
use vstd::string::StringExecFns;
use vstd::std_specs::iter::IteratorSpec;
use crate::completer::Delivery;

verus! {

broadcast use vstd::string::group_string_axioms;

/// The kind of a hub message, from its `type` field.
#[derive(Debug, Clone, Copy, PartialEq, Eq, Structural)]
pub enum MessageType {
    Invocation,
    StreamItem,
    Completion,
    StreamInvocation,
    CancelInvocation,
    Ping,
    Close,
    Other,
}

/// The message kind that a numeric `type` field denotes.
pub open spec fn message_type_of(code: u64) -> MessageType {
    if code == 1 {
        MessageType::Invocation
    } else if code == 2 {
        MessageType::StreamItem
    } else if code == 3 {
        MessageType::Completion
    } else if code == 4 {
        MessageType::StreamInvocation
    } else if code == 5 {
        MessageType::CancelInvocation
    } else if code == 6 {
        MessageType::Ping
    } else if code == 7 {
        MessageType::Close
    } else {
        MessageType::Other
    }
}

/// Maps a numeric `type` field to the message kind.
pub fn message_type_from_code(code: u64) -> (r: MessageType)
    ensures
        r == message_type_of(code),
{
    match code {
        1 => MessageType::Invocation,
        2 => MessageType::StreamItem,
        3 => MessageType::Completion,
        4 => MessageType::StreamInvocation,
        5 => MessageType::CancelInvocation,
        6 => MessageType::Ping,
        7 => MessageType::Close,
        _ => MessageType::Other,
    }
}

/// The raw form of one hub message, as text (JSON) or as binary (MessagePack).
#[derive(Debug)]
pub enum MessagePayload {
    Text(String),
    Binary(Vec<u8>),
}

/// The hub protocol chosen for a connection.
#[derive(Debug, Clone, Copy, PartialEq, Eq, Structural)]
pub enum HubProtocolKind {
    Json,
    MessagePack,
}

impl HubProtocolKind {
    /// The protocol name announced in the handshake.
    pub fn protocol_name(&self) -> (r: &'static str)
        ensures
            r@ == (match self {
                HubProtocolKind::Json => "json"@,
                HubProtocolKind::MessagePack => "messagepack"@,
            }),
    {
        match self {
            HubProtocolKind::Json => "json",
            HubProtocolKind::MessagePack => "messagepack",
        }
    }

    /// The transfer format that negotiation must offer for this protocol.
    pub fn transfer_format(&self) -> (r: &'static str)
        ensures
            r@ == (match self {
                HubProtocolKind::Json => "Text"@,
                HubProtocolKind::MessagePack => "Binary"@,
            }),
    {
        match self {
            HubProtocolKind::Json => "Text",
            HubProtocolKind::MessagePack => "Binary",
        }
    }
}

impl Default for HubProtocolKind {
    fn default() -> (r: Self)
        ensures
            r == HubProtocolKind::Json,
    {
        HubProtocolKind::Json
    }
}

/// The record separator that ends every text message.
pub const RECORD_SEPARATOR: char = '\u{1e}';

/// A piece of a text frame: kept when non-empty.
pub open spec fn piece(p: Seq<char>) -> Seq<Seq<char>> {
    if p.len() == 0 {
        Seq::empty()
    } else {
        seq![p]
    }
}

/// The non-empty pieces of `s` from `start` on, having scanned up to `i`
/// without meeting a separator since `start`.
pub open spec fn pieces_from(s: Seq<char>, start: nat, i: nat) -> Seq<Seq<char>>
    decreases s.len() - i,
{
    if i >= s.len() {
        piece(s.subrange(start as int, s.len() as int))
    } else if s[i as int] == RECORD_SEPARATOR {
        piece(s.subrange(start as int, i as int)) + pieces_from(s, i + 1, i + 1)
    } else {
        pieces_from(s, start, i + 1)
    }
}

/// The messages of a text frame: the text cut at each record separator, with
/// the empty pieces left out.
pub open spec fn text_pieces(s: Seq<char>) -> Seq<Seq<char>> {
    pieces_from(s, 0, 0)
}

/// The character sequences held by a list of strings.
pub open spec fn string_views(v: Seq<String>) -> Seq<Seq<char>> {
    v.map_values(|x: String| x@)
}

/// Cuts a text frame into its messages: at each record separator, leaving out
/// empty pieces.
pub fn split_text_frame(text: &str) -> (r: Vec<String>)
    ensures
        string_views(r@) == text_pieces(text@),
{
    let n = text.unicode_len();
    let mut out: Vec<String> = Vec::new();
    let mut start: usize = 0;
    let mut i: usize = 0;
    let mut it = text.chars();
    proof {
        assert(text@.subrange(0, n as int) =~= text@);
        assert(string_views(out@) + pieces_from(text@, 0, 0) =~= pieces_from(text@, 0, 0));
    }
    while i < n
        invariant
            n == text@.len(),
            start <= i <= n,
            it.obeys_prophetic_iter_laws(),
            it.remaining() == text@.subrange(i as int, n as int),
            text_pieces(text@) == string_views(out@) + pieces_from(text@, start as nat, i as nat),
        decreases n - i,
    {
        let ghost before = it;
        let c = it.next();
        proof {
            assert(before.remaining()[0] == text@[i as int]);
            assert(it.remaining() =~= text@.subrange(i + 1, n as int));
        }
        let ch = match c {
            Some(ch) => ch,
            None => RECORD_SEPARATOR,
        };
        if ch == RECORD_SEPARATOR {
            let ghost old_out = out@;
            if i > start {
                let p = text.substring_char(start, i);
                out.push(String::from_str(p));
                proof {
                    assert(string_views(out@) =~= string_views(old_out) + piece(
                        text@.subrange(start as int, i as int),
                    ));
                }
            } else {
                proof {
                    assert(string_views(out@) =~= string_views(old_out) + piece(
                        text@.subrange(start as int, i as int),
                    ));
                }
            }
            proof {
                assert(string_views(old_out) + (piece(text@.subrange(start as int, i as int))
                    + pieces_from(text@, (i + 1) as nat, (i + 1) as nat)) =~= string_views(out@)
                    + pieces_from(text@, (i + 1) as nat, (i + 1) as nat));
            }
            start = i + 1;
        }
        i = i + 1;
    }
    let ghost old_out = out@;
    if n > start {
        let p = text.substring_char(start, n);
        out.push(String::from_str(p));
    }
    proof {
        assert(string_views(out@) =~= string_views(old_out) + piece(
            text@.subrange(start as int, n as int),
        ));
    }
    out
}

/// What `serde_json` finds as an unsigned integer under the top-level key
/// `field` of the JSON text `text`.
pub uninterp spec fn json_u64_field_of(text: Seq<char>, field: Seq<char>) -> Option<u64>;

/// What `serde_json` finds as a string under the top-level key `field` of the
/// JSON text `text`.
pub uninterp spec fn json_str_field_of(text: Seq<char>, field: Seq<char>) -> Option<Seq<char>>;

/// Relies on `serde_json::from_str` into a `serde_json::Value`, then
/// `Value::get` and `Value::as_u64`: the unsigned integer under key `field`,
/// if the text parses and holds one there. The answer depends on the two
/// texts alone.
#[verifier::external_body]
fn json_u64_field(text: &str, field: &str) -> (r: Option<u64>)
    ensures
        r == json_u64_field_of(text@, field@),
{
    let value: serde_json::Value = serde_json::from_str(text).ok()?;
    value.get(field)?.as_u64()
}

/// Relies on `serde_json::from_str` into a `serde_json::Value`, then
/// `Value::get` and `Value::as_str`: the string under key `field`, if the text
/// parses and holds one there. The answer depends on the two texts alone.
#[verifier::external_body]
fn json_str_field(text: &str, field: &str) -> (r: Option<String>)
    ensures
        match r {
            Some(s) => json_str_field_of(text@, field@) == Some(s@),
            None => json_str_field_of(text@, field@) is None,
        },
{
    let value: serde_json::Value = serde_json::from_str(text).ok()?;
    let found: &str = value.get(field)?.as_str()?;
    Some(String::from(found))
}

/// Whether `serde_json` parses the text `text` as a JSON object.
pub uninterp spec fn json_is_object_of(text: Seq<char>) -> bool;

/// Relies on `serde_json::from_str` into a `serde_json::Value` and
/// `Value::is_object`: whether the text is a JSON object. The answer depends
/// on the text alone.
#[verifier::external_body]
fn json_is_object(text: &str) -> (r: bool)
    ensures
        r == json_is_object_of(text@),
{
    match serde_json::from_str::<serde_json::Value>(text) {
        Ok(value) => value.is_object(),
        Err(_) => false,
    }
}

/// Whether `serde_json` parses `text` as a JSON object with key `field`.
pub uninterp spec fn json_has_field_of(text: Seq<char>, field: Seq<char>) -> bool;

/// Relies on `serde_json::from_str` into a `serde_json::Value` and
/// `Value::get`: whether the text parses and has the top-level key `field`.
/// The answer depends on the two texts alone.
#[verifier::external_body]
fn json_has_field(text: &str, field: &str) -> (r: bool)
    ensures
        r == json_has_field_of(text@, field@),
{
    match serde_json::from_str::<serde_json::Value>(text) {
        Ok(value) => value.get(field).is_some(),
        Err(_) => false,
    }
}

/// How a text Completion ends its invocation.
#[derive(Debug, PartialEq, Eq)]
pub enum TextCompletion {
    /// An `error` field: the invocation failed with this message.
    Error(String),
    /// A `result` field: the value is to be read from it.
    Value,
    /// Neither field: the method returned nothing.
    Void,
}

/// Tells a text Completion's result kind apart: by an `error` field (its
/// string, or "Unknown error"), else by a `result` field, else void.
pub fn text_completion_kind(text: &str) -> (r: TextCompletion)
    ensures
        json_has_field_of(text@, "error"@) ==> (r matches TextCompletion::Error(m) && match json_str_field_of(
            text@,
            "error"@,
        ) {
            Some(s) => m@ == s,
            None => m@ == "Unknown error"@,
        }),
        !json_has_field_of(text@, "error"@) && json_has_field_of(text@, "result"@) ==> r
            == TextCompletion::Value,
        !json_has_field_of(text@, "error"@) && !json_has_field_of(text@, "result"@) ==> r
            == TextCompletion::Void,
{
    if json_has_field(text, "error") {
        match json_str_field(text, "error") {
            Some(m) => TextCompletion::Error(m),
            None => TextCompletion::Error(String::from_str("Unknown error")),
        }
    } else if json_has_field(text, "result") {
        TextCompletion::Value
    } else {
        TextCompletion::Void
    }
}

/// What the waiter of a single invocation receives from a text completion:
/// the `result` field's value, the default when there is none, or a
/// cancellation on an `error`.
pub fn text_delivery(kind: &TextCompletion) -> (r: Delivery<()>)
    ensures
        match kind {
            TextCompletion::Value => r == Delivery::Value(()),
            TextCompletion::Void => r is Default,
            TextCompletion::Error(_) => r is Cancel,
        },
{
    match kind {
        TextCompletion::Value => Delivery::Value(()),
        TextCompletion::Void => Delivery::Default,
        TextCompletion::Error(_) => Delivery::Cancel,
    }
}

/// Whether a handshake reply accepts the connection: its first record is a
/// JSON object without an `error` field.
pub open spec fn handshake_ok_spec(text: Seq<char>) -> bool {
    let pieces = text_pieces(text);
    pieces.len() >= 1 && json_is_object_of(pieces[0]) && !json_has_field_of(pieces[0], "error"@)
}

/// Checks the server's handshake reply.
pub fn handshake_accepted(text: &str) -> (r: bool)
    ensures
        r == handshake_ok_spec(text@),
{
    let pieces = split_text_frame(text);
    if pieces.len() == 0 {
        return false;
    }
    let first = pieces[0].as_str();
    proof {
        assert(first@ == string_views(pieces@)[0]);
    }
    json_is_object(first) && !json_has_field(first, "error")
}

/// The kind of a text message, from its `type` field; `None` when the text is
/// not JSON or has no numeric `type`.
pub open spec fn text_type_spec(text: Seq<char>) -> Option<MessageType> {
    match json_u64_field_of(text, "type"@) {
        Some(code) => Some(message_type_of(code)),
        None => None,
    }
}

/// Reads the kind of a text message from its `type` field.
pub fn text_message_type(text: &str) -> (r: Option<MessageType>)
    ensures
        r == text_type_spec(text@),
{
    match json_u64_field(text, "type") {
        Some(code) => Some(message_type_from_code(code)),
        None => None,
    }
}

/// The field that correlates a message of kind `t`: the target name of an
/// invocation, the invocation id of a stream item or a completion.
pub open spec fn key_field(t: MessageType) -> Option<Seq<char>> {
    match t {
        MessageType::Invocation => Some("target"@),
        MessageType::StreamItem => Some("invocationId"@),
        MessageType::Completion => Some("invocationId"@),
        _ => None,
    }
}

/// The registry key that a text message of kind `t` carries, if any.
pub open spec fn text_key_spec(t: MessageType, text: Seq<char>) -> Option<Seq<char>> {
    match key_field(t) {
        Some(f) => json_str_field_of(text, f),
        None => None,
    }
}

/// Reads the registry key of a text message of kind `message_type`: the
/// target of an invocation, the invocation id of a stream item or completion.
pub fn text_message_key(message_type: MessageType, text: &str) -> (r: Option<String>)
    ensures
        match r {
            Some(k) => text_key_spec(message_type, text@) == Some(k@),
            None => text_key_spec(message_type, text@) is None,
        },
{
    match message_type {
        MessageType::Invocation => json_str_field(text, "target"),
        MessageType::StreamItem => json_str_field(text, "invocationId"),
        MessageType::Completion => json_str_field(text, "invocationId"),
        _ => None,
    }
}

} // verus!
