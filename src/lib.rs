//! A client for the SignalR hub protocol: message framing and codecs, the
//! registry of pending operations, and the reconnection rules.
pub mod framing;
pub mod protocol;
pub mod registry;
pub mod reconnection;
pub mod binary;
pub mod completer;
pub mod negotiate;

pub use binary::{
    encode_invocation, parse_completion, parse_invocation, parse_stream_item, read_message_type,
    to_camel_case, to_pascal_case, Field, MsgpackCompletion, MsgpackInvocation, MsgpackStreamItem,
};
pub use completer::{CompletedFuture, State};
pub use framing::{decode_varint, encode_ping, encode_varint, frame_message, split_framed_messages};
pub use negotiate::{ConnectionConfiguration, ConnectionData, HttpClient};
pub use protocol::{HubProtocolKind, MessagePayload, MessageType};
pub use reconnection::{
    ConstantDelayPolicy, LinearBackoffPolicy, NoReconnectPolicy, ReconnectionPolicy,
};
pub use registry::{CallbackHandler, Registry};
