//! Plain data shared by the tasks: websocket frames, tagged messages and
//! status reports.
use vstd::prelude::*;

verus! {

/// Why a peer closed a websocket.
pub struct CloseInfo {
    pub code: u16,
    pub reason: String,
}

/// A websocket frame.
pub enum WsMessage {
    Text(String),
    Binary(Vec<u8>),
    Ping(Vec<u8>),
    Pong(Vec<u8>),
    Close(Option<CloseInfo>),
    Frame(Vec<u8>),
}

impl WsMessage {
    /// The text of a text frame.
    pub open spec fn text_view(self) -> Option<Seq<char>> {
        match self {
            WsMessage::Text(t) => Some(t@),
            _ => None,
        }
    }
}

/// A frame tagged with the time it was received and the endpoint it came from.
pub struct MyMessage {
    pub receivedat: i64,
    pub endpoint_name: String,
    pub message: WsMessage,
}

/// A frame fanned out to the listeners of an endpoint.
pub struct BroadcastMessage {
    pub timestamp: u128,
    pub endpoint_name: String,
    pub message: WsMessage,
}

/// A frame fanned out with its time already formatted.
pub struct BroadcastMessageFout {
    pub timestamp: String,
    pub endpoint_name: String,
    pub message: WsMessage,
}

/// A status report of one endpoint task.
pub struct Status {
    pub endpoint_name: String,
    pub timestamp: u128,
    pub message: String,
    pub sending_party: String,
}

} // verus!
