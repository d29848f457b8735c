//! WebSocket bookkeeping: messages, connection states and a table of
//! connections.
use vstd::prelude::*;
use vstd::string::StrSliceExecFns;
use vstd::utf8::{decode_utf8, encode_utf8, valid_utf8};

use crate::string_map::StringMap;
use crate::text::{push_str, string_of};

verus! {

/// The state of a WebSocket connection.
#[derive(Debug, Clone, Copy, PartialEq, Eq, Structural)]
pub enum WebSocketState {
    Connecting,
    Open,
    Closing,
    Closed,
}

/// A WebSocket message: text or binary data.
#[derive(Debug, Clone)]
pub struct WebSocketMessage {
    pub is_text: bool,
    pub data: Vec<u8>,
}

/// Calls `std::str::from_utf8`: the bytes read as text when they are valid
/// UTF-8, else nothing.
#[verifier::external_body]
fn utf8_text(bytes: &[u8]) -> (r: Option<&str>)
    ensures
        r.is_some() == valid_utf8(bytes@),
        r matches Some(s) ==> s@ == decode_utf8(bytes@),
{
    std::str::from_utf8(bytes).ok()
}

impl WebSocketMessage {
    /// A text message with the UTF-8 bytes of `content`.
    pub fn text(content: &str) -> (m: Self)
        ensures
            m.is_text,
            m.data@ == encode_utf8(content@),
    {
        WebSocketMessage { is_text: true, data: content.as_bytes_vec() }
    }

    /// A binary message.
    pub fn binary(data: Vec<u8>) -> (m: Self)
        ensures
            !m.is_text,
            m.data == data,
    {
        WebSocketMessage { is_text: false, data }
    }

    /// The text of a text message whose data is valid UTF-8.
    pub fn as_text(&self) -> (r: Option<&str>)
        ensures
            r.is_some() == (self.is_text && valid_utf8(self.data@)),
            r matches Some(s) ==> s@ == decode_utf8(self.data@),
    {
        if self.is_text {
            utf8_text(self.data.as_slice())
        } else {
            None
        }
    }

    /// The data.
    pub fn as_binary(&self) -> (r: &[u8])
        ensures
            r@ == self.data@,
    {
        self.data.as_slice()
    }
}

/// A text message gives back its text: the UTF-8 bytes of any text are valid
/// UTF-8 and decode to that text, so `as_text` of `text(content)` is
/// `Some(content)`.
pub proof fn law_text_message_round_trip(content: Seq<char>, m: WebSocketMessage)
    requires
        m.is_text,
        m.data@ == encode_utf8(content),
    ensures
        valid_utf8(m.data@),
        decode_utf8(m.data@) == content,
{
    vstd::utf8::encode_utf8_valid_utf8(content);
    vstd::utf8::encode_utf8_decode_utf8(content);
}

/// The error given when sending on a connection that is not open.
pub open spec fn not_open_error() -> Seq<char> {
    "الاتصال غير مفتوح"@
}

/// A WebSocket connection.
pub struct WebSocketConnection {
    pub id: String,
    pub state: WebSocketState,
    pub headers: StringMap<String>,
    pub path: String,
}

impl WebSocketConnection {
    /// A connection `id` on `path`, connecting, with no headers.
    pub fn new(id: &str, path: &str) -> (c: Self)
        ensures
            c.id@ == id@,
            c.state == WebSocketState::Connecting,
            c.headers.wf(),
            c.headers@ == Map::<Seq<char>, String>::empty(),
            c.path@ == path@,
    {
        WebSocketConnection {
            id: string_of(id),
            state: WebSocketState::Connecting,
            headers: StringMap::new(),
            path: string_of(path),
        }
    }

    /// Sends a message: only an open connection accepts one.
    pub fn send(&mut self, message: &WebSocketMessage) -> (r: Result<(), String>)
        ensures
            *final(self) == *old(self),
            r is Ok == (old(self).state == WebSocketState::Open),
            r matches Err(e) ==> e@ == not_open_error(),
    {
        self.deliver(message)
    }

    /// Sending itself, which does not change the connection.
    fn deliver(&self, message: &WebSocketMessage) -> (r: Result<(), String>)
        ensures
            r is Ok == (self.state == WebSocketState::Open),
            r matches Err(e) ==> e@ == not_open_error(),
    {
        if self.state != WebSocketState::Open {
            return Err(string_of("الاتصال غير مفتوح"));
        }
        Ok(())
    }

    /// Closes the connection.
    pub fn close(&mut self)
        ensures
            *final(self) == (WebSocketConnection { state: WebSocketState::Closed, ..*old(self) }),
    {
        self.state = WebSocketState::Closed;
    }

    /// Whether the connection is open.
    pub fn is_open(&self) -> (b: bool)
        ensures
            b == (self.state == WebSocketState::Open),
    {
        self.state == WebSocketState::Open
    }
}

/// The error given when sending to an unknown connection.
pub open spec fn unknown_connection_error(id: Seq<char>) -> Seq<char> {
    "الاتصال "@ + id + " غير موجود"@
}

/// A WebSocket server: a port and a table of connections by id.
pub struct WebSocketServer {
    pub port: u16,
    connections: StringMap<WebSocketConnection>,
}

impl WebSocketServer {
    /// The connections by id.
    pub closed spec fn connection_map(&self) -> Map<Seq<char>, WebSocketConnection> {
        self.connections@
    }

    /// The port.
    pub closed spec fn listen_port(&self) -> u16 {
        self.port
    }

    /// A server on `port` with no connection.
    pub fn new(port: u16) -> (s: Self)
        ensures
            s.listen_port() == port,
            s.connection_map() == Map::<Seq<char>, WebSocketConnection>::empty(),
    {
        WebSocketServer { port, connections: StringMap::new() }
    }

    /// Sends `message` to every open connection.
    pub fn broadcast(&mut self, message: &WebSocketMessage)
        ensures
            *final(self) == *old(self),
    {
        proof {
            use_type_invariant(&self.connections);
        }
        let n = self.connections.len();
        let mut i: usize = 0;
        while i < n
            invariant
                *self == *old(self),
                self.connections.wf(),
                n == self.connections.spec_len(),
                0 <= i <= n,
            decreases n - i,
        {
            let conn = self.connections.value_at(i);
            if conn.is_open() {
                let _ = conn.deliver(message);
            }
            i = i + 1;
        }
    }

    /// Sends `message` to the connection `id`.
    pub fn send_to(&mut self, id: &str, message: &WebSocketMessage) -> (r: Result<(), String>)
        ensures
            *final(self) == *old(self),
            !old(self).connection_map().contains_key(id@) ==> (r matches Err(e) && e@ == unknown_connection_error(id@)),
            old(self).connection_map().contains_key(id@) ==> (r is Ok == (old(self).connection_map()[id@].state == WebSocketState::Open)),
            old(self).connection_map().contains_key(id@) && r is Err ==> (r matches Err(e) && e@ == not_open_error()),
    {
        match self.connections.get(id) {
            Some(conn) => conn.deliver(message),
            None => {
                let mut e = String::new();
                push_str(&mut e, "الاتصال ");
                push_str(&mut e, id);
                push_str(&mut e, " غير موجود");
                assert(e@ =~= unknown_connection_error(id@));
                Err(e)
            },
        }
    }

    /// The number of connections.
    pub fn connection_count(&self) -> (n: usize)
        ensures
            n == self.connection_map().len(),
    {
        self.connections.len()
    }
}

} // verus!
