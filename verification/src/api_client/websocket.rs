//! WebSocket connections as state: messages waiting to be sent, messages
//! received, and whether the connection is open; and the client's table of
//! connections. The transport that moves messages over the network is
//! outside the library: it takes the waiting messages and delivers received
//! ones.
use vstd::prelude::*;
use crate::api_client::{APIClientConfig, ApiError};
use crate::strmap::StrMap;
use crate::text::{owned, views};

verus! {

/// A WebSocket message.
#[derive(Debug)]
pub enum WebSocketMessage {
    Text(String),
    Binary(Vec<u8>),
    Ping(Vec<u8>),
    Pong(Vec<u8>),
    Close(Option<u16>, Option<String>),
}

/// A WebSocket event.
#[derive(Debug)]
pub enum WebSocketEvent {
    Connected,
    Message(WebSocketMessage),
    Disconnected,
    Error(String),
}

/// The close frame a close message is sent with: a code and a reason when
/// the message has both, no frame otherwise.
pub fn close_frame(code: Option<u16>, reason: Option<String>) -> (r: Option<(u16, String)>)
    ensures
        match (code, reason) {
            (Some(c), Some(s)) => r == Some((c, s)),
            _ => r is None,
        },
{
    match (code, reason) {
        (Some(c), Some(s)) => Some((c, s)),
        _ => None,
    }
}

/// A WebSocket connection.
pub struct WebSocketConnection {
    pub url: String,
    pub id: String,
    outbox: Vec<WebSocketMessage>,
    inbox: Vec<WebSocketMessage>,
    connected: bool,
}

impl WebSocketConnection {
    /// Messages waiting to be sent, oldest first.
    pub closed spec fn outgoing(&self) -> Seq<WebSocketMessage> {
        self.outbox@
    }

    /// Messages received and not yet read, oldest first.
    pub closed spec fn incoming(&self) -> Seq<WebSocketMessage> {
        self.inbox@
    }

    pub closed spec fn open(&self) -> bool {
        self.connected
    }

    pub closed spec fn url_view(&self) -> Seq<char> {
        self.url@
    }

    pub closed spec fn id_view(&self) -> Seq<char> {
        self.id@
    }

    /// A newly opened connection with nothing sent or received.
    pub fn new(url: &str, id: String) -> (c: Self)
        ensures
            c.open(),
            c.outgoing().len() == 0,
            c.incoming().len() == 0,
            c.url_view() == url@,
            c.id_view() == id@,
    {
        WebSocketConnection { url: owned(url), id, outbox: Vec::new(), inbox: Vec::new(), connected: true }
    }

    /// Queue a message. A closed connection refuses it.
    pub fn send(&mut self, message: WebSocketMessage) -> (r: Result<(), ApiError>)
        ensures
            final(self).open() == old(self).open(),
            final(self).incoming() == old(self).incoming(),
            final(self).url_view() == old(self).url_view(),
            final(self).id_view() == old(self).id_view(),
            if old(self).open() {
                r is Ok && final(self).outgoing() == old(self).outgoing().push(message)
            } else {
                (r matches Err(ApiError(m)) && m@ == "WebSocket not connected"@)
                    && final(self).outgoing() == old(self).outgoing()
            },
    {
        if !self.connected {
            return Err(ApiError(owned("WebSocket not connected")));
        }
        self.outbox.push(message);
        Ok(())
    }

    /// Queue a text message; see `send`.
    pub fn send_text(&mut self, text: String) -> (r: Result<(), ApiError>)
        ensures
            final(self).open() == old(self).open(),
            final(self).incoming() == old(self).incoming(),
            if old(self).open() {
                r is Ok && final(self).outgoing() == old(self).outgoing().push(WebSocketMessage::Text(text))
            } else {
                r is Err && final(self).outgoing() == old(self).outgoing()
            },
    {
        self.send(WebSocketMessage::Text(text))
    }

    /// Queue a binary message; see `send`.
    pub fn send_binary(&mut self, data: Vec<u8>) -> (r: Result<(), ApiError>)
        ensures
            final(self).open() == old(self).open(),
            final(self).incoming() == old(self).incoming(),
            if old(self).open() {
                r is Ok && final(self).outgoing() == old(self).outgoing().push(WebSocketMessage::Binary(data))
            } else {
                r is Err && final(self).outgoing() == old(self).outgoing()
            },
    {
        self.send(WebSocketMessage::Binary(data))
    }

    /// Queue a ping; see `send`.
    pub fn ping(&mut self, data: Vec<u8>) -> (r: Result<(), ApiError>)
        ensures
            final(self).open() == old(self).open(),
            final(self).incoming() == old(self).incoming(),
            if old(self).open() {
                r is Ok && final(self).outgoing() == old(self).outgoing().push(WebSocketMessage::Ping(data))
            } else {
                r is Err && final(self).outgoing() == old(self).outgoing()
            },
    {
        self.send(WebSocketMessage::Ping(data))
    }

    /// Queue a pong; see `send`.
    pub fn pong(&mut self, data: Vec<u8>) -> (r: Result<(), ApiError>)
        ensures
            final(self).open() == old(self).open(),
            final(self).incoming() == old(self).incoming(),
            if old(self).open() {
                r is Ok && final(self).outgoing() == old(self).outgoing().push(WebSocketMessage::Pong(data))
            } else {
                r is Err && final(self).outgoing() == old(self).outgoing()
            },
    {
        self.send(WebSocketMessage::Pong(data))
    }

    /// Queue a close message; see `send`.
    pub fn close(&mut self, code: Option<u16>, reason: Option<String>) -> (r: Result<(), ApiError>)
        ensures
            final(self).open() == old(self).open(),
            final(self).incoming() == old(self).incoming(),
            if old(self).open() {
                r is Ok && final(self).outgoing() == old(self).outgoing().push(WebSocketMessage::Close(code, reason))
            } else {
                r is Err && final(self).outgoing() == old(self).outgoing()
            },
    {
        self.send(WebSocketMessage::Close(code, reason))
    }

    /// Whether the connection is open.
    pub fn is_connected(&self) -> (b: bool)
        ensures b == self.open(),
    {
        self.connected
    }

    /// The messages waiting to be sent, handed to the transport.
    pub fn take_outgoing(&mut self) -> (r: Vec<WebSocketMessage>)
        ensures
            r@ == old(self).outgoing(),
            final(self).outgoing().len() == 0,
            final(self).incoming() == old(self).incoming(),
            final(self).open() == old(self).open(),
    {
        let mut r: Vec<WebSocketMessage> = Vec::new();
        std::mem::swap(&mut r, &mut self.outbox);
        r
    }

    /// A message the transport received.
    pub fn deliver(&mut self, message: WebSocketMessage)
        ensures
            final(self).incoming() == old(self).incoming().push(message),
            final(self).outgoing() == old(self).outgoing(),
            final(self).open() == old(self).open(),
    {
        self.inbox.push(message);
    }

    /// The oldest unread message, if any.
    pub fn receive(&mut self) -> (r: Option<WebSocketMessage>)
        ensures
            if old(self).incoming().len() > 0 {
                r == Some(old(self).incoming()[0]) && final(self).incoming() == old(self).incoming().drop_first()
            } else {
                r is None && final(self).incoming() == old(self).incoming()
            },
            final(self).outgoing() == old(self).outgoing(),
            final(self).open() == old(self).open(),
    {
        if self.inbox.len() > 0 {
            let m = self.inbox.remove(0);
            assert(self.inbox@ =~= old(self).inbox@.drop_first());
            Some(m)
        } else {
            None
        }
    }

    /// All unread messages, oldest first.
    pub fn receive_all(&mut self) -> (r: Result<Vec<WebSocketMessage>, ApiError>)
        ensures
            r matches Ok(v) && v@ == old(self).incoming(),
            final(self).incoming().len() == 0,
            final(self).outgoing() == old(self).outgoing(),
            final(self).open() == old(self).open(),
    {
        let mut r: Vec<WebSocketMessage> = Vec::new();
        std::mem::swap(&mut r, &mut self.inbox);
        Ok(r)
    }

    /// The connection is closed: nothing more is sent.
    pub fn mark_disconnected(&mut self)
        ensures
            !final(self).open(),
            final(self).outgoing() == old(self).outgoing(),
            final(self).incoming() == old(self).incoming(),
    {
        self.connected = false;
    }
}

/// The client's connections by id.
pub struct WebSocketClient {
    connections: StrMap<WebSocketConnection>,
    config: APIClientConfig,
}

impl WebSocketClient {
    pub closed spec fn wf(&self) -> bool {
        self.connections.wf()
    }

    /// The connections by id.
    pub closed spec fn connections_view(&self) -> Map<Seq<char>, WebSocketConnection> {
        self.connections@
    }

    /// The ids, in the order connected.
    pub closed spec fn ids(&self) -> Seq<Seq<char>> {
        self.connections.key_seq()
    }

    /// A client with no connections.
    pub fn new(config: APIClientConfig) -> (c: Self)
        ensures
            c.wf(),
            c.connections_view() == Map::<Seq<char>, WebSocketConnection>::empty(),
    {
        WebSocketClient { connections: StrMap::new(), config }
    }

    /// Keep a connection that was just opened, under its id.
    pub fn add_connection(&mut self, connection: WebSocketConnection)
        requires old(self).wf(),
        ensures
            final(self).wf(),
            final(self).connections_view() == old(self).connections_view().insert(connection.id_view(), connection),
    {
        let id = connection.id.clone();
        self.connections.insert(id, connection);
    }

    /// Keep a connection just opened to `url` under a fresh id, which is given
    /// back.
    pub fn register_connection(&mut self, url: &str) -> (id: String)
        requires old(self).wf(),
        ensures
            final(self).wf(),
            crate::stamp::is_hyphenated_uuid(id@),
            final(self).connections_view().dom() == old(self).connections_view().dom().insert(id@),
            final(self).connections_view()[id@].open(),
            final(self).connections_view()[id@].url_view() == url@,
            final(self).connections_view()[id@].id_view() == id@,
            final(self).connections_view()[id@].outgoing().len() == 0,
            final(self).connections_view()[id@].incoming().len() == 0,
            forall|k: Seq<char>| k != id@ && #[trigger] old(self).connections_view().contains_key(k)
                ==> final(self).connections_view()[k] == old(self).connections_view()[k],
    {
        let id = crate::stamp::new_uuid();
        let c = WebSocketConnection::new(url, id.clone());
        self.connections.insert(id.clone(), c);
        id
    }

    /// Drop the connection under `id`, if any, marked closed; it is given back.
    pub fn disconnect(&mut self, id: &str) -> (r: Result<Option<WebSocketConnection>, ApiError>)
        requires old(self).wf(),
        ensures
            final(self).wf(),
            final(self).connections_view() == old(self).connections_view().remove(id@),
            match r {
                Ok(Some(c)) => old(self).connections_view().contains_key(id@) && !c.open()
                    && c.outgoing() == old(self).connections_view()[id@].outgoing()
                    && c.incoming() == old(self).connections_view()[id@].incoming(),
                Ok(None) => !old(self).connections_view().contains_key(id@),
                Err(_) => false,
            },
    {
        match self.connections.remove(id) {
            Some(mut c) => {
                c.mark_disconnected();
                Ok(Some(c))
            },
            None => Ok(None),
        }
    }

    /// The ids of the connections, in the order connected.
    pub fn list_connections(&self) -> (r: Vec<String>)
        ensures views(r@) == self.ids(),
    {
        let r = self.connections.keys();
        assert(views(r@) =~= self.ids());
        r
    }

    /// The connection under `id`.
    pub fn get(&self, id: &str) -> (r: Option<&WebSocketConnection>)
        requires self.wf(),
        ensures
            match r {
                Some(c) => self.connections_view().contains_key(id@) && *c == self.connections_view()[id@],
                None => !self.connections_view().contains_key(id@),
            },
    {
        self.connections.get(id)
    }
}

} // verus!
