//! Connection-oriented session layer over an unreliable datagram
//! transport: handshake with a protocol-version check, per-client sessions
//! on the server, lifecycle events surfaced once per occurrence, liveness
//! and handshake timeouts, and reliable/unreliable delivery channels. The
//! socket itself is outside this core; callers feed inbound datagrams in
//! and carry outbound datagrams to the wire.

use vstd::prelude::*;
use crate::channel::{clone_bytes, ChannelKind, ReliableReceiver, ReliableSender};

verus! {

/// Version tag exchanged at handshake; a client presenting any other
/// value is rejected.
pub const PROTOCOL_ID: u64 = 0x76_69_6e_6f_78;

/// A connection attempt that has not completed its handshake after this
/// long is dropped.
pub const HANDSHAKE_TIMEOUT_MS: u64 = 5000;

/// An established session with no inbound traffic for this long is
/// treated as lost.
pub const LIVENESS_TIMEOUT_MS: u64 = 10000;

/// One datagram of the session protocol. `client_id` names the session on
/// both directions of the wire.
#[derive(Debug)]
pub enum Datagram {
    /// Client asks to connect, presenting its protocol version.
    ConnectRequest { client_id: u64, protocol_id: u64 },
    /// Server accepts the handshake.
    ConnectAccept { client_id: u64 },
    /// Server rejects the handshake.
    ConnectDeny { client_id: u64 },
    /// Traffic that only refreshes liveness.
    KeepAlive { client_id: u64 },
    /// One message of a delivery channel; `seq` is meaningful on the
    /// reliable channel only.
    Payload { client_id: u64, channel: ChannelKind, seq: u64, data: Vec<u8> },
    /// Everything below `next_seq` on the reliable channel has arrived.
    Ack { client_id: u64, next_seq: u64 },
    /// The peer is closing the session.
    Disconnect { client_id: u64 },
}

/// The mathematical value of a datagram.
pub ghost enum DatagramModel {
    ConnectRequest { client_id: u64, protocol_id: u64 },
    ConnectAccept { client_id: u64 },
    ConnectDeny { client_id: u64 },
    KeepAlive { client_id: u64 },
    Payload { client_id: u64, channel: ChannelKind, seq: u64, data: Seq<u8> },
    Ack { client_id: u64, next_seq: u64 },
    Disconnect { client_id: u64 },
}

impl View for Datagram {
    type V = DatagramModel;

    open spec fn view(&self) -> DatagramModel {
        match *self {
            Datagram::ConnectRequest { client_id, protocol_id } => (
                DatagramModel::ConnectRequest { client_id, protocol_id }
            ),
            Datagram::ConnectAccept { client_id } => (
                DatagramModel::ConnectAccept { client_id }
            ),
            Datagram::ConnectDeny { client_id } => (DatagramModel::ConnectDeny { client_id }),
            Datagram::KeepAlive { client_id } => (DatagramModel::KeepAlive { client_id }),
            Datagram::Payload { client_id, channel, seq, data } => (
                DatagramModel::Payload { client_id, channel, seq, data: data@ }
            ),
            Datagram::Ack { client_id, next_seq } => (
                DatagramModel::Ack { client_id, next_seq }
            ),
            Datagram::Disconnect { client_id } => (DatagramModel::Disconnect { client_id }),
        }
    }
}

/// The value of an optional reply datagram.
pub open spec fn opt_view(r: Option<Datagram>) -> Option<DatagramModel> {
    match r {
        Some(d) => Some(d@),
        None => None,
    }
}

/// State of one server-side client session.
#[derive(Clone, Copy, PartialEq, Eq, Structural, Debug)]
pub enum SessionState {
    /// Handshake answered, waiting for the client's first datagram.
    Connecting,
    /// Fully established.
    Connected,
    /// Closed; kept only as a record.
    Disconnected,
}

/// Why a session ended.
#[derive(Clone, Copy, PartialEq, Eq, Structural, Debug)]
pub enum DisconnectReason {
    /// The peer said goodbye.
    Left,
    /// No traffic within the liveness or handshake window.
    Timeout,
    /// The server refused the handshake.
    Rejected,
    /// The server shut the session down.
    ServerShutdown,
}

/// Connection lifecycle event, surfaced exactly once per occurrence and
/// polled once per update tick.
#[derive(Clone, Copy, PartialEq, Eq, Structural, Debug)]
pub enum ServerEvent {
    ClientConnected { client_id: u64 },
    ClientDisconnected { client_id: u64, reason: DisconnectReason },
}

/// One client's session as the server tracks it.
pub struct ServerSession {
    pub client_id: u64,
    pub state: SessionState,
    /// Server clock value when this client's traffic last arrived.
    pub last_recv_ms: u64,
    /// Reliable channel toward the client.
    pub send: ReliableSender,
    /// Reliable channel from the client.
    pub recv: ReliableReceiver,
    /// Unreliable channel inbox, in arrival order.
    pub unreliable_in: Vec<Vec<u8>>,
}

impl ServerSession {
    pub open spec fn wf(self) -> bool {
        self.send.wf()
    }
}

/// The contents of a queue of byte buffers.
pub open spec fn bufs(v: Seq<Vec<u8>>) -> Seq<Seq<u8>> {
    v.map_values(|d: Vec<u8>| d@)
}

/// `t` and `s` hold the same sessions at every index but `i`.
pub open spec fn sessions_same_except(
    s: Seq<ServerSession>, t: Seq<ServerSession>, i: int,
) -> bool {
    &&& t.len() == s.len()
    &&& forall|j: int| 0 <= j < s.len() && j != i ==> t[j] == s[j]
}

/// `b` is `a` with at most its lifecycle fields (state, liveness clock)
/// changed: identity and channels are untouched.
pub open spec fn same_channels(a: ServerSession, b: ServerSession) -> bool {
    &&& b.client_id == a.client_id
    &&& b.send == a.send
    &&& b.recv == a.recv
    &&& b.unreliable_in == a.unreliable_in
}

/// Number of sessions that still occupy a connection slot.
pub open spec fn count_active(s: Seq<ServerSession>) -> int
    decreases s.len(),
{
    if s.len() == 0 {
        0
    } else {
        count_active(s.drop_last()) + if s.last().state is Disconnected {
            0int
        } else {
            1int
        }
    }
}

/// Server side of the session layer: listens for handshakes, tracks one
/// session per client, and surfaces lifecycle events.
pub struct Server {
    pub protocol_id: u64,
    pub max_clients: usize,
    /// Wall-clock milliseconds accumulated through `update`.
    pub time_ms: u64,
    pub sessions: Vec<ServerSession>,
    /// Pending lifecycle events, oldest first.
    pub events: Vec<ServerEvent>,
}

impl Server {
    /// Client identifiers are unique, channels are well formed, and no
    /// liveness clock is ahead of the server clock.
    pub open spec fn wf(self) -> bool {
        &&& forall|i: int, j: int|
            0 <= i < j < self.sessions@.len()
                ==> (#[trigger] self.sessions@[i]).client_id != (
                #[trigger] self.sessions@[j]).client_id
        &&& forall|i: int| 0 <= i < self.sessions@.len() ==> (#[trigger] self.sessions@[i]).wf()
        &&& forall|i: int|
            0 <= i < self.sessions@.len() ==> (#[trigger] self.sessions@[i]).last_recv_ms
                <= self.time_ms
    }

    /// There is a session for `client_id`.
    pub open spec fn has_session(self, client_id: u64) -> bool {
        exists|i: int|
            0 <= i < self.sessions@.len() && (#[trigger] self.sessions@[i]).client_id == client_id
    }

    /// A server that listens for `protocol_id` and admits at most
    /// `max_clients` concurrent clients; no sessions, no events, clock at
    /// zero.
    pub fn new(protocol_id: u64, max_clients: usize) -> (s: Server)
        ensures
            s.wf(),
            s.protocol_id == protocol_id,
            s.max_clients == max_clients,
            s.time_ms == 0,
            s.sessions@ == Seq::<ServerSession>::empty(),
            s.events@ == Seq::<ServerEvent>::empty(),
    {
        let s = Server {
            protocol_id,
            max_clients,
            time_ms: 0,
            sessions: Vec::new(),
            events: Vec::new(),
        };
        proof {
            assert(s.sessions@ =~= Seq::<ServerSession>::empty());
            assert(s.events@ =~= Seq::<ServerEvent>::empty());
        }
        s
    }

    /// Index of the session for `client_id`, if one exists.
    fn find_session(&self, client_id: u64) -> (r: Option<usize>)
        ensures
            match r {
                Some(i) => i < self.sessions@.len() && self.sessions@[i as int].client_id
                    == client_id,
                None => forall|j: int|
                    0 <= j < self.sessions@.len() ==> (#[trigger] self.sessions@[j]).client_id
                        != client_id,
            },
    {
        let mut i: usize = 0;
        while i < self.sessions.len()
            invariant
                i <= self.sessions@.len(),
                forall|j: int|
                    0 <= j < i ==> (#[trigger] self.sessions@[j]).client_id != client_id,
            decreases self.sessions@.len() - i,
        {
            if self.sessions[i].client_id == client_id {
                return Some(i);
            }
            i = i + 1;
        }
        None
    }

    /// Number of sessions still occupying a connection slot.
    fn active_sessions(&self) -> (n: usize)
        ensures
            n == count_active(self.sessions@),
    {
        let mut n: usize = 0;
        let mut i: usize = 0;
        while i < self.sessions.len()
            invariant
                i <= self.sessions@.len(),
                n <= i,
                n == count_active(self.sessions@.take(i as int)),
            decreases self.sessions@.len() - i,
        {
            proof {
                assert(self.sessions@.take(i as int + 1).drop_last() =~= self.sessions@.take(
                    i as int,
                ));
                assert(self.sessions@.take(i as int + 1).last() == self.sessions@[i as int]);
            }
            let connected = match self.sessions[i].state {
                SessionState::Disconnected => false,
                _ => true,
            };
            if connected {
                n = n + 1;
            }
            i = i + 1;
        }
        proof {
            assert(self.sessions@.take(self.sessions@.len() as int) =~= self.sessions@);
        }
        n
    }

    /// Handles one inbound datagram and returns the immediate reply to
    /// put on the wire, if any. A handshake with the wrong protocol id is
    /// denied and leaves the server untouched; a datagram for an unknown
    /// or closed session is dropped silently; a malformed sequence number
    /// on the reliable channel is dropped and re-acknowledged.
    #[verifier::rlimit(100)]
    pub fn on_datagram(&mut self, d: &Datagram) -> (reply: Option<Datagram>)
        requires
            old(self).wf(),
        ensures
            final(self).wf(),
            final(self).protocol_id == old(self).protocol_id,
            final(self).max_clients == old(self).max_clients,
            final(self).time_ms == old(self).time_ms,
            match *d {
                Datagram::ConnectRequest { client_id, protocol_id } => {
                    if protocol_id != old(self).protocol_id {
                        &&& *final(self) == *old(self)
                        &&& opt_view(reply) == Some(DatagramModel::ConnectDeny { client_id })
                    } else if old(self).has_session(client_id) {
                        &&& *final(self) == *old(self)
                        &&& forall|i: int|
                            0 <= i < old(self).sessions@.len() && (
                            #[trigger] old(self).sessions@[i]).client_id == client_id
                                ==> opt_view(reply) == (
                                if old(self).sessions@[i].state is Disconnected {
                                    Some(DatagramModel::ConnectDeny { client_id })
                                } else {
                                    Some(DatagramModel::ConnectAccept { client_id })
                                })
                    } else if count_active(old(self).sessions@) >= old(self).max_clients {
                        &&& *final(self) == *old(self)
                        &&& opt_view(reply) == Some(DatagramModel::ConnectDeny { client_id })
                    } else {
                        &&& final(self).events@ == old(self).events@
                        &&& final(self).sessions@.len() == old(self).sessions@.len() + 1
                        &&& final(self).sessions@.take(old(self).sessions@.len() as int) == old(self).sessions@
                        &&& final(self).sessions@.last().client_id == client_id
                        &&& final(self).sessions@.last().state is Connecting
                        &&& final(self).sessions@.last().last_recv_ms == old(self).time_ms
                        &&& final(self).sessions@.last().send.spec_pending().len() == 0
                        &&& final(self).sessions@.last().send.spec_next_seq() == 0
                        &&& final(self).sessions@.last().recv.spec_next_expected() == 0
                        &&& final(self).sessions@.last().recv.spec_inbox().len() == 0
                        &&& final(self).sessions@.last().unreliable_in@.len() == 0
                        &&& opt_view(reply) == Some(DatagramModel::ConnectAccept { client_id })
                    }
                },
                Datagram::KeepAlive { client_id } => {
                    &&& reply is None
                    &&& if !old(self).has_session(client_id) {
                        *final(self) == *old(self)
                    } else {
                        forall|i: int|
                            0 <= i < old(self).sessions@.len() && (
                            #[trigger] old(self).sessions@[i]).client_id == client_id
                                ==> match old(self).sessions@[i].state {
                                SessionState::Connecting => {
                                    &&& sessions_same_except(
                                        old(self).sessions@, final(self).sessions@, i,
                                    )
                                    &&& same_channels(
                                        old(self).sessions@[i], final(self).sessions@[i],
                                    )
                                    &&& final(self).sessions@[i].state is Connected
                                    &&& final(self).sessions@[i].last_recv_ms == old(self).time_ms
                                    &&& final(self).events@ == old(self).events@.push(
                                        ServerEvent::ClientConnected { client_id },
                                    )
                                },
                                SessionState::Connected => {
                                    &&& sessions_same_except(
                                        old(self).sessions@, final(self).sessions@, i,
                                    )
                                    &&& same_channels(
                                        old(self).sessions@[i], final(self).sessions@[i],
                                    )
                                    &&& final(self).sessions@[i].state is Connected
                                    &&& final(self).sessions@[i].last_recv_ms == old(self).time_ms
                                    &&& final(self).events@ == old(self).events@
                                },
                                SessionState::Disconnected => *final(self) == *old(self),
                            }
                    }
                },
                Datagram::Payload { client_id, channel, seq, ref data } => {
                    &&& forall|i: int|
                        0 <= i < old(self).sessions@.len() && (
                        #[trigger] old(self).sessions@[i]).client_id == client_id && old(self).sessions@[i].state is Connected ==> {
                            &&& sessions_same_except(
                                old(self).sessions@, final(self).sessions@, i,
                            )
                            &&& final(self).sessions@[i].client_id == client_id
                            &&& final(self).sessions@[i].state is Connected
                            &&& final(self).sessions@[i].last_recv_ms == old(self).time_ms
                            &&& final(self).events@ == old(self).events@
                            &&& match channel {
                                ChannelKind::Reliable => {
                                    &&& final(self).sessions@[i].send == old(self).sessions@[i].send
                                    &&& final(self).sessions@[i].unreliable_in == old(self).sessions@[i].unreliable_in
                                    &&& if seq == old(self).sessions@[i].recv.spec_next_expected()
                                        && seq < u64::MAX {
                                        &&& final(self).sessions@[i].recv.spec_next_expected()
                                            == seq + 1
                                        &&& final(self).sessions@[i].recv.spec_inbox() == old(self).sessions@[i].recv.spec_inbox().push(data@)
                                    } else {
                                        final(self).sessions@[i].recv == old(self).sessions@[i].recv
                                    }
                                    &&& opt_view(reply) == Some(DatagramModel::Ack {
                                        client_id,
                                        next_seq: final(self).sessions@[i].recv.spec_next_expected(),
                                    })
                                },
                                ChannelKind::Unreliable => {
                                    &&& final(self).sessions@[i].send == old(self).sessions@[i].send
                                    &&& final(self).sessions@[i].recv == old(self).sessions@[i].recv
                                    &&& bufs(final(self).sessions@[i].unreliable_in@) == bufs(
                                        old(self).sessions@[i].unreliable_in@,
                                    ).push(data@)
                                    &&& reply is None
                                },
                            }
                        }
                    &&& (forall|i: int|
                        0 <= i < old(self).sessions@.len() ==> ((
                        #[trigger] old(self).sessions@[i]).client_id != client_id || !(old(self).sessions@[i].state is Connected))) ==> *final(self) == *old(self)
                        && reply is None
                },
                Datagram::Ack { client_id, next_seq } => {
                    &&& reply is None
                    &&& forall|i: int|
                        0 <= i < old(self).sessions@.len() && (
                        #[trigger] old(self).sessions@[i]).client_id == client_id && old(self).sessions@[i].state is Connected ==> {
                            &&& sessions_same_except(
                                old(self).sessions@, final(self).sessions@, i,
                            )
                            &&& final(self).sessions@[i].client_id == client_id
                            &&& final(self).sessions@[i].state is Connected
                            &&& final(self).sessions@[i].last_recv_ms == old(self).time_ms
                            &&& final(self).sessions@[i].recv == old(self).sessions@[i].recv
                            &&& final(self).sessions@[i].unreliable_in == old(self).sessions@[i].unreliable_in
                            &&& final(self).sessions@[i].send.spec_next_seq() == old(self).sessions@[i].send.spec_next_seq()
                            &&& final(self).sessions@[i].send.spec_pending() == old(self).sessions@[i].send.spec_pending().skip(
                                old(self).sessions@[i].send.spec_ack_drop(next_seq),
                            )
                            &&& final(self).events@ == old(self).events@
                        }
                    &&& (forall|i: int|
                        0 <= i < old(self).sessions@.len() ==> ((
                        #[trigger] old(self).sessions@[i]).client_id != client_id || !(old(self).sessions@[i].state is Connected))) ==> *final(self) == *old(self)
                },
                Datagram::Disconnect { client_id } => {
                    &&& reply is None
                    &&& forall|i: int|
                        0 <= i < old(self).sessions@.len() && (
                        #[trigger] old(self).sessions@[i]).client_id == client_id && !(old(self).sessions@[i].state is Disconnected) ==> {
                            &&& sessions_same_except(
                                old(self).sessions@, final(self).sessions@, i,
                            )
                            &&& same_channels(old(self).sessions@[i], final(self).sessions@[i])
                            &&& final(self).sessions@[i].state is Disconnected
                            &&& final(self).sessions@[i].last_recv_ms == old(self).sessions@[i].last_recv_ms
                            &&& final(self).events@ == old(self).events@.push(
                                ServerEvent::ClientDisconnected {
                                    client_id,
                                    reason: DisconnectReason::Left,
                                },
                            )
                        }
                    &&& (forall|i: int|
                        0 <= i < old(self).sessions@.len() ==> ((
                        #[trigger] old(self).sessions@[i]).client_id != client_id || old(self).sessions@[i].state is Disconnected)) ==> *final(self) == *old(self)
                },
                Datagram::ConnectAccept { .. } => *final(self) == *old(self) && reply is None,
                Datagram::ConnectDeny { .. } => *final(self) == *old(self) && reply is None,
            },
    {
        match d {
            Datagram::ConnectRequest { client_id, protocol_id } => {
                let client_id = *client_id;
                if *protocol_id != self.protocol_id {
                    return Some(Datagram::ConnectDeny { client_id });
                }
                match self.find_session(client_id) {
                    Some(i) => {
                        let denied = match self.sessions[i].state {
                            SessionState::Disconnected => true,
                            _ => false,
                        };
                        if denied {
                            Some(Datagram::ConnectDeny { client_id })
                        } else {
                            Some(Datagram::ConnectAccept { client_id })
                        }
                    },
                    None => {
                        if self.active_sessions() >= self.max_clients {
                            return Some(Datagram::ConnectDeny { client_id });
                        }
                        let session = ServerSession {
                            client_id,
                            state: SessionState::Connecting,
                            last_recv_ms: self.time_ms,
                            send: ReliableSender::new(),
                            recv: ReliableReceiver::new(),
                            unreliable_in: Vec::new(),
                        };
                        self.sessions.push(session);
                        proof {
                            assert(self.sessions@.take(old(self).sessions@.len() as int)
                                =~= old(self).sessions@);
                        }
                        Some(Datagram::ConnectAccept { client_id })
                    },
                }
            },
            Datagram::KeepAlive { client_id } => {
                let client_id = *client_id;
                match self.find_session(client_id) {
                    Some(i) => {
                        let now = self.time_ms;
                        let promote = match self.sessions[i].state {
                            SessionState::Connecting => true,
                            _ => false,
                        };
                        let live = match self.sessions[i].state {
                            SessionState::Disconnected => false,
                            _ => true,
                        };
                        if live {
                            self.sessions[i].state = SessionState::Connected;
                            self.sessions[i].last_recv_ms = now;
                            if promote {
                                self.events.push(ServerEvent::ClientConnected { client_id });
                            }
                        }
                        None
                    },
                    None => None,
                }
            },
            Datagram::Payload { client_id, channel, seq, data } => {
                let client_id = *client_id;
                match self.find_session(client_id) {
                    Some(i) => {
                        let connected = match self.sessions[i].state {
                            SessionState::Connected => true,
                            _ => false,
                        };
                        if !connected {
                            return None;
                        }
                        let now = self.time_ms;
                        self.sessions[i].last_recv_ms = now;
                        match channel {
                            ChannelKind::Reliable => {
                                let payload = clone_bytes(data);
                                self.sessions[i].recv.on_payload(*seq, payload);
                                let next = self.sessions[i].recv.ack_value();
                                Some(Datagram::Ack { client_id, next_seq: next })
                            },
                            ChannelKind::Unreliable => {
                                let ghost before = self.sessions@[i as int].unreliable_in@;
                                let payload = clone_bytes(data);
                                self.sessions[i].unreliable_in.push(payload);
                                proof {
                                    assert(bufs(self.sessions@[i as int].unreliable_in@)
                                        =~= bufs(before).push(data@));
                                }
                                None
                            },
                        }
                    },
                    None => None,
                }
            },
            Datagram::Ack { client_id, next_seq } => {
                let client_id = *client_id;
                match self.find_session(client_id) {
                    Some(i) => {
                        let connected = match self.sessions[i].state {
                            SessionState::Connected => true,
                            _ => false,
                        };
                        if connected {
                            let now = self.time_ms;
                            self.sessions[i].last_recv_ms = now;
                            self.sessions[i].send.on_ack(*next_seq);
                        }
                        None
                    },
                    None => None,
                }
            },
            Datagram::Disconnect { client_id } => {
                let client_id = *client_id;
                match self.find_session(client_id) {
                    Some(i) => {
                        let open = match self.sessions[i].state {
                            SessionState::Disconnected => false,
                            _ => true,
                        };
                        if open {
                            self.sessions[i].state = SessionState::Disconnected;
                            self.events.push(ServerEvent::ClientDisconnected {
                                client_id,
                                reason: DisconnectReason::Left,
                            });
                        }
                        None
                    },
                    None => None,
                }
            },
            Datagram::ConnectAccept { .. } => None,
            Datagram::ConnectDeny { .. } => None,
        }
    }
}

/// Whether a session misses its deadline at clock value `now`: the
/// handshake window while connecting, the liveness window while
/// connected.
pub open spec fn times_out(sess: ServerSession, now: u64) -> bool {
    match sess.state {
        SessionState::Connecting => now >= sess.last_recv_ms + HANDSHAKE_TIMEOUT_MS,
        SessionState::Connected => now >= sess.last_recv_ms + LIVENESS_TIMEOUT_MS,
        SessionState::Disconnected => false,
    }
}

/// The session after the clock reaches `now`: unchanged unless its
/// deadline passed, in which case it is closed.
pub open spec fn timeout_step(sess: ServerSession, now: u64) -> ServerSession {
    if times_out(sess, now) {
        ServerSession { state: SessionState::Disconnected, ..sess }
    } else {
        sess
    }
}

/// The timeout events one update tick appends, in session order.
pub open spec fn timeout_events(s: Seq<ServerSession>, now: u64) -> Seq<ServerEvent>
    decreases s.len(),
{
    if s.len() == 0 {
        Seq::empty()
    } else {
        timeout_events(s.drop_last(), now) + (if times_out(s.last(), now) {
            seq![
                ServerEvent::ClientDisconnected {
                    client_id: s.last().client_id,
                    reason: DisconnectReason::Timeout,
                },
            ]
        } else {
            Seq::empty()
        })
    }
}

/// The retransmission datagram for one pending reliable message.
pub open spec fn payload_model(client_id: u64, p: (u64, Seq<u8>)) -> DatagramModel {
    DatagramModel::Payload { client_id, channel: ChannelKind::Reliable, seq: p.0, data: p.1 }
}

/// What one session puts on the wire each tick: nothing unless it is
/// connected; then a keep-alive and a retransmission of every pending
/// reliable message, oldest first.
pub open spec fn session_outgoing(sess: ServerSession) -> Seq<DatagramModel> {
    if sess.state is Connected {
        seq![DatagramModel::KeepAlive { client_id: sess.client_id }]
            + sess.send.spec_pending().map_values(
            |p: (u64, Seq<u8>)| payload_model(sess.client_id, p),
        )
    } else {
        Seq::empty()
    }
}

/// What the whole server puts on the wire each tick, in session order.
pub open spec fn server_outgoing(s: Seq<ServerSession>) -> Seq<DatagramModel>
    decreases s.len(),
{
    if s.len() == 0 {
        Seq::empty()
    } else {
        server_outgoing(s.drop_last()) + session_outgoing(s.last())
    }
}

/// The session after the server shuts down: closed unless it already
/// was.
pub open spec fn shutdown_step(sess: ServerSession) -> ServerSession {
    if sess.state is Disconnected {
        sess
    } else {
        ServerSession { state: SessionState::Disconnected, ..sess }
    }
}

/// The events a shutdown appends: one per session that was still open,
/// in session order.
pub open spec fn shutdown_events(s: Seq<ServerSession>) -> Seq<ServerEvent>
    decreases s.len(),
{
    if s.len() == 0 {
        Seq::empty()
    } else {
        shutdown_events(s.drop_last()) + (if s.last().state is Disconnected {
            Seq::empty()
        } else {
            seq![
                ServerEvent::ClientDisconnected {
                    client_id: s.last().client_id,
                    reason: DisconnectReason::ServerShutdown,
                },
            ]
        })
    }
}

impl Server {
    /// Advances the wall clock and closes every session whose handshake
    /// or liveness deadline has passed, appending one timeout event per
    /// closed session. Must be called every frame: the deadlines are
    /// wall-clock driven.
    pub fn update(&mut self, elapsed_ms: u64)
        requires
            old(self).wf(),
        ensures
            final(self).wf(),
            final(self).protocol_id == old(self).protocol_id,
            final(self).max_clients == old(self).max_clients,
            final(self).time_ms == (if old(self).time_ms + elapsed_ms <= u64::MAX {
                old(self).time_ms + elapsed_ms
            } else {
                u64::MAX as int
            }),
            final(self).sessions@.len() == old(self).sessions@.len(),
            forall|i: int|
                0 <= i < old(self).sessions@.len() ==> final(self).sessions@[i] == timeout_step(
                    #[trigger] old(self).sessions@[i],
                    final(self).time_ms,
                ),
            final(self).events@ == old(self).events@ + timeout_events(
                old(self).sessions@,
                final(self).time_ms,
            ),
    {
        let now: u64 = if elapsed_ms <= u64::MAX - self.time_ms {
            self.time_ms + elapsed_ms
        } else {
            u64::MAX
        };
        self.time_ms = now;
        let ghost orig = *old(self);
        let mut i: usize = 0;
        while i < self.sessions.len()
            invariant
                self.wf(),
                self.time_ms == now,
                now >= orig.time_ms,
                self.protocol_id == orig.protocol_id,
                self.max_clients == orig.max_clients,
                i <= self.sessions@.len(),
                self.sessions@.len() == orig.sessions@.len(),
                forall|j: int|
                    0 <= j < i ==> self.sessions@[j] == timeout_step(
                        #[trigger] orig.sessions@[j],
                        now,
                    ),
                forall|j: int|
                    i <= j < orig.sessions@.len() ==> self.sessions@[j] == (
                    #[trigger] orig.sessions@[j]),
                self.events@ == orig.events@ + timeout_events(
                    orig.sessions@.take(i as int),
                    now,
                ),
                forall|j: int|
                    0 <= j < orig.sessions@.len() ==> (
                    #[trigger] orig.sessions@[j]).last_recv_ms <= orig.time_ms,
            decreases self.sessions@.len() - i,
        {
            proof {
                assert(orig.sessions@.take(i as int + 1).drop_last() =~= orig.sessions@.take(
                    i as int,
                ));
                assert(orig.sessions@.take(i as int + 1).last() == orig.sessions@[i as int]);
            }
            let window: u64 = match self.sessions[i].state {
                SessionState::Connecting => HANDSHAKE_TIMEOUT_MS,
                SessionState::Connected => LIVENESS_TIMEOUT_MS,
                SessionState::Disconnected => 0,
            };
            let open = match self.sessions[i].state {
                SessionState::Disconnected => false,
                _ => true,
            };
            if open && now - self.sessions[i].last_recv_ms >= window {
                let client_id = self.sessions[i].client_id;
                self.sessions[i].state = SessionState::Disconnected;
                self.events.push(ServerEvent::ClientDisconnected {
                    client_id,
                    reason: DisconnectReason::Timeout,
                });
            }
            i = i + 1;
        }
        proof {
            assert(orig.sessions@.take(orig.sessions@.len() as int) =~= orig.sessions@);
        }
    }

    /// The datagrams to put on the wire this tick: a keep-alive and the
    /// pending reliable messages of every connected session.
    pub fn outgoing(&self) -> (out: Vec<Datagram>)
        requires
            self.wf(),
        ensures
            out@.map_values(|d: Datagram| d@) == server_outgoing(self.sessions@),
    {
        let mut out: Vec<Datagram> = Vec::new();
        proof {
            assert(out@.map_values(|d: Datagram| d@) =~= server_outgoing(
                self.sessions@.take(0),
            ));
        }
        let mut i: usize = 0;
        while i < self.sessions.len()
            invariant
                self.wf(),
                i <= self.sessions@.len(),
                out@.map_values(|d: Datagram| d@) == server_outgoing(
                    self.sessions@.take(i as int),
                ),
            decreases self.sessions@.len() - i,
        {
            proof {
                assert(self.sessions@.take(i as int + 1).drop_last() =~= self.sessions@.take(
                    i as int,
                ));
                assert(self.sessions@.take(i as int + 1).last() == self.sessions@[i as int]);
            }
            let connected = match self.sessions[i].state {
                SessionState::Connected => true,
                _ => false,
            };
            if connected {
                let client_id = self.sessions[i].client_id;
                let ghost mid = self.sessions@.take(i as int);
                out.push(Datagram::KeepAlive { client_id });
                proof {
                    assert(out@.map_values(|d: Datagram| d@) =~= server_outgoing(mid) + seq![
                        DatagramModel::KeepAlive { client_id },
                    ]);
                }
                let pending = self.sessions[i].send.pending_messages();
                let ghost pending_model = self.sessions@[i as int].send.spec_pending();
                let mut j: usize = 0;
                while j < pending.len()
                    invariant
                        j <= pending@.len(),
                        pending@.len() == pending_model.len(),
                        forall|k: int|
                            0 <= k < pending@.len() ==> (#[trigger] pending@[k]).0
                                == pending_model[k].0 && pending@[k].1@ == pending_model[k].1,
                        out@.map_values(|d: Datagram| d@) == server_outgoing(mid) + seq![
                            DatagramModel::KeepAlive { client_id },
                        ] + pending_model.take(j as int).map_values(
                            |p: (u64, Seq<u8>)| payload_model(client_id, p),
                        ),
                    decreases pending@.len() - j,
                {
                    let seq_no = pending[j].0;
                    let data = clone_bytes(&pending[j].1);
                    let ghost prev_out = out@;
                    let dgram = Datagram::Payload {
                        client_id,
                        channel: ChannelKind::Reliable,
                        seq: seq_no,
                        data,
                    };
                    proof {
                        assert(dgram@ == payload_model(client_id, pending_model[j as int]));
                    }
                    out.push(dgram);
                    proof {
                        assert(out@.map_values(|d: Datagram| d@) =~= prev_out.map_values(
                            |d: Datagram| d@,
                        ).push(payload_model(client_id, pending_model[j as int])));
                        assert(pending_model.take(j as int + 1).map_values(
                            |p: (u64, Seq<u8>)| payload_model(client_id, p),
                        ) =~= pending_model.take(j as int).map_values(
                            |p: (u64, Seq<u8>)| payload_model(client_id, p),
                        ).push(payload_model(client_id, pending_model[j as int])));
                        assert(out@.map_values(|d: Datagram| d@) =~= server_outgoing(mid)
                            + seq![DatagramModel::KeepAlive { client_id }]
                            + pending_model.take(j as int + 1).map_values(
                            |p: (u64, Seq<u8>)| payload_model(client_id, p),
                        ));
                    }
                    j = j + 1;
                }
                proof {
                    assert(pending_model.take(pending_model.len() as int) =~= pending_model);
                    assert(pending_model.map_values(
                        |p: (u64, Seq<u8>)| payload_model(client_id, p),
                    ) =~= self.sessions@[i as int].send.spec_pending().map_values(
                        |p: (u64, Seq<u8>)| payload_model(self.sessions@[i as int].client_id, p),
                    ));
                    assert(session_outgoing(self.sessions@[i as int]) == seq![
                        DatagramModel::KeepAlive { client_id },
                    ] + pending_model.map_values(
                        |p: (u64, Seq<u8>)| payload_model(client_id, p),
                    ));
                    assert(out@.map_values(|d: Datagram| d@) =~= server_outgoing(
                        self.sessions@.take(i as int + 1),
                    ));
                }
            }
            i = i + 1;
        }
        proof {
            assert(self.sessions@.take(self.sessions@.len() as int) =~= self.sessions@);
        }
        out
    }

    /// Polls the oldest pending lifecycle event, if any; each event is
    /// surfaced exactly once.
    pub fn get_event(&mut self) -> (r: Option<ServerEvent>)
        ensures
            final(self).protocol_id == old(self).protocol_id,
            final(self).max_clients == old(self).max_clients,
            final(self).time_ms == old(self).time_ms,
            final(self).sessions@ == old(self).sessions@,
            match r {
                Some(e) => old(self).events@.len() > 0 && e == old(self).events@[0] && final(self).events@ == old(self).events@.skip(1),
                None => old(self).events@.len() == 0 && *final(self) == *old(self),
            },
    {
        if self.events.len() > 0 {
            let e = self.events.remove(0);
            Some(e)
        } else {
            None
        }
    }

    /// There is a connected session for `client_id` with room for one
    /// more reliable message.
    pub open spec fn can_send(self, client_id: u64) -> bool {
        exists|i: int|
            0 <= i < self.sessions@.len() && (#[trigger] self.sessions@[i]).client_id == client_id
                && self.sessions@[i].state is Connected
                && self.sessions@[i].send.spec_next_seq() < u64::MAX
    }

    /// Queues `data` on the reliable channel toward `client_id` and
    /// returns the datagram to put on the wire now; the message is
    /// retransmitted every tick until acknowledged. Fails exactly when no
    /// connected session for `client_id` can take another message.
    pub fn send_reliable(&mut self, client_id: u64, data: Vec<u8>) -> (d: Option<Datagram>)
        requires
            old(self).wf(),
        ensures
            final(self).wf(),
            final(self).protocol_id == old(self).protocol_id,
            final(self).max_clients == old(self).max_clients,
            final(self).time_ms == old(self).time_ms,
            final(self).events@ == old(self).events@,
            d is Some <==> old(self).can_send(client_id),
            d is None ==> *final(self) == *old(self),
            forall|i: int|
                0 <= i < old(self).sessions@.len() && (
                #[trigger] old(self).sessions@[i]).client_id == client_id && old(self).sessions@[i].state is Connected && old(self).sessions@[i].send.spec_next_seq()
                    < u64::MAX ==> {
                    &&& sessions_same_except(old(self).sessions@, final(self).sessions@, i)
                    &&& final(self).sessions@[i].client_id == client_id
                    &&& final(self).sessions@[i].state is Connected
                    &&& final(self).sessions@[i].last_recv_ms == old(self).sessions@[i].last_recv_ms
                    &&& final(self).sessions@[i].recv == old(self).sessions@[i].recv
                    &&& final(self).sessions@[i].unreliable_in == old(self).sessions@[i].unreliable_in
                    &&& final(self).sessions@[i].send.spec_next_seq() == old(self).sessions@[i].send.spec_next_seq() + 1
                    &&& final(self).sessions@[i].send.spec_pending() == old(self).sessions@[i].send.spec_pending().push(
                        (old(self).sessions@[i].send.spec_next_seq(), data@),
                    )
                    &&& opt_view(d) == Some(DatagramModel::Payload {
                        client_id,
                        channel: ChannelKind::Reliable,
                        seq: old(self).sessions@[i].send.spec_next_seq(),
                        data: data@,
                    })
                },
    {
        match self.find_session(client_id) {
            Some(i) => {
                let usable = match self.sessions[i].state {
                    SessionState::Connected => self.sessions[i].send.can_take_one(),
                    _ => false,
                };
                if !usable {
                    return None;
                }
                let copy = clone_bytes(&data);
                let seq = self.sessions[i].send.send(data);
                Some(Datagram::Payload {
                    client_id,
                    channel: ChannelKind::Reliable,
                    seq,
                    data: copy,
                })
            },
            None => None,
        }
    }

    /// Builds one best-effort datagram toward `client_id`: nothing is
    /// queued and nothing will be retransmitted. Fails exactly when no
    /// connected session for `client_id` exists.
    pub fn send_unreliable(&self, client_id: u64, data: &Vec<u8>) -> (d: Option<Datagram>)
        requires
            self.wf(),
        ensures
            match d {
                Some(dg) => dg@ == (DatagramModel::Payload {
                    client_id,
                    channel: ChannelKind::Unreliable,
                    seq: 0u64,
                    data: data@,
                }) && exists|i: int|
                    0 <= i < self.sessions@.len() && (
                    #[trigger] self.sessions@[i]).client_id == client_id
                        && self.sessions@[i].state is Connected,
                None => forall|i: int|
                    0 <= i < self.sessions@.len() ==> ((
                    #[trigger] self.sessions@[i]).client_id != client_id || !(
                    self.sessions@[i].state is Connected)),
            },
    {
        match self.find_session(client_id) {
            Some(i) => {
                let connected = match self.sessions[i].state {
                    SessionState::Connected => true,
                    _ => false,
                };
                if connected {
                    proof {
                        let ghost w = i as int;
                        assert(0 <= w < self.sessions@.len()
                            && (#[trigger] self.sessions@[w]).client_id == client_id
                            && self.sessions@[w].state is Connected);
                    }
                    let dgram = Datagram::Payload {
                        client_id,
                        channel: ChannelKind::Unreliable,
                        seq: 0,
                        data: clone_bytes(data),
                    };
                    proof {
                        assert(dgram@ == (DatagramModel::Payload {
                            client_id,
                            channel: ChannelKind::Unreliable,
                            seq: 0u64,
                            data: data@,
                        }));
                    }
                    Some(dgram)
                } else {
                    None
                }
            },
            None => None,
        }
    }

    /// Drains the oldest reliable message delivered by `client_id`, if
    /// one is waiting.
    pub fn receive_reliable(&mut self, client_id: u64) -> (r: Option<Vec<u8>>)
        requires
            old(self).wf(),
        ensures
            final(self).wf(),
            final(self).protocol_id == old(self).protocol_id,
            final(self).max_clients == old(self).max_clients,
            final(self).time_ms == old(self).time_ms,
            final(self).events@ == old(self).events@,
            forall|i: int|
                0 <= i < old(self).sessions@.len() && (
                #[trigger] old(self).sessions@[i]).client_id == client_id ==> {
                    &&& sessions_same_except(old(self).sessions@, final(self).sessions@, i)
                    &&& final(self).sessions@[i].client_id == client_id
                    &&& final(self).sessions@[i].state == old(self).sessions@[i].state
                    &&& final(self).sessions@[i].last_recv_ms == old(self).sessions@[i].last_recv_ms
                    &&& final(self).sessions@[i].send == old(self).sessions@[i].send
                    &&& final(self).sessions@[i].unreliable_in == old(self).sessions@[i].unreliable_in
                    &&& final(self).sessions@[i].recv.spec_next_expected() == old(self).sessions@[i].recv.spec_next_expected()
                    &&& match r {
                        Some(data) => old(self).sessions@[i].recv.spec_inbox().len() > 0
                            && data@ == old(self).sessions@[i].recv.spec_inbox()[0] && final(self).sessions@[i].recv.spec_inbox() == old(self).sessions@[i].recv.spec_inbox().skip(1),
                        None => old(self).sessions@[i].recv.spec_inbox().len() == 0 && final(self).sessions@[i].recv == old(self).sessions@[i].recv,
                    }
                },
            (forall|j: int|
                0 <= j < old(self).sessions@.len() ==> (
                #[trigger] old(self).sessions@[j]).client_id != client_id) ==> *final(self)
                == *old(self) && r is None,
    {
        match self.find_session(client_id) {
            Some(i) => self.sessions[i].recv.receive(),
            None => None,
        }
    }

    /// Drains the oldest best-effort message from `client_id`, if one is
    /// waiting.
    pub fn receive_unreliable(&mut self, client_id: u64) -> (r: Option<Vec<u8>>)
        requires
            old(self).wf(),
        ensures
            final(self).wf(),
            final(self).protocol_id == old(self).protocol_id,
            final(self).max_clients == old(self).max_clients,
            final(self).time_ms == old(self).time_ms,
            final(self).events@ == old(self).events@,
            forall|i: int|
                0 <= i < old(self).sessions@.len() && (
                #[trigger] old(self).sessions@[i]).client_id == client_id ==> {
                    &&& sessions_same_except(old(self).sessions@, final(self).sessions@, i)
                    &&& final(self).sessions@[i].client_id == client_id
                    &&& final(self).sessions@[i].state == old(self).sessions@[i].state
                    &&& final(self).sessions@[i].last_recv_ms == old(self).sessions@[i].last_recv_ms
                    &&& final(self).sessions@[i].send == old(self).sessions@[i].send
                    &&& final(self).sessions@[i].recv == old(self).sessions@[i].recv
                    &&& match r {
                        Some(data) => bufs(old(self).sessions@[i].unreliable_in@).len() > 0
                            && data@ == bufs(old(self).sessions@[i].unreliable_in@)[0] && bufs(
                            final(self).sessions@[i].unreliable_in@,
                        ) == bufs(old(self).sessions@[i].unreliable_in@).skip(1),
                        None => old(self).sessions@[i].unreliable_in@.len() == 0 && final(self).sessions@[i].unreliable_in == old(self).sessions@[i].unreliable_in,
                    }
                },
            (forall|j: int|
                0 <= j < old(self).sessions@.len() ==> (
                #[trigger] old(self).sessions@[j]).client_id != client_id) ==> *final(self)
                == *old(self) && r is None,
    {
        match self.find_session(client_id) {
            Some(i) => {
                if self.sessions[i].unreliable_in.len() > 0 {
                    let ghost before = self.sessions@[i as int].unreliable_in@;
                    let data = self.sessions[i].unreliable_in.remove(0);
                    proof {
                        assert(bufs(self.sessions@[i as int].unreliable_in@) =~= bufs(
                            before,
                        ).skip(1));
                    }
                    Some(data)
                } else {
                    None
                }
            },
            None => None,
        }
    }

    /// Closes every open session, appending one shutdown event per
    /// session that was still open; used when the server exits.
    pub fn disconnect_all(&mut self)
        requires
            old(self).wf(),
        ensures
            final(self).wf(),
            final(self).protocol_id == old(self).protocol_id,
            final(self).max_clients == old(self).max_clients,
            final(self).time_ms == old(self).time_ms,
            final(self).sessions@.len() == old(self).sessions@.len(),
            forall|i: int|
                0 <= i < old(self).sessions@.len() ==> final(self).sessions@[i] == shutdown_step(
                    #[trigger] old(self).sessions@[i],
                ),
            final(self).events@ == old(self).events@ + shutdown_events(old(self).sessions@),
    {
        let ghost orig = *old(self);
        let mut i: usize = 0;
        while i < self.sessions.len()
            invariant
                self.wf(),
                self.time_ms == orig.time_ms,
                self.protocol_id == orig.protocol_id,
                self.max_clients == orig.max_clients,
                i <= self.sessions@.len(),
                self.sessions@.len() == orig.sessions@.len(),
                forall|j: int|
                    0 <= j < i ==> self.sessions@[j] == shutdown_step(
                        #[trigger] orig.sessions@[j],
                    ),
                forall|j: int|
                    i <= j < orig.sessions@.len() ==> self.sessions@[j] == (
                    #[trigger] orig.sessions@[j]),
                self.events@ == orig.events@ + shutdown_events(orig.sessions@.take(i as int)),
            decreases self.sessions@.len() - i,
        {
            proof {
                assert(orig.sessions@.take(i as int + 1).drop_last() =~= orig.sessions@.take(
                    i as int,
                ));
                assert(orig.sessions@.take(i as int + 1).last() == orig.sessions@[i as int]);
            }
            let open = match self.sessions[i].state {
                SessionState::Disconnected => false,
                _ => true,
            };
            if open {
                let client_id = self.sessions[i].client_id;
                self.sessions[i].state = SessionState::Disconnected;
                self.events.push(ServerEvent::ClientDisconnected {
                    client_id,
                    reason: DisconnectReason::ServerShutdown,
                });
            }
            i = i + 1;
        }
        proof {
            assert(orig.sessions@.take(orig.sessions@.len() as int) =~= orig.sessions@);
        }
    }
}


/// Client-side connection states: a session begins disconnected, turns
/// authenticating when a connection is attempted, and is connected only
/// after the server accepts the handshake.
#[derive(Clone, Copy, PartialEq, Eq, Structural, Debug)]
pub enum ClientState {
    Disconnected,
    Authenticating,
    Connected,
}

/// Client side of the session layer: one logical connection to a server,
/// driven by inbound datagrams and a wall clock.
pub struct Client {
    /// Locally chosen session identifier; an identifier, not a credential.
    pub client_id: u64,
    /// Version tag presented at handshake.
    pub protocol_id: u64,
    pub state: ClientState,
    /// Wall-clock milliseconds accumulated through `update`.
    pub time_ms: u64,
    /// Clock value when the server's traffic last arrived.
    pub last_recv_ms: u64,
    /// Clock value when the connection attempt began.
    pub started_ms: u64,
    /// Reliable channel toward the server.
    pub send: ReliableSender,
    /// Reliable channel from the server.
    pub recv: ReliableReceiver,
    /// Unreliable channel inbox, in arrival order.
    pub unreliable_in: Vec<Vec<u8>>,
    /// Why the session left `Connected` or `Authenticating`, if it failed.
    pub disconnect_reason: Option<DisconnectReason>,
}

/// What the client puts on the wire each tick: its handshake while
/// authenticating; a keep-alive and every pending reliable message while
/// connected; nothing once disconnected.
pub open spec fn client_outgoing(c: Client) -> Seq<DatagramModel> {
    match c.state {
        ClientState::Authenticating => seq![
            DatagramModel::ConnectRequest { client_id: c.client_id, protocol_id: c.protocol_id },
        ],
        ClientState::Connected => seq![DatagramModel::KeepAlive { client_id: c.client_id }]
            + c.send.spec_pending().map_values(
            |p: (u64, Seq<u8>)| payload_model(c.client_id, p),
        ),
        ClientState::Disconnected => Seq::empty(),
    }
}

impl Client {
    pub open spec fn wf(self) -> bool {
        &&& self.send.wf()
        &&& self.last_recv_ms <= self.time_ms
        &&& self.started_ms <= self.time_ms
    }

    /// Begins a connection attempt: the session enters `Authenticating`
    /// and stays there until the server answers or the handshake times
    /// out. `client_id` is chosen by the caller, typically from the wall
    /// clock at the attempt; it is an identifier, not a credential.
    pub fn connect(client_id: u64, protocol_id: u64) -> (c: Client)
        ensures
            c.wf(),
            c.client_id == client_id,
            c.protocol_id == protocol_id,
            c.state is Authenticating,
            c.time_ms == 0,
            c.last_recv_ms == 0,
            c.started_ms == 0,
            c.send.spec_next_seq() == 0,
            c.send.spec_pending().len() == 0,
            c.recv.spec_next_expected() == 0,
            c.recv.spec_inbox().len() == 0,
            c.unreliable_in@.len() == 0,
            c.disconnect_reason is None,
    {
        Client {
            client_id,
            protocol_id,
            state: ClientState::Authenticating,
            time_ms: 0,
            last_recv_ms: 0,
            started_ms: 0,
            send: ReliableSender::new(),
            recv: ReliableReceiver::new(),
            unreliable_in: Vec::new(),
            disconnect_reason: None,
        }
    }

    /// Handles one inbound datagram and returns the immediate reply to
    /// put on the wire, if any. A datagram for another session, or one
    /// that makes no sense in the current state, is dropped silently and
    /// never tears the session down.
    pub fn on_datagram(&mut self, d: &Datagram) -> (reply: Option<Datagram>)
        requires
            old(self).wf(),
        ensures
            final(self).wf(),
            final(self).client_id == old(self).client_id,
            final(self).protocol_id == old(self).protocol_id,
            final(self).time_ms == old(self).time_ms,
            final(self).started_ms == old(self).started_ms,
            match *d {
                Datagram::ConnectAccept { client_id } => {
                    if client_id == old(self).client_id && old(self).state is Authenticating {
                        &&& final(self).state is Connected
                        &&& final(self).last_recv_ms == old(self).time_ms
                        &&& final(self).send == old(self).send
                        &&& final(self).recv == old(self).recv
                        &&& final(self).unreliable_in == old(self).unreliable_in
                        &&& final(self).disconnect_reason is None
                        &&& opt_view(reply) == Some(DatagramModel::KeepAlive {
                            client_id: old(self).client_id,
                        })
                    } else {
                        *final(self) == *old(self) && reply is None
                    }
                },
                Datagram::ConnectDeny { client_id } => {
                    if client_id == old(self).client_id && old(self).state is Authenticating {
                        &&& final(self).state is Disconnected
                        &&& final(self).last_recv_ms == old(self).last_recv_ms
                        &&& final(self).send == old(self).send
                        &&& final(self).recv == old(self).recv
                        &&& final(self).unreliable_in == old(self).unreliable_in
                        &&& final(self).disconnect_reason == Some(DisconnectReason::Rejected)
                        &&& reply is None
                    } else {
                        *final(self) == *old(self) && reply is None
                    }
                },
                Datagram::KeepAlive { client_id } => {
                    if client_id == old(self).client_id && old(self).state is Connected {
                        &&& final(self).state is Connected
                        &&& final(self).last_recv_ms == old(self).time_ms
                        &&& final(self).send == old(self).send
                        &&& final(self).recv == old(self).recv
                        &&& final(self).unreliable_in == old(self).unreliable_in
                        &&& final(self).disconnect_reason == old(self).disconnect_reason
                        &&& reply is None
                    } else {
                        *final(self) == *old(self) && reply is None
                    }
                },
                Datagram::Payload { client_id, channel, seq, data } => {
                    if client_id == old(self).client_id && old(self).state is Connected {
                        &&& final(self).state is Connected
                        &&& final(self).last_recv_ms == old(self).time_ms
                        &&& final(self).disconnect_reason == old(self).disconnect_reason
                        &&& match channel {
                            ChannelKind::Reliable => {
                                &&& final(self).send == old(self).send
                                &&& final(self).unreliable_in == old(self).unreliable_in
                                &&& if seq == old(self).recv.spec_next_expected() && seq
                                    < u64::MAX {
                                    &&& final(self).recv.spec_next_expected() == seq + 1
                                    &&& final(self).recv.spec_inbox() == old(
                                        self,
                                    ).recv.spec_inbox().push(data@)
                                } else {
                                    final(self).recv == old(self).recv
                                }
                                &&& opt_view(reply) == Some(DatagramModel::Ack {
                                    client_id: old(self).client_id,
                                    next_seq: final(self).recv.spec_next_expected(),
                                })
                            },
                            ChannelKind::Unreliable => {
                                &&& final(self).send == old(self).send
                                &&& final(self).recv == old(self).recv
                                &&& bufs(final(self).unreliable_in@) == bufs(
                                    old(self).unreliable_in@,
                                ).push(data@)
                                &&& reply is None
                            },
                        }
                    } else {
                        *final(self) == *old(self) && reply is None
                    }
                },
                Datagram::Ack { client_id, next_seq } => {
                    if client_id == old(self).client_id && old(self).state is Connected {
                        &&& final(self).state is Connected
                        &&& final(self).last_recv_ms == old(self).time_ms
                        &&& final(self).recv == old(self).recv
                        &&& final(self).unreliable_in == old(self).unreliable_in
                        &&& final(self).disconnect_reason == old(self).disconnect_reason
                        &&& final(self).send.spec_next_seq() == old(self).send.spec_next_seq()
                        &&& final(self).send.spec_pending() == old(
                            self,
                        ).send.spec_pending().skip(old(self).send.spec_ack_drop(next_seq))
                        &&& reply is None
                    } else {
                        *final(self) == *old(self) && reply is None
                    }
                },
                Datagram::Disconnect { client_id } => {
                    if client_id == old(self).client_id && !(old(self).state is Disconnected) {
                        &&& final(self).state is Disconnected
                        &&& final(self).last_recv_ms == old(self).last_recv_ms
                        &&& final(self).send == old(self).send
                        &&& final(self).recv == old(self).recv
                        &&& final(self).unreliable_in == old(self).unreliable_in
                        &&& final(self).disconnect_reason == Some(DisconnectReason::Left)
                        &&& reply is None
                    } else {
                        *final(self) == *old(self) && reply is None
                    }
                },
                Datagram::ConnectRequest { .. } => *final(self) == *old(self) && reply is None,
            },
    {
        match d {
            Datagram::ConnectAccept { client_id } => {
                let authenticating = match self.state {
                    ClientState::Authenticating => true,
                    _ => false,
                };
                if *client_id == self.client_id && authenticating {
                    self.state = ClientState::Connected;
                    self.last_recv_ms = self.time_ms;
                    self.disconnect_reason = None;
                    Some(Datagram::KeepAlive { client_id: self.client_id })
                } else {
                    None
                }
            },
            Datagram::ConnectDeny { client_id } => {
                let authenticating = match self.state {
                    ClientState::Authenticating => true,
                    _ => false,
                };
                if *client_id == self.client_id && authenticating {
                    self.state = ClientState::Disconnected;
                    self.disconnect_reason = Some(DisconnectReason::Rejected);
                }
                None
            },
            Datagram::KeepAlive { client_id } => {
                let connected = match self.state {
                    ClientState::Connected => true,
                    _ => false,
                };
                if *client_id == self.client_id && connected {
                    self.last_recv_ms = self.time_ms;
                }
                None
            },
            Datagram::Payload { client_id, channel, seq, data } => {
                let connected = match self.state {
                    ClientState::Connected => true,
                    _ => false,
                };
                if *client_id == self.client_id && connected {
                    self.last_recv_ms = self.time_ms;
                    match channel {
                        ChannelKind::Reliable => {
                            let payload = clone_bytes(data);
                            self.recv.on_payload(*seq, payload);
                            let next = self.recv.ack_value();
                            Some(Datagram::Ack { client_id: self.client_id, next_seq: next })
                        },
                        ChannelKind::Unreliable => {
                            let ghost before = self.unreliable_in@;
                            let payload = clone_bytes(data);
                            self.unreliable_in.push(payload);
                            proof {
                                assert(bufs(self.unreliable_in@) =~= bufs(before).push(data@));
                            }
                            None
                        },
                    }
                } else {
                    None
                }
            },
            Datagram::Ack { client_id, next_seq } => {
                let connected = match self.state {
                    ClientState::Connected => true,
                    _ => false,
                };
                if *client_id == self.client_id && connected {
                    self.last_recv_ms = self.time_ms;
                    self.send.on_ack(*next_seq);
                }
                None
            },
            Datagram::Disconnect { client_id } => {
                let open = match self.state {
                    ClientState::Disconnected => false,
                    _ => true,
                };
                if *client_id == self.client_id && open {
                    self.state = ClientState::Disconnected;
                    self.disconnect_reason = Some(DisconnectReason::Left);
                }
                None
            },
            Datagram::ConnectRequest { .. } => None,
        }
    }

    /// Whether the session misses its deadline at clock value `now`.
    pub open spec fn spec_times_out(self, now: u64) -> bool {
        match self.state {
            ClientState::Authenticating => now >= self.started_ms + HANDSHAKE_TIMEOUT_MS,
            ClientState::Connected => now >= self.last_recv_ms + LIVENESS_TIMEOUT_MS,
            ClientState::Disconnected => false,
        }
    }

    /// Advances the wall clock; a handshake or connection whose deadline
    /// has passed transitions to `Disconnected` with a timeout reason.
    /// Must be called every frame: the deadlines are wall-clock driven.
    pub fn update(&mut self, elapsed_ms: u64)
        requires
            old(self).wf(),
        ensures
            final(self).wf(),
            final(self).client_id == old(self).client_id,
            final(self).protocol_id == old(self).protocol_id,
            final(self).send == old(self).send,
            final(self).recv == old(self).recv,
            final(self).unreliable_in == old(self).unreliable_in,
            final(self).time_ms == (if old(self).time_ms + elapsed_ms <= u64::MAX {
                old(self).time_ms + elapsed_ms
            } else {
                u64::MAX as int
            }),
            final(self).last_recv_ms == old(self).last_recv_ms,
            final(self).started_ms == old(self).started_ms,
            if old(self).spec_times_out(final(self).time_ms) {
                &&& final(self).state is Disconnected
                &&& final(self).disconnect_reason == Some(DisconnectReason::Timeout)
            } else {
                &&& final(self).state == old(self).state
                &&& final(self).disconnect_reason == old(self).disconnect_reason
            },
    {
        let now: u64 = if elapsed_ms <= u64::MAX - self.time_ms {
            self.time_ms + elapsed_ms
        } else {
            u64::MAX
        };
        self.time_ms = now;
        let timed_out = match self.state {
            ClientState::Authenticating => now - self.started_ms >= HANDSHAKE_TIMEOUT_MS,
            ClientState::Connected => now - self.last_recv_ms >= LIVENESS_TIMEOUT_MS,
            ClientState::Disconnected => false,
        };
        if timed_out {
            self.state = ClientState::Disconnected;
            self.disconnect_reason = Some(DisconnectReason::Timeout);
        }
    }

    /// The datagrams to put on the wire this tick: the handshake while
    /// authenticating, a keep-alive and the pending reliable messages
    /// while connected.
    pub fn outgoing(&self) -> (out: Vec<Datagram>)
        requires
            self.wf(),
        ensures
            out@.map_values(|d: Datagram| d@) == client_outgoing(*self),
    {
        let mut out: Vec<Datagram> = Vec::new();
        match self.state {
            ClientState::Authenticating => {
                out.push(Datagram::ConnectRequest {
                    client_id: self.client_id,
                    protocol_id: self.protocol_id,
                });
                proof {
                    assert(out@.map_values(|d: Datagram| d@) =~= client_outgoing(*self));
                }
            },
            ClientState::Connected => {
                let client_id = self.client_id;
                out.push(Datagram::KeepAlive { client_id });
                proof {
                    assert(out@.map_values(|d: Datagram| d@) =~= seq![
                        DatagramModel::KeepAlive { client_id },
                    ]);
                }
                let pending = self.send.pending_messages();
                let ghost pending_model = self.send.spec_pending();
                let mut j: usize = 0;
                while j < pending.len()
                    invariant
                        j <= pending@.len(),
                        pending@.len() == pending_model.len(),
                        forall|k: int|
                            0 <= k < pending@.len() ==> (#[trigger] pending@[k]).0
                                == pending_model[k].0 && pending@[k].1@ == pending_model[k].1,
                        out@.map_values(|d: Datagram| d@) == seq![
                            DatagramModel::KeepAlive { client_id },
                        ] + pending_model.take(j as int).map_values(
                            |p: (u64, Seq<u8>)| payload_model(client_id, p),
                        ),
                    decreases pending@.len() - j,
                {
                    let seq_no = pending[j].0;
                    let data = clone_bytes(&pending[j].1);
                    let ghost prev_out = out@;
                    let dgram = Datagram::Payload {
                        client_id,
                        channel: ChannelKind::Reliable,
                        seq: seq_no,
                        data,
                    };
                    proof {
                        assert(dgram@ == payload_model(client_id, pending_model[j as int]));
                    }
                    out.push(dgram);
                    proof {
                        assert(out@.map_values(|d: Datagram| d@) =~= prev_out.map_values(
                            |d: Datagram| d@,
                        ).push(payload_model(client_id, pending_model[j as int])));
                        assert(pending_model.take(j as int + 1).map_values(
                            |p: (u64, Seq<u8>)| payload_model(client_id, p),
                        ) =~= pending_model.take(j as int).map_values(
                            |p: (u64, Seq<u8>)| payload_model(client_id, p),
                        ).push(payload_model(client_id, pending_model[j as int])));
                    }
                    j = j + 1;
                }
                proof {
                    assert(pending_model.take(pending_model.len() as int) =~= pending_model);
                    assert(pending_model.map_values(
                        |p: (u64, Seq<u8>)| payload_model(client_id, p),
                    ) =~= self.send.spec_pending().map_values(
                        |p: (u64, Seq<u8>)| payload_model(self.client_id, p),
                    ));
                    assert(out@.map_values(|d: Datagram| d@) =~= client_outgoing(*self));
                }
            },
            ClientState::Disconnected => {
                proof {
                    assert(out@.map_values(|d: Datagram| d@) =~= client_outgoing(*self));
                }
            },
        }
        out
    }

    /// Ends the session voluntarily: the client transitions straight to
    /// `Disconnected` (no linger) and hands back the goodbye datagram to
    /// send, if the session was still open.
    pub fn disconnect(&mut self) -> (d: Option<Datagram>)
        requires
            old(self).wf(),
        ensures
            final(self).wf(),
            final(self).client_id == old(self).client_id,
            final(self).protocol_id == old(self).protocol_id,
            final(self).time_ms == old(self).time_ms,
            final(self).last_recv_ms == old(self).last_recv_ms,
            final(self).started_ms == old(self).started_ms,
            final(self).send == old(self).send,
            final(self).recv == old(self).recv,
            final(self).unreliable_in == old(self).unreliable_in,
            final(self).disconnect_reason == old(self).disconnect_reason,
            final(self).state is Disconnected,
            if old(self).state is Disconnected {
                *final(self) == *old(self) && d is None
            } else {
                opt_view(d) == Some(DatagramModel::Disconnect {
                    client_id: old(self).client_id,
                })
            },
    {
        let open = match self.state {
            ClientState::Disconnected => false,
            _ => true,
        };
        if open {
            self.state = ClientState::Disconnected;
            Some(Datagram::Disconnect { client_id: self.client_id })
        } else {
            None
        }
    }

    /// Queues `data` on the reliable channel and returns the datagram to
    /// put on the wire now; the message is retransmitted every tick until
    /// acknowledged. Fails exactly when the session is not connected or
    /// the sequence space is exhausted.
    pub fn send_reliable(&mut self, data: Vec<u8>) -> (d: Option<Datagram>)
        requires
            old(self).wf(),
        ensures
            final(self).wf(),
            final(self).client_id == old(self).client_id,
            final(self).protocol_id == old(self).protocol_id,
            final(self).time_ms == old(self).time_ms,
            final(self).last_recv_ms == old(self).last_recv_ms,
            final(self).started_ms == old(self).started_ms,
            final(self).state == old(self).state,
            final(self).recv == old(self).recv,
            final(self).unreliable_in == old(self).unreliable_in,
            final(self).disconnect_reason == old(self).disconnect_reason,
            d is Some <==> old(self).state is Connected && old(self).send.spec_next_seq()
                < u64::MAX,
            d is None ==> *final(self) == *old(self),
            (old(self).state is Connected && old(self).send.spec_next_seq() < u64::MAX) ==> {
                &&& final(self).send.spec_next_seq() == old(self).send.spec_next_seq() + 1
                &&& final(self).send.spec_pending() == old(self).send.spec_pending().push(
                    (old(self).send.spec_next_seq(), data@),
                )
                &&& opt_view(d) == Some(DatagramModel::Payload {
                    client_id: old(self).client_id,
                    channel: ChannelKind::Reliable,
                    seq: old(self).send.spec_next_seq(),
                    data: data@,
                })
            },
    {
        let connected = match self.state {
            ClientState::Connected => true,
            _ => false,
        };
        if !connected || !self.send.can_take_one() {
            return None;
        }
        let copy = clone_bytes(&data);
        let seq = self.send.send(data);
        let dgram = Datagram::Payload {
            client_id: self.client_id,
            channel: ChannelKind::Reliable,
            seq,
            data: copy,
        };
        Some(dgram)
    }

    /// Builds one best-effort datagram: nothing is queued and nothing
    /// will be retransmitted. Fails exactly when the session is not
    /// connected.
    pub fn send_unreliable(&self, data: &Vec<u8>) -> (d: Option<Datagram>)
        ensures
            match d {
                Some(dg) => self.state is Connected && dg@ == (DatagramModel::Payload {
                    client_id: self.client_id,
                    channel: ChannelKind::Unreliable,
                    seq: 0u64,
                    data: data@,
                }),
                None => !(self.state is Connected),
            },
    {
        let connected = match self.state {
            ClientState::Connected => true,
            _ => false,
        };
        if connected {
            let dgram = Datagram::Payload {
                client_id: self.client_id,
                channel: ChannelKind::Unreliable,
                seq: 0,
                data: clone_bytes(data),
            };
            Some(dgram)
        } else {
            None
        }
    }

    /// Drains the oldest delivered reliable message, if one is waiting.
    pub fn receive_reliable(&mut self) -> (r: Option<Vec<u8>>)
        ensures
            final(self).client_id == old(self).client_id,
            final(self).protocol_id == old(self).protocol_id,
            final(self).state == old(self).state,
            final(self).time_ms == old(self).time_ms,
            final(self).last_recv_ms == old(self).last_recv_ms,
            final(self).started_ms == old(self).started_ms,
            final(self).send == old(self).send,
            final(self).unreliable_in == old(self).unreliable_in,
            final(self).disconnect_reason == old(self).disconnect_reason,
            final(self).recv.spec_next_expected() == old(self).recv.spec_next_expected(),
            match r {
                Some(data) => old(self).recv.spec_inbox().len() > 0 && data@ == old(
                    self,
                ).recv.spec_inbox()[0] && final(self).recv.spec_inbox() == old(
                    self,
                ).recv.spec_inbox().skip(1),
                None => old(self).recv.spec_inbox().len() == 0 && *final(self) == *old(self),
            },
    {
        self.recv.receive()
    }

    /// Drains the oldest best-effort message, if one is waiting.
    pub fn receive_unreliable(&mut self) -> (r: Option<Vec<u8>>)
        ensures
            final(self).client_id == old(self).client_id,
            final(self).protocol_id == old(self).protocol_id,
            final(self).state == old(self).state,
            final(self).time_ms == old(self).time_ms,
            final(self).last_recv_ms == old(self).last_recv_ms,
            final(self).started_ms == old(self).started_ms,
            final(self).send == old(self).send,
            final(self).recv == old(self).recv,
            final(self).disconnect_reason == old(self).disconnect_reason,
            match r {
                Some(data) => bufs(old(self).unreliable_in@).len() > 0 && data@ == bufs(
                    old(self).unreliable_in@,
                )[0] && bufs(final(self).unreliable_in@) == bufs(old(self).unreliable_in@).skip(
                    1,
                ),
                None => old(self).unreliable_in@.len() == 0 && *final(self) == *old(self),
            },
    {
        if self.unreliable_in.len() > 0 {
            let ghost before = self.unreliable_in@;
            let data = self.unreliable_in.remove(0);
            proof {
                assert(bufs(self.unreliable_in@) =~= bufs(before).skip(1));
            }
            Some(data)
        } else {
            None
        }
    }
}

} // verus!
