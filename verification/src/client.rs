//! Per-connection client state and the client-facing half of the control
//! protocol. Methods never touch a socket: each returns the list of
//! side-effects (frames to write, registry notifications, transport
//! teardowns) that the caller must perform, in order.

use vstd::prelude::*;

verus! {

use crate::codec::{
    cipher_seq, data_frame, open_frame, close_frame, encode_data_frame, encode_open_frame,
    encode_close_frame, parse_frame_body, GATEWAY_TARGET_ID,
};
use vstd::bytes::spec_u32_from_le_bytes;

/// One side-effect requested by the protocol engine, to be performed by the
/// transport layer in list order.
pub enum Action {
    /// Write these bytes on the connection's serialized outbound path.
    SendFrame(Vec<u8>),
    /// Tell the service registry that this session is gone.
    NotifyDisconnect(u32),
    /// Tear the transport down now, fire-and-forget.
    CloseTransport,
    /// Tear the transport down after this many milliseconds, fire-and-forget.
    CloseTransportAfter(u32),
    /// Route `(session_id, service_id, payload)` to the service registry.
    Forward(u32, u32, Vec<u8>),
}

/// The mathematical value of an `Action`.
pub enum ActionView {
    SendFrame(Seq<u8>),
    NotifyDisconnect(u32),
    CloseTransport,
    CloseTransportAfter(u32),
    Forward(u32, u32, Seq<u8>),
}

impl View for Action {
    type V = ActionView;

    open spec fn view(&self) -> ActionView {
        match self {
            Action::SendFrame(f) => ActionView::SendFrame(f@),
            Action::NotifyDisconnect(s) => ActionView::NotifyDisconnect(*s),
            Action::CloseTransport => ActionView::CloseTransport,
            Action::CloseTransportAfter(d) => ActionView::CloseTransportAfter(*d),
            Action::Forward(s, t, p) => ActionView::Forward(*s, *t, p@),
        }
    }
}

/// How many transport teardowns a list of actions asks for.
pub open spec fn close_transport_count(acts: Seq<Action>) -> int
    decreases acts.len(),
{
    if acts.len() == 0 {
        0
    } else {
        close_transport_count(acts.drop_last()) + if acts.last() is CloseTransport {
            1int
        } else {
            0int
        }
    }
}

/// Appending one action raises the teardown count by one exactly when that
/// action is a `CloseTransport`.
pub proof fn lemma_close_transport_count_push(s: Seq<Action>, a: Action)
    ensures
        close_transport_count(s.push(a)) == close_transport_count(s) + (
        if a is CloseTransport {
            1int
        } else {
            0int
        }),
{
    assert(s.push(a).len() == s.len() + 1);
    assert(s.push(a).drop_last() =~= s);
    assert(s.push(a).last() == a);
}

/// Error of the protocol engine.
#[derive(Clone, Copy, PartialEq, Eq, Structural, Debug)]
pub enum ProtoError {
    /// An inbound frame body did not even hold a full target id.
    FrameTooShort,
    /// A handshake key arrived outside the handshake phase.
    UnexpectedHandshake,
}

/// Per-connection state.
pub struct Client {
    /// Unique for the connection's lifetime, assigned at acceptance.
    pub session_id: u32,
    /// Remote endpoint, captured once at construction.
    pub address: String,
    /// The gateway's static cipher key; empty means the cipher is a no-op.
    pub gateway_key: Vec<u8>,
    /// Per-connection cipher key read during the optional handshake; when
    /// absent the static key is used.
    pub secret_key: Option<Vec<u8>>,
    /// True once the reserved control service 0 has been opened; gates
    /// whether inbound data frames are accepted.
    pub is_open_zero: bool,
    /// Timestamp of the last successfully parsed inbound frame.
    pub last_recv_time: i64,
}

/// The mathematical value of a `Client`.
#[verifier::ext_equal]
pub struct ClientView {
    pub session_id: u32,
    pub address: Seq<char>,
    pub gateway_key: Seq<u8>,
    pub secret_key: Option<Seq<u8>>,
    pub is_open_zero: bool,
    pub last_recv_time: i64,
}

impl View for Client {
    type V = ClientView;

    open spec fn view(&self) -> ClientView {
        ClientView {
            session_id: self.session_id,
            address: self.address@,
            gateway_key: self.gateway_key@,
            secret_key: match self.secret_key {
                Some(k) => Some(k@),
                None => None,
            },
            is_open_zero: self.is_open_zero,
            last_recv_time: self.last_recv_time,
        }
    }
}

impl ClientView {
    /// The cipher key this connection uses: the handshake key when one was
    /// read, else the gateway's static key.
    pub open spec fn effective_key(self) -> Seq<u8> {
        match self.secret_key {
            Some(k) => k,
            None => self.gateway_key,
        }
    }
}

/// Delay before a scheduled kick, clamped to [0, 30000] ms with 5000 ms for
/// out-of-range requests.
pub open spec fn clamp_delay(delay_ms: i32) -> u32 {
    if 0 <= delay_ms <= 30000 {
        delay_ms as u32
    } else {
        5000
    }
}

impl Client {
    /// A freshly accepted connection: control service closed, no handshake
    /// key yet, the given timestamp as the last receive time.
    pub fn new(session_id: u32, address: String, gateway_key: Vec<u8>, now: i64) -> (c: Client)
        ensures
            c@ == (ClientView {
                session_id,
                address: address@,
                gateway_key: gateway_key@,
                secret_key: None,
                is_open_zero: false,
                last_recv_time: now,
            }),
    {
        Client {
            session_id,
            address,
            gateway_key,
            secret_key: None,
            is_open_zero: false,
            last_recv_time: now,
        }
    }

    /// The effective cipher key as bytes.
    fn key(&self) -> (k: &Vec<u8>)
        ensures
            k@ == self@.effective_key(),
    {
        match &self.secret_key {
            Some(k) => k,
            None => &self.gateway_key,
        }
    }

    /// Immediate disconnect: the open-zero gate falls, the registry is told
    /// first, and only then is the transport torn down, detached.
    pub fn disconnect_now(&mut self) -> (acts: Vec<Action>)
        ensures
            final(self)@ == (ClientView { is_open_zero: false, ..old(self)@ }),
            acts@.len() == 2,
            acts@[0]@ == ActionView::NotifyDisconnect(old(self)@.session_id),
            acts@[1]@ == ActionView::CloseTransport,
            close_transport_count(acts@) == 1,
    {
        self.is_open_zero = false;
        let acts = vec![
            Action::NotifyDisconnect(self.session_id),
            Action::CloseTransport,
        ];
        proof {
            let e = Seq::<Action>::empty();
            assert(acts@ =~= e.push(acts@[0]).push(acts@[1]));
            lemma_close_transport_count_push(e, acts@[0]);
            lemma_close_transport_count_push(e.push(acts@[0]), acts@[1]);
            assert(close_transport_count(e) == 0);
        }
        acts
    }

    /// The registry opened `service_id` for this client: send the `open`
    /// control frame; opening service 0 also raises the open-zero gate.
    pub fn open_service(&mut self, service_id: u32) -> (acts: Vec<Action>)
        ensures
            service_id == 0 ==> final(self)@ == (ClientView {
                is_open_zero: true,
                ..old(self)@
            }),
            service_id != 0 ==> final(self)@ == old(self)@,
            acts@.len() == 1,
            acts@[0]@ == ActionView::SendFrame(open_frame(old(self)@.effective_key(), service_id)),
            close_transport_count(acts@) == 0,
    {
        if service_id == 0 {
            self.is_open_zero = true;
        }
        let frame = encode_open_frame(self.key().as_slice(), service_id);
        let acts = vec![Action::SendFrame(frame)];
        proof {
            let e = Seq::<Action>::empty();
            assert(acts@ =~= e.push(acts@[0]));
            lemma_close_transport_count_push(e, acts@[0]);
            assert(close_transport_count(e) == 0);
        }
        acts
    }

    /// The registry closed `service_id`: send the `close` control frame.
    /// Closing the reserved service 0 kicks the whole connection: the close
    /// frame goes out and the client is disconnected at once — exactly one
    /// transport teardown, and none for any other id.
    pub fn close_service(&mut self, service_id: u32) -> (acts: Vec<Action>)
        ensures
            acts@[0]@ == ActionView::SendFrame(close_frame(old(self)@.effective_key(), service_id)),
            service_id == 0 ==> {
                &&& final(self)@ == (ClientView { is_open_zero: false, ..old(self)@ })
                &&& acts@.len() == 3
                &&& acts@[1]@ == ActionView::NotifyDisconnect(old(self)@.session_id)
                &&& acts@[2]@ == ActionView::CloseTransport
            },
            service_id != 0 ==> final(self)@ == old(self)@ && acts@.len() == 1,
            close_transport_count(acts@) == if service_id == 0 { 1int } else { 0int },
    {
        let frame = encode_close_frame(self.key().as_slice(), service_id);
        if service_id == 0 {
            let mut acts = vec![Action::SendFrame(frame)];
            let mut rest = self.disconnect_now();
            let ghost restv = rest@;
            acts.append(&mut rest);
            proof {
                assert(acts@[1] == restv[0] && acts@[2] == restv[1]);
                let e = Seq::<Action>::empty();
                assert(acts@ =~= e.push(acts@[0]).push(acts@[1]).push(acts@[2]));
                lemma_close_transport_count_push(e, acts@[0]);
                lemma_close_transport_count_push(e.push(acts@[0]), acts@[1]);
                lemma_close_transport_count_push(e.push(acts@[0]).push(acts@[1]), acts@[2]);
                assert(close_transport_count(e) == 0);
            }
            acts
        } else {
            let acts = vec![Action::SendFrame(frame)];
            proof {
                let e = Seq::<Action>::empty();
                assert(acts@ =~= e.push(acts@[0]));
                lemma_close_transport_count_push(e, acts@[0]);
                assert(close_transport_count(e) == 0);
            }
            acts
        }
    }

    /// Kick with a grace delay: the `close` frame goes out at once, the
    /// transport teardown is scheduled after the clamped delay and is not
    /// waited for.
    pub fn kick_by_delay(&self, service_id: u32, delay_ms: i32) -> (acts: Vec<Action>)
        ensures
            acts@.len() == 2,
            acts@[0]@ == ActionView::SendFrame(close_frame(self@.effective_key(), service_id)),
            acts@[1]@ == ActionView::CloseTransportAfter(clamp_delay(delay_ms)),
            close_transport_count(acts@) == 0,
    {
        let delay: u32 = if 0 <= delay_ms && delay_ms <= 30000 {
            delay_ms as u32
        } else {
            5000
        };
        let frame = encode_close_frame(self.key().as_slice(), service_id);
        let acts = vec![Action::SendFrame(frame), Action::CloseTransportAfter(delay)];
        proof {
            let e = Seq::<Action>::empty();
            assert(acts@ =~= e.push(acts@[0]).push(acts@[1]));
            lemma_close_transport_count_push(e, acts@[0]);
            lemma_close_transport_count_push(e.push(acts@[0]), acts@[1]);
            assert(close_transport_count(e) == 0);
        }
        acts
    }

    /// Builds and requests transmission of a data frame carrying `payload`
    /// to `target_id` on this connection.
    pub fn send(&self, target_id: u32, payload: &[u8]) -> (acts: Vec<Action>)
        requires
            payload@.len() + 4 <= u32::MAX,
        ensures
            acts@.len() == 1,
            acts@[0]@ == ActionView::SendFrame(
                data_frame(self@.effective_key(), target_id, payload@),
            ),
            close_transport_count(acts@) == 0,
    {
        let frame = encode_data_frame(self.key().as_slice(), target_id, payload);
        let acts = vec![Action::SendFrame(frame)];
        proof {
            let e = Seq::<Action>::empty();
            assert(acts@ =~= e.push(acts@[0]));
            lemma_close_transport_count_push(e, acts@[0]);
            assert(close_transport_count(e) == 0);
        }
        acts
    }
}

/// Handles one inbound frame body. A body of 4 bytes or fewer is a protocol
/// violation. Otherwise the body is deciphered, the receive timestamp is
/// refreshed, and the frame is dispatched: a body addressed to the gateway
/// sentinel id is echoed back verbatim to the same client as a data frame
/// (ping), anything else is forwarded to the service registry untouched.
pub fn input_buff(client: &mut Client, data: Vec<u8>, now: i64) -> (r: Result<Action, ProtoError>)
    requires
        data@.len() <= u32::MAX,
    ensures
        data@.len() <= 4 ==> r == Err::<Action, ProtoError>(ProtoError::FrameTooShort)
            && final(client)@ == old(client)@,
        data@.len() > 4 ==> ({
            let key = old(client)@.effective_key();
            let body = cipher_seq(key, data@);
            let target = spec_u32_from_le_bytes(body.take(4));
            &&& final(client)@ == (ClientView { last_recv_time: now, ..old(client)@ })
            &&& r is Ok
            &&& (target == GATEWAY_TARGET_ID ==> r->Ok_0@ == ActionView::SendFrame(
                data_frame(key, GATEWAY_TARGET_ID, body.skip(4)),
            ))
            &&& (target != GATEWAY_TARGET_ID ==> r->Ok_0@ == ActionView::Forward(
                old(client)@.session_id,
                target,
                body.skip(4),
            ))
        }),
{
    if data.len() <= 4 {
        return Err(ProtoError::FrameTooShort);
    }
    let (target_id, payload) = parse_frame_body(client.key().as_slice(), data);
    client.last_recv_time = now;
    if target_id == GATEWAY_TARGET_ID {
        let frame = encode_data_frame(client.key().as_slice(), GATEWAY_TARGET_ID,
            payload.as_slice());
        Ok(Action::SendFrame(frame))
    } else {
        Ok(Action::Forward(client.session_id, target_id, payload))
    }
}

} // verus!
