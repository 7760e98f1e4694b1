//! Connection-handler state machine. One `Session` tracks one accepted
//! connection through `Handshaking -> AwaitingOpen -> Active -> Closed`.
//! The handler's read loop and the registry callbacks are modelled as
//! events; each event returns the side-effects to perform. Once a session
//! is `Closed`, no event reopens it.

use vstd::prelude::*;

verus! {

use crate::client::{
    Action, ActionView, Client, ClientView, ProtoError, close_transport_count, clamp_delay,
};
use crate::codec::{open_frame, close_frame, MAX_FRAME_LEN, MIN_FRAME_LEN};

/// Lifecycle of one connection.
#[derive(Clone, Copy, PartialEq, Eq, Structural, Debug)]
pub enum Phase {
    /// Waiting for the optional per-connection cipher key.
    Handshaking,
    /// Key phase done (or disabled); service 0 not yet opened.
    AwaitingOpen,
    /// Service 0 open: inbound data frames are accepted.
    Active,
    /// Torn down; no event has any further effect.
    Closed,
}

/// What the read loop should do after a length prefix arrived.
#[derive(Clone, Copy, PartialEq, Eq, Structural, Debug)]
pub enum ReadDecision {
    /// The length is acceptable: read exactly that many body bytes.
    ReadBody,
    /// Unauthorized or out-of-bounds length: terminate the connection.
    Close,
}

/// One connection's protocol state.
pub struct Session {
    pub phase: Phase,
    pub client: Client,
}

/// The mathematical value of a `Session`.
#[verifier::ext_equal]
pub struct SessionView {
    pub phase: Phase,
    pub client: ClientView,
}

impl View for Session {
    type V = SessionView;

    open spec fn view(&self) -> SessionView {
        SessionView { phase: self.phase, client: self.client@ }
    }
}

impl SessionView {
    /// The open-zero gate is raised exactly in the `Active` phase.
    pub open spec fn wf(self) -> bool {
        self.client.is_open_zero <==> self.phase is Active
    }
}

impl Session {
    /// A session for a freshly accepted connection: it starts in
    /// `Handshaking` when the key exchange is enabled, else directly in
    /// `AwaitingOpen`.
    pub fn new(client: Client, handshake_enabled: bool) -> (s: Session)
        requires
            !client@.is_open_zero,
        ensures
            s@.client == client@,
            s@.phase == if handshake_enabled {
                Phase::Handshaking
            } else {
                Phase::AwaitingOpen
            },
            s@.wf(),
    {
        Session {
            phase: if handshake_enabled {
                Phase::Handshaking
            } else {
                Phase::AwaitingOpen
            },
            client,
        }
    }

    /// The handshake key arrived. It is stored exactly once: a key outside
    /// the `Handshaking` phase is an error and changes nothing.
    pub fn on_handshake_key(&mut self, key: Vec<u8>) -> (r: Result<(), ProtoError>)
        ensures
            old(self)@.wf() ==> final(self)@.wf(),
            old(self)@.phase is Handshaking ==> r == Ok::<(), ProtoError>(())
                && final(self)@ == (SessionView {
                phase: Phase::AwaitingOpen,
                client: ClientView { secret_key: Some(key@), ..old(self)@.client },
            }),
            !(old(self)@.phase is Handshaking) ==> r == Err::<(), ProtoError>(
                ProtoError::UnexpectedHandshake,
            ) && final(self)@ == old(self)@,
            old(self)@.phase is Closed ==> final(self)@.phase is Closed,
    {
        match self.phase {
            Phase::Handshaking => {
                self.client.secret_key = Some(key);
                self.phase = Phase::AwaitingOpen;
                Ok(())
            },
            _ => Err(ProtoError::UnexpectedHandshake),
        }
    }

    /// The handshake did not complete in time: the connection is torn down
    /// and never reaches `Active`. The registry is notified before the
    /// transport closes.
    pub fn on_handshake_timeout(&mut self) -> (acts: Vec<Action>)
        ensures
            final(self)@ == (SessionView {
                phase: Phase::Closed,
                client: ClientView { is_open_zero: false, ..old(self)@.client },
            }),
            final(self)@.wf(),
            acts@.len() == 2,
            acts@[0]@ == ActionView::NotifyDisconnect(old(self)@.client.session_id),
            acts@[1]@ == ActionView::CloseTransport,
    {
        self.phase = Phase::Closed;
        self.client.disconnect_now()
    }

    /// The registry opened `service_id` for this client. On a live session
    /// the `open` control frame goes out and opening service 0 raises the
    /// gate; a closed session ignores the event.
    pub fn on_open_service(&mut self, service_id: u32) -> (acts: Vec<Action>)
        ensures
            old(self)@.wf() ==> final(self)@.wf(),
            old(self)@.phase is Closed ==> final(self)@ == old(self)@ && acts@.len() == 0,
            !(old(self)@.phase is Closed) ==> {
                &&& acts@.len() == 1
                &&& acts@[0]@ == ActionView::SendFrame(
                    open_frame(old(self)@.client.effective_key(), service_id),
                )
                &&& (service_id == 0 ==> final(self)@ == (SessionView {
                    phase: Phase::Active,
                    client: ClientView { is_open_zero: true, ..old(self)@.client },
                }))
                &&& (service_id != 0 ==> final(self)@ == old(self)@)
            },
            old(self)@.phase is Closed ==> final(self)@.phase is Closed,
    {
        match self.phase {
            Phase::Closed => Vec::new(),
            _ => {
                let acts = self.client.open_service(service_id);
                if service_id == 0 {
                    self.phase = Phase::Active;
                }
                acts
            },
        }
    }

    /// The registry closed `service_id`. On a live session the `close`
    /// control frame goes out; closing the reserved service 0 kicks the
    /// connection with exactly one immediate transport teardown. A closed
    /// session ignores the event.
    pub fn on_close_service(&mut self, service_id: u32) -> (acts: Vec<Action>)
        ensures
            old(self)@.wf() ==> final(self)@.wf(),
            old(self)@.phase is Closed ==> final(self)@ == old(self)@ && acts@.len() == 0
                && close_transport_count(acts@) == 0,
            !(old(self)@.phase is Closed) ==> {
                &&& acts@[0]@ == ActionView::SendFrame(
                    close_frame(old(self)@.client.effective_key(), service_id),
                )
                &&& (service_id == 0 ==> {
                    &&& acts@.len() == 3
                    &&& acts@[1]@ == ActionView::NotifyDisconnect(old(self)@.client.session_id)
                    &&& acts@[2]@ == ActionView::CloseTransport
                    &&& final(self)@ == (SessionView {
                        phase: Phase::Closed,
                        client: ClientView { is_open_zero: false, ..old(self)@.client },
                    })
                })
                &&& (service_id != 0 ==> acts@.len() == 1 && final(self)@ == old(self)@)
                &&& close_transport_count(acts@) == if service_id == 0 {
                    1int
                } else {
                    0int
                }
            },
            old(self)@.phase is Closed ==> final(self)@.phase is Closed,
    {
        match self.phase {
            Phase::Closed => Vec::new(),
            _ => {
                let acts = self.client.close_service(service_id);
                if service_id == 0 {
                    self.phase = Phase::Closed;
                }
                acts
            },
        }
    }

    /// A kick with a grace delay on a live session: the `close` frame goes
    /// out now, the teardown is scheduled after the clamped delay. The
    /// session state itself does not change until the teardown fires.
    pub fn on_kick_by_delay(&self, service_id: u32, delay_ms: i32) -> (acts: Vec<Action>)
        ensures
            self@.phase is Closed ==> acts@.len() == 0,
            !(self@.phase is Closed) ==> {
                &&& acts@.len() == 2
                &&& acts@[0]@ == ActionView::SendFrame(
                    close_frame(self@.client.effective_key(), service_id),
                )
                &&& acts@[1]@ == ActionView::CloseTransportAfter(clamp_delay(delay_ms))
            },
    {
        match self.phase {
            Phase::Closed => Vec::new(),
            _ => self.client.kick_by_delay(service_id, delay_ms),
        }
    }

    /// A length prefix arrived. The body may be read only when the
    /// open-zero gate is up and the length lies strictly between the 4-byte
    /// minimum and the 512 KiB cap; anything else closes the connection.
    pub fn on_length(&self, len: u32) -> (d: ReadDecision)
        ensures
            d is ReadBody <==> (self@.client.is_open_zero && MIN_FRAME_LEN < len
                < MAX_FRAME_LEN),
    {
        if !self.client.is_open_zero {
            ReadDecision::Close
        } else if len <= MIN_FRAME_LEN || len >= MAX_FRAME_LEN {
            ReadDecision::Close
        } else {
            ReadDecision::ReadBody
        }
    }

    /// The read loop ended (EOF, transport error, or a guard above fired):
    /// the session is closed for good.
    pub fn on_read_end(&mut self)
        ensures
            final(self)@ == (SessionView {
                phase: Phase::Closed,
                client: ClientView { is_open_zero: false, ..old(self)@.client },
            }),
            final(self)@.wf(),
    {
        self.phase = Phase::Closed;
        self.client.is_open_zero = false;
    }
}

} // verus!
