use vstd::prelude::*;
use crate::registry::{deregister_spec, register_spec, ConnectionHandle, ConnectionRegistry};

verus! {

/// Where a connection stands in its life.
#[derive(Clone, Copy, Debug, PartialEq, Eq, Structural)]
pub enum LinkState {
    Connecting,
    Established,
    Closing,
    Closed,
}

/// A frame that arrives from the device.
#[derive(Clone, Debug, PartialEq, Eq)]
pub enum InboundFrame {
    Ping(Vec<u8>),
    Pong(Vec<u8>),
    Close,
    Text(String),
    Binary(Vec<u8>),
}

/// What the transport must do after a step of the state machine.
#[derive(Clone, Debug, PartialEq, Eq)]
pub enum ControlAction {
    /// Nothing.
    Idle,
    /// Answer with a pong frame carrying this payload.
    Pong(Vec<u8>),
    /// Acknowledge the close and shut the connection.
    Close,
    /// Write this text frame to the device, verbatim.
    Write(String),
}

/// The device id that a connection claims: the one given, or the empty id
/// when none was given.
pub fn claimed_id(given: Option<String>) -> (r: String)
    ensures
        given is None ==> r@ == Seq::<char>::empty(),
        given matches Some(s) ==> r@ == s@,
{
    match given {
        Some(s) => s,
        None => String::new(),
    }
}

/// One connection, opened under a claimed device id.
pub struct ConnectionLifecycle {
    id: String,
    handle: ConnectionHandle,
    state: LinkState,
}

impl ConnectionLifecycle {
    pub closed spec fn id_spec(&self) -> Seq<char> {
        self.id@
    }

    pub closed spec fn handle_spec(&self) -> ConnectionHandle {
        self.handle
    }

    pub closed spec fn state_spec(&self) -> LinkState {
        self.state
    }

    /// A connection that is still in its handshake.
    pub fn new(id: String, handle: ConnectionHandle) -> (r: ConnectionLifecycle)
        ensures
            r.id_spec() == id@,
            r.handle_spec() == handle,
            r.state_spec() == LinkState::Connecting,
    {
        ConnectionLifecycle { id, handle, state: LinkState::Connecting }
    }

    pub fn id(&self) -> (r: &String)
        ensures
            r@ == self.id_spec(),
    {
        &self.id
    }

    pub fn handle(&self) -> (r: ConnectionHandle)
        ensures
            r == self.handle_spec(),
    {
        self.handle
    }

    pub fn state(&self) -> (r: LinkState)
        ensures
            r == self.state_spec(),
    {
        self.state
    }

    /// The handshake completed: the connection becomes the one registered for
    /// its id, with `outbox` as the channel its commands go to. Outside the
    /// handshake this does nothing.
    pub fn establish(
        &mut self,
        registry: &mut ConnectionRegistry,
        outbox: std::sync::mpsc::SyncSender<String>,
    )
        requires
            old(registry).wf(),
        ensures
            final(registry).wf(),
            final(self).id_spec() == old(self).id_spec(),
            final(self).handle_spec() == old(self).handle_spec(),
            final(registry).next_token_spec() == old(registry).next_token_spec(),
            old(self).state_spec() == LinkState::Connecting ==> final(self).state_spec()
                == LinkState::Established && final(registry)@ == register_spec(
                old(registry)@,
                old(self).id_spec(),
                old(self).handle_spec(),
            ),
            old(self).state_spec() != LinkState::Connecting ==> final(self).state_spec()
                == old(self).state_spec() && final(registry)@ == old(registry)@,
    {
        if self.state == LinkState::Connecting {
            registry.register(self.id.clone(), self.handle, outbox);
            self.state = LinkState::Established;
        }
    }

    /// Handles a frame from the device. While established, a ping is answered
    /// with a pong of the same payload and a close starts the shutdown; every
    /// other frame, and every frame in another state, is ignored.
    pub fn on_frame(&mut self, frame: InboundFrame) -> (r: ControlAction)
        ensures
            final(self).id_spec() == old(self).id_spec(),
            final(self).handle_spec() == old(self).handle_spec(),
            old(self).state_spec() == LinkState::Established ==> match frame {
                InboundFrame::Ping(p) => r == ControlAction::Pong(p) && final(self).state_spec()
                    == LinkState::Established,
                InboundFrame::Close => r == ControlAction::Close && final(self).state_spec()
                    == LinkState::Closing,
                _ => r == ControlAction::Idle && final(self).state_spec() == LinkState::Established,
            },
            old(self).state_spec() != LinkState::Established ==> r == ControlAction::Idle
                && final(self).state_spec() == old(self).state_spec(),
    {
        if self.state != LinkState::Established {
            return ControlAction::Idle;
        }
        match frame {
            InboundFrame::Ping(p) => ControlAction::Pong(p),
            InboundFrame::Close => {
                self.state = LinkState::Closing;
                ControlAction::Close
            },
            _ => ControlAction::Idle,
        }
    }

    /// The transport failed or the peer stopped answering pings: an
    /// established connection starts its shutdown.
    pub fn on_failure(&mut self) -> (r: ControlAction)
        ensures
            final(self).id_spec() == old(self).id_spec(),
            final(self).handle_spec() == old(self).handle_spec(),
            old(self).state_spec() == LinkState::Established ==> r == ControlAction::Close
                && final(self).state_spec() == LinkState::Closing,
            old(self).state_spec() != LinkState::Established ==> r == ControlAction::Idle
                && final(self).state_spec() == old(self).state_spec(),
    {
        if self.state == LinkState::Established {
            self.state = LinkState::Closing;
            ControlAction::Close
        } else {
            ControlAction::Idle
        }
    }

    /// A command pushed to this connection: while established it is written as
    /// one text frame, unchanged; otherwise it is dropped.
    pub fn on_command(&self, command: String) -> (r: ControlAction)
        ensures
            self.state_spec() == LinkState::Established ==> (r matches ControlAction::Write(t)
                && t@ == command@),
            self.state_spec() != LinkState::Established ==> r == ControlAction::Idle,
    {
        if self.state == LinkState::Established {
            ControlAction::Write(command)
        } else {
            ControlAction::Idle
        }
    }

    /// The connection is gone. If it was registered, its own entry leaves the
    /// registry; a newer connection under the same id stays.
    pub fn close(&mut self, registry: &mut ConnectionRegistry)
        requires
            old(registry).wf(),
        ensures
            final(registry).wf(),
            final(self).id_spec() == old(self).id_spec(),
            final(self).handle_spec() == old(self).handle_spec(),
            final(self).state_spec() == LinkState::Closed,
            final(registry).next_token_spec() == old(registry).next_token_spec(),
            old(self).state_spec() == LinkState::Established || old(self).state_spec()
                == LinkState::Closing ==> final(registry)@ == deregister_spec(
                old(registry)@,
                old(self).id_spec(),
                old(self).handle_spec(),
            ),
            old(self).state_spec() == LinkState::Connecting || old(self).state_spec()
                == LinkState::Closed ==> final(registry)@ == old(registry)@,
    {
        if self.state == LinkState::Established || self.state == LinkState::Closing {
            registry.deregister(&self.id, self.handle);
        }
        self.state = LinkState::Closed;
    }
}

} // verus!
