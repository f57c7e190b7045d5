use vstd::prelude::*;

use crate::connect::ConnectError;
use crate::relay::RelayEnd;

verus! {

/// Where a tunnel stands.
#[derive(Clone, Copy, Debug, PartialEq, Eq, Structural)]
pub enum TunnelState {
    /// The destination is checked; the bastion is yet to open the channel.
    AwaitingChannel,
    /// The channel is open and both relay directions run.
    Relaying,
    /// The tunnel is torn down; no relaying goes on.
    Ended,
}

/// A tunnel to `host`:`port` through a bastion session, from the check of its
/// destination to its teardown.
#[derive(Debug)]
pub struct Tunnel {
    host: String,
    port: u16,
    state: TunnelState,
}

pub struct TunnelView {
    pub host: Seq<char>,
    pub port: u16,
    pub state: TunnelState,
}

impl View for Tunnel {
    type V = TunnelView;

    closed spec fn view(&self) -> TunnelView {
        TunnelView { host: self.host@, port: self.port, state: self.state }
    }
}

impl Tunnel {
    /// The destination host.
    pub fn host(&self) -> (r: &str)
        ensures
            r@ == self@.host,
    {
        self.host.as_str()
    }

    /// The destination port.
    pub fn port(&self) -> (r: u16)
        ensures
            r == self@.port,
    {
        self.port
    }

    /// Begins a tunnel to `host`:`port`, checking the destination before any
    /// request goes to the bastion: port zero is refused.
    pub fn establish(host: &str, port: u16) -> (r: Result<Tunnel, ConnectError>)
        ensures
            port == 0 <==> r == Err::<Tunnel, ConnectError>(ConnectError::InvalidPort),
            r is Ok <==> port != 0,
            r is Ok ==> r->Ok_0@ == (TunnelView { host: host@, port, state: TunnelState::AwaitingChannel }),
    {
        if port == 0 {
            return Err(ConnectError::InvalidPort);
        }
        Ok(Tunnel { host: host.to_owned(), port, state: TunnelState::AwaitingChannel })
    }

    /// Where the tunnel stands.
    pub fn state(&self) -> (r: TunnelState)
        ensures
            r == self@.state,
    {
        self.state
    }

    /// Records whether the bastion opened the forwarding channel: relaying starts
    /// if it did; else the tunnel ends with a setup failure.
    pub fn channel_opened(&mut self, opened: bool) -> (r: Result<(), ConnectError>)
        requires
            old(self)@.state == TunnelState::AwaitingChannel,
        ensures
            final(self)@.host == old(self)@.host,
            final(self)@.port == old(self)@.port,
            opened ==> r is Ok && final(self)@.state == TunnelState::Relaying,
            !opened ==> r == Err::<(), ConnectError>(ConnectError::TunnelSetupFailure)
                && final(self)@.state == TunnelState::Ended,
    {
        if opened {
            self.state = TunnelState::Relaying;
            Ok(())
        } else {
            self.state = TunnelState::Ended;
            Err(ConnectError::TunnelSetupFailure)
        }
    }

    /// Records that a relay direction stopped: the whole tunnel ends with it.
    /// A direction that failed is reported as a relay error.
    pub fn direction_ended(&mut self, end: RelayEnd) -> (r: Option<ConnectError>)
        ensures
            final(self)@.host == old(self)@.host,
            final(self)@.port == old(self)@.port,
            final(self)@.state == TunnelState::Ended,
            end == RelayEnd::IoError ==> r == Some(ConnectError::RelayIoError),
            end == RelayEnd::Closed ==> r is None,
    {
        self.state = TunnelState::Ended;
        match end {
            RelayEnd::IoError => Some(ConnectError::RelayIoError),
            RelayEnd::Closed => None,
        }
    }
}

} // verus!
