use vstd::prelude::*;

use crate::config::{
    copy_opt, opt_host_view, opt_view, resolve, EntryView, HostView, SshConfig, SshHost,
};

verus! {

/// The port used where the configuration names none.
pub const DEFAULT_PORT: u16 = 22;

/// The ways a connection can fail.
#[derive(Clone, Copy, Debug, PartialEq, Eq, Structural)]
pub enum ConnectError {
    /// The configuration file exists but could not be read.
    ConfigReadFailure,
    /// No configuration entry matches the host, or the bastion, asked for.
    NoMatchingHost,
    /// The resolved parameters name no user to log in as.
    MissingUser,
    /// A port outside 1 to 65535.
    InvalidPort,
    /// Every authentication method tried was rejected.
    AuthenticationFailure,
    /// The bastion refused to open a forwarding channel.
    TunnelSetupFailure,
    /// A relay direction failed to read or write.
    RelayIoError,
}

/// One hop of a connection: where to connect and whom to log in as.
#[derive(Debug, Clone)]
pub struct Hop {
    pub address: String,
    pub port: u16,
    pub user: String,
    pub identity_file: Option<String>,
}

pub struct HopView {
    pub address: Seq<char>,
    pub port: u16,
    pub user: Seq<char>,
    pub identity_file: Option<Seq<char>>,
}

impl View for Hop {
    type V = HopView;

    open spec fn view(&self) -> HopView {
        HopView {
            address: self.address@,
            port: self.port,
            user: self.user@,
            identity_file: opt_view(self.identity_file),
        }
    }
}

/// How to reach a host: directly, or through a session to a bastion.
#[derive(Debug)]
pub enum Route {
    Direct(Hop),
    ViaBastion { bastion: Hop, target: Hop },
}

pub enum RouteView {
    Direct(HopView),
    ViaBastion { bastion: HopView, target: HopView },
}

impl View for Route {
    type V = RouteView;

    open spec fn view(&self) -> RouteView {
        match self {
            Route::Direct(h) => RouteView::Direct(h@),
            Route::ViaBastion { bastion, target } => RouteView::ViaBastion {
                bastion: bastion@,
                target: target@,
            },
        }
    }
}

/// The hop for resolved parameters: the address is the host name where one is
/// set, else the name itself; the port is the one set, else the default. A port
/// of zero is refused, then a missing user.
pub open spec fn hop_for(h: HostView) -> Result<HopView, ConnectError> {
    let port = match h.params.port {
        Some(p) => p,
        None => DEFAULT_PORT,
    };
    if port == 0 {
        Err(ConnectError::InvalidPort)
    } else {
        match h.params.user {
            None => Err(ConnectError::MissingUser),
            Some(u) => Ok(
                HopView {
                    address: match h.params.hostname {
                        Some(a) => a,
                        None => h.host,
                    },
                    port,
                    user: u,
                    identity_file: h.params.identity_file,
                },
            ),
        }
    }
}

/// The route for resolved parameters `h`: direct where they name no bastion;
/// else through the bastion that the name resolves to. The bastion's own hop is
/// checked before the target's.
pub open spec fn route_for(entries: Seq<EntryView>, h: HostView) -> Result<RouteView, ConnectError> {
    match h.params.proxy_jump {
        None => match hop_for(h) {
            Ok(t) => Ok(RouteView::Direct(t)),
            Err(e) => Err(e),
        },
        Some(b) => match resolve(entries, b) {
            None => Err(ConnectError::NoMatchingHost),
            Some(bh) => match hop_for(bh) {
                Err(e) => Err(e),
                Ok(bastion) => match hop_for(h) {
                    Err(e) => Err(e),
                    Ok(target) => Ok(RouteView::ViaBastion { bastion, target }),
                },
            },
        },
    }
}

/// The route to the host called `name`: refused where no entry matches it.
pub open spec fn route_to(entries: Seq<EntryView>, name: Seq<char>) -> Result<RouteView, ConnectError> {
    match resolve(entries, name) {
        None => Err(ConnectError::NoMatchingHost),
        Some(h) => route_for(entries, h),
    }
}

pub open spec fn route_result_view(r: Result<Route, ConnectError>) -> Result<RouteView, ConnectError> {
    match r {
        Ok(route) => Ok(route@),
        Err(e) => Err(e),
    }
}

/// The hop for the resolved parameters `h`.
pub fn hop_for_host(h: &SshHost) -> (r: Result<Hop, ConnectError>)
    ensures
        match r {
            Ok(hop) => hop_for(h@) == Ok::<HopView, ConnectError>(hop@),
            Err(e) => hop_for(h@) == Err::<HopView, ConnectError>(e),
        },
{
    let port = match h.port {
        Some(p) => p,
        None => DEFAULT_PORT,
    };
    if port == 0 {
        return Err(ConnectError::InvalidPort);
    }
    match &h.user {
        None => Err(ConnectError::MissingUser),
        Some(u) => {
            let address = match &h.hostname {
                Some(a) => a.clone(),
                None => h.host.clone(),
            };
            Ok(Hop { address, port, user: u.clone(), identity_file: copy_opt(&h.identity_file) })
        },
    }
}

/// The route for the resolved parameters `h`, looking up a bastion it names in `config`.
pub fn route_for_host(config: &SshConfig, h: &SshHost) -> (r: Result<Route, ConnectError>)
    ensures
        route_result_view(r) == route_for(config@, h@),
{
    match &h.proxy_jump {
        None => match hop_for_host(h) {
            Ok(t) => Ok(Route::Direct(t)),
            Err(e) => Err(e),
        },
        Some(b) => {
            let found = config.get_host(b.as_str());
            match found {
                None => Err(ConnectError::NoMatchingHost),
                Some(bh) => {
                    assert(opt_host_view(found) == resolve(config@, b@));
                    match hop_for_host(&bh) {
                        Err(e) => Err(e),
                        Ok(bastion) => match hop_for_host(h) {
                            Err(e) => Err(e),
                            Ok(target) => Ok(Route::ViaBastion { bastion, target }),
                        },
                    }
                },
            }
        },
    }
}

/// The route to the host called `name`, from the configuration alone.
pub fn plan_route(config: &SshConfig, name: &str) -> (r: Result<Route, ConnectError>)
    ensures
        route_result_view(r) == route_to(config@, name@),
{
    match config.get_host(name) {
        None => Err(ConnectError::NoMatchingHost),
        Some(h) => route_for_host(config, &h),
    }
}

} // verus!
