use sftui::auth::{first_auth_method, next_auth_step, public_key_path, AuthMethod, AuthStep};
use sftui::config::{SshConfig, SshHost};
use sftui::connect::{plan_route, route_for_host, ConnectError, Route};
use sftui::relay::{ReadOutcome, RelayAction, RelayDirection, RelayEnd, RelayPhase, WriteOutcome, RELAY_BUFFER_SIZE};
use sftui::tunnel::{Tunnel, TunnelState};

fn config_of(text: &str) -> SshConfig {
    let mut c = SshConfig::new();
    c.parse_config(text);
    c
}

#[test]
fn test_proxy_jump_config() {
    let host_with_proxy = SshHost {
        host: "target-host".to_string(),
        hostname: Some("10.0.0.1".to_string()),
        user: Some("user".to_string()),
        port: Some(22),
        identity_file: None,
        proxy_jump: Some("bastion-host".to_string()),
    };

    assert!(host_with_proxy.proxy_jump.is_some());
    assert_eq!(host_with_proxy.proxy_jump.as_ref().unwrap(), "bastion-host");
}

#[test]
fn test_port_validation() {
    let host_config = SshHost {
        host: "test".to_string(),
        hostname: Some("test.example.com".to_string()),
        user: Some("user".to_string()),
        port: Some(0),
        identity_file: None,
        proxy_jump: None,
    };

    assert_eq!(host_config.port.unwrap_or(22), 0);
}

#[test]
fn port_zero_is_refused_for_a_tunnel() {
    assert_eq!(Tunnel::establish("target", 0).unwrap_err(), ConnectError::InvalidPort);
    let t = Tunnel::establish("target", 22).unwrap();
    assert_eq!(t.host(), "target");
    assert_eq!(t.port(), 22);
    assert_eq!(t.state(), TunnelState::AwaitingChannel);
}

#[test]
fn tunnel_lifecycle() {
    let mut t = Tunnel::establish("db", 5432).unwrap();
    assert!(t.channel_opened(true).is_ok());
    assert_eq!(t.state(), TunnelState::Relaying);
    assert_eq!(t.direction_ended(RelayEnd::IoError), Some(ConnectError::RelayIoError));
    assert_eq!(t.state(), TunnelState::Ended);

    let mut refused = Tunnel::establish("db", 5432).unwrap();
    assert_eq!(refused.channel_opened(false), Err(ConnectError::TunnelSetupFailure));
    assert_eq!(refused.state(), TunnelState::Ended);

    let mut closed = Tunnel::establish("db", 5432).unwrap();
    closed.channel_opened(true).unwrap();
    assert_eq!(closed.direction_ended(RelayEnd::Closed), None);
}

#[test]
fn port_zero_target_fails_before_connecting() {
    let host = SshHost {
        host: "t".to_string(),
        hostname: None,
        user: Some("u".to_string()),
        port: Some(0),
        identity_file: None,
        proxy_jump: Some("b".to_string()),
    };
    let config = config_of("Host b\n User bu\n");
    assert_eq!(route_for_host(&config, &host).unwrap_err(), ConnectError::InvalidPort);
}

#[test]
fn unmatched_name_has_no_route() {
    let config = config_of("Host web\n User w\n");
    assert_eq!(plan_route(&config, "unrelated").unwrap_err(), ConnectError::NoMatchingHost);
    let catch_all = config_of("Host * \n User default_user");
    match plan_route(&catch_all, "unrelated").unwrap() {
        Route::Direct(hop) => {
            assert_eq!(hop.user, "default_user");
            assert_eq!(hop.address, "unrelated");
            assert_eq!(hop.port, 22);
        }
        other => panic!("unexpected route {:?}", other),
    }
}

#[test]
fn bastion_route() {
    let config = config_of(
        "Host inner\n HostName 10.0.0.5\n User app\n Port 2200\n ProxyJump jump\n IdentityFile ~/.ssh/id\nHost jump\n HostName bastion.example.com\n User ops\n",
    );
    match plan_route(&config, "inner").unwrap() {
        Route::ViaBastion { bastion, target } => {
            assert_eq!(bastion.address, "bastion.example.com");
            assert_eq!(bastion.user, "ops");
            assert_eq!(bastion.port, 22);
            assert_eq!(target.address, "10.0.0.5");
            assert_eq!(target.port, 2200);
            assert_eq!(target.user, "app");
            assert_eq!(target.identity_file, Some("~/.ssh/id".to_string()));
        }
        other => panic!("unexpected route {:?}", other),
    }
}

#[test]
fn route_errors() {
    let no_user = config_of("Host a\n HostName x\n");
    assert_eq!(plan_route(&no_user, "a").unwrap_err(), ConnectError::MissingUser);
    let missing_bastion = config_of("Host a\n User u\n ProxyJump nowhere\n");
    assert_eq!(plan_route(&missing_bastion, "a").unwrap_err(), ConnectError::NoMatchingHost);
    let bastion_no_user = config_of("Host a\n User u\n ProxyJump j\nHost j\n HostName jj\n");
    assert_eq!(plan_route(&bastion_no_user, "a").unwrap_err(), ConnectError::MissingUser);
}

#[test]
fn auth_policy() {
    assert_eq!(public_key_path("/home/u/.ssh/id_ed25519"), "/home/u/.ssh/id_ed25519.pub");
    match first_auth_method(&Some("/k".to_string()), true) {
        AuthMethod::KeyFile { private_key, public_key } => {
            assert_eq!(private_key, "/k");
            assert_eq!(public_key, Some("/k.pub".to_string()));
        }
        AuthMethod::Agent => panic!("expected a key file"),
    }
    match first_auth_method(&Some("/k".to_string()), false) {
        AuthMethod::KeyFile { public_key, .. } => assert_eq!(public_key, None),
        AuthMethod::Agent => panic!("expected a key file"),
    }
    assert!(matches!(first_auth_method(&None, true), AuthMethod::Agent));

    let key = AuthMethod::KeyFile { private_key: "/k".to_string(), public_key: None };
    assert!(matches!(next_auth_step(&key, false), AuthStep::Try(AuthMethod::Agent)));
    assert!(matches!(next_auth_step(&key, true), AuthStep::Authenticated));
    assert!(matches!(next_auth_step(&AuthMethod::Agent, false), AuthStep::Failed));
    assert!(matches!(next_auth_step(&AuthMethod::Agent, true), AuthStep::Authenticated));
}

/// Drives one relay direction over `source`, read in buffer-sized pieces, and
/// returns what it wrote.
fn relay_through(source: &[u8]) -> Vec<u8> {
    let mut dir = RelayDirection::new();
    let mut sink: Vec<u8> = Vec::new();
    let mut offset = 0;
    let mut blocked_once = false;
    loop {
        assert_eq!(dir.phase(), RelayPhase::Reading);
        let mut buffer = [0u8; RELAY_BUFFER_SIZE];
        let outcome = if !blocked_once {
            blocked_once = true;
            ReadOutcome::WouldBlock
        } else {
            let n = std::cmp::min(RELAY_BUFFER_SIZE, source.len() - offset);
            buffer[..n].copy_from_slice(&source[offset..offset + n]);
            offset += n;
            ReadOutcome::Bytes(n)
        };
        match dir.on_read(outcome, &buffer) {
            RelayAction::Write(data) => {
                sink.extend_from_slice(&data);
                assert!(matches!(dir.on_write(WriteOutcome::Written), RelayAction::Read));
            }
            RelayAction::Backoff => {}
            RelayAction::Stop(end) => {
                assert_eq!(end, RelayEnd::Closed);
                assert_eq!(dir.phase(), RelayPhase::Ended(RelayEnd::Closed));
                return sink;
            }
            RelayAction::Read => panic!("a read decides a write, a back-off or a stop"),
        }
    }
}

#[test]
fn relay_round_trip_across_buffer_boundary() {
    for len in [0usize, 1, RELAY_BUFFER_SIZE - 1, RELAY_BUFFER_SIZE, RELAY_BUFFER_SIZE + 1, 3 * RELAY_BUFFER_SIZE + 7] {
        let outbound: Vec<u8> = (0..len).map(|i| (i % 251) as u8).collect();
        let inbound: Vec<u8> = (0..len).map(|i| (i % 13) as u8 ^ 0x5a).collect();
        assert_eq!(relay_through(&outbound), outbound);
        assert_eq!(relay_through(&inbound), inbound);
    }
}

#[test]
fn relay_errors_end_the_direction() {
    let mut dir = RelayDirection::new();
    assert!(matches!(dir.on_read(ReadOutcome::Failed, &[]), RelayAction::Stop(RelayEnd::IoError)));
    let mut dir = RelayDirection::new();
    match dir.on_read(ReadOutcome::Bytes(2), &[7, 8, 9]) {
        RelayAction::Write(data) => assert_eq!(data, vec![7, 8]),
        other => panic!("unexpected action {:?}", other),
    }
    assert!(matches!(dir.on_write(WriteOutcome::Failed), RelayAction::Stop(RelayEnd::IoError)));
    assert_eq!(dir.phase(), RelayPhase::Ended(RelayEnd::IoError));
}
