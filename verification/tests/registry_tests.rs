use sftp_engine::connections::{ConnectAction, ConnectionRegistry};
use sftp_engine::error::SftpError;
use sftp_engine::transfers::{TransferDirection, TransferRegistry};

#[test]
fn connect_twice_authenticates_once() {
    let mut reg = ConnectionRegistry::new();
    let host = "100.64.0.7".to_string();
    // first connect: cold host, one establishment (and so one authentication
    // sequence) is required
    assert_eq!(reg.connect_action(&host), ConnectAction::Establish);
    reg.note_connected(host.clone());
    // second connect without an intervening disconnect: no-op success
    assert_eq!(reg.connect_action(&host), ConnectAction::AlreadyConnected);
    assert!(reg.is_connected(&host));
}

#[test]
fn disconnect_removes_entry_unconditionally() {
    let mut reg = ConnectionRegistry::new();
    let host = "10.0.0.9".to_string();
    reg.note_connected(host.clone());
    assert!(reg.is_connected(&host));
    reg.note_disconnected(&host);
    assert!(!reg.is_connected(&host));
    // disconnecting an unknown host is harmless
    reg.note_disconnected(&host);
    assert!(!reg.is_connected(&host));
    // and the host can be connected again afterwards
    assert_eq!(reg.connect_action(&host), ConnectAction::Establish);
}

#[test]
fn operations_on_unknown_host_fail_with_not_connected() {
    let reg = ConnectionRegistry::new();
    let host = "192.168.1.50".to_string();
    let err = reg.require_connected(&host).unwrap_err();
    match err {
        SftpError::NotConnected(m) => assert_eq!(m, "Not connected to this device".to_string()),
        _ => panic!("wrong error variant"),
    }
}

#[test]
fn registry_tracks_hosts_independently() {
    let mut reg = ConnectionRegistry::new();
    reg.note_connected("a".to_string());
    reg.note_connected("b".to_string());
    reg.note_disconnected(&"a".to_string());
    assert!(!reg.is_connected(&"a".to_string()));
    assert!(reg.is_connected(&"b".to_string()));
}

#[test]
fn cancel_flips_the_registered_token() {
    let mut reg = TransferRegistry::new();
    let id = "t-42".to_string();
    let token = reg.register(id.clone(), TransferDirection::Download);
    assert!(!token.is_cancelled());
    assert!(reg.cancel(&id));
    // the loop's own handle observes the signal: the registry kept a clone of
    // the same token
    assert!(token.is_cancelled());
}

#[test]
fn cancel_of_unknown_transfer_is_noop_success() {
    let reg = TransferRegistry::new();
    assert!(!reg.cancel(&"missing".to_string()));
}

#[test]
fn unregister_leaves_id_absent() {
    let mut reg = TransferRegistry::new();
    let id = "t-7".to_string();
    let _token = reg.register(id.clone(), TransferDirection::Upload);
    assert!(reg.contains(&id));
    assert_eq!(reg.direction_of(&id), Some(TransferDirection::Upload));
    reg.unregister(&id);
    assert!(!reg.contains(&id));
    assert_eq!(reg.direction_of(&id), None);
    // unregistering again changes nothing
    reg.unregister(&id);
    assert!(!reg.contains(&id));
}

#[test]
fn reregistering_an_id_replaces_its_job() {
    let mut reg = TransferRegistry::new();
    let id = "t-9".to_string();
    let stale = reg.register(id.clone(), TransferDirection::Download);
    let fresh = reg.register(id.clone(), TransferDirection::Upload);
    assert_eq!(reg.direction_of(&id), Some(TransferDirection::Upload));
    assert!(reg.cancel(&id));
    assert!(fresh.is_cancelled());
    assert!(!stale.is_cancelled());
}
