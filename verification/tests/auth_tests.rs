use sftp_engine::auth::{
    choose_username, default_key_paths, exhausted_error, home_for_keys, AuthAttempt, Authenticator,
};
use sftp_engine::error::SftpError;

#[test]
fn agent_identities_come_before_key_files() {
    let mut auth = Authenticator::new(2, 2);
    assert_eq!(auth.next_attempt(), Some(AuthAttempt::AgentIdentity(0)));
    assert_eq!(auth.next_attempt(), Some(AuthAttempt::AgentIdentity(1)));
    assert_eq!(auth.next_attempt(), Some(AuthAttempt::KeyFile(0)));
    assert_eq!(auth.next_attempt(), Some(AuthAttempt::KeyFile(1)));
    assert_eq!(auth.next_attempt(), None);
    assert_eq!(auth.next_attempt(), None);
}

#[test]
fn without_agent_key_files_are_probed_directly() {
    let mut auth = Authenticator::new(0, 2);
    assert_eq!(auth.next_attempt(), Some(AuthAttempt::KeyFile(0)));
    assert_eq!(auth.next_attempt(), Some(AuthAttempt::KeyFile(1)));
    assert_eq!(auth.next_attempt(), None);
}

#[test]
fn conventional_key_paths_under_home() {
    let paths = default_key_paths("/home/u");
    assert_eq!(paths.len(), 2);
    assert_eq!(paths[0], "/home/u/.ssh/id_ed25519".to_string());
    assert_eq!(paths[1], "/home/u/.ssh/id_rsa".to_string());
}

#[test]
fn key_home_defaults_to_root_home() {
    assert_eq!(home_for_keys(None), "/root".to_string());
    assert_eq!(home_for_keys(Some("/home/u".to_string())), "/home/u".to_string());
}

#[test]
fn username_defaults_follow_caller_then_environment() {
    assert_eq!(
        choose_username(Some("alice".to_string()), Some("bob".to_string())),
        "alice".to_string()
    );
    assert_eq!(choose_username(None, Some("bob".to_string())), "bob".to_string());
    assert_eq!(choose_username(None, None), "root".to_string());
}

#[test]
fn exhaustion_names_both_mechanisms() {
    match exhausted_error() {
        SftpError::Authentication(m) => {
            assert_eq!(
                m,
                "Authentication failed. Ensure SSH agent is running with your keys loaded, \
                 or that ~/.ssh/id_ed25519 or ~/.ssh/id_rsa exists."
                    .to_string()
            );
        },
        _ => panic!("expected an Authentication error"),
    }
}

#[test]
fn error_messages_carry_stage_labels() {
    assert_eq!(
        SftpError::Connection("refused".to_string()).message(),
        "Connection failed: refused".to_string()
    );
    assert_eq!(
        SftpError::Authentication("no key".to_string()).message(),
        "Authentication failed: no key".to_string()
    );
    assert_eq!(
        SftpError::SshAgent("no socket".to_string()).message(),
        "SSH agent error: no socket".to_string()
    );
    assert_eq!(
        SftpError::SftpOperation("stat failed".to_string()).message(),
        "SFTP operation failed: stat failed".to_string()
    );
    assert_eq!(
        SftpError::NotConnected("host".to_string()).message(),
        "Not connected: host".to_string()
    );
    assert_eq!(SftpError::TransferCancelled.message(), "Transfer cancelled".to_string());
    assert_eq!(SftpError::Io("disk full".to_string()).message(), "IO error: disk full".to_string());
    assert_eq!(
        SftpError::Timeout("SSH connection timed out".to_string()).message(),
        "Timeout: SSH connection timed out".to_string()
    );
}
