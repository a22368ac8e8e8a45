//! The authenticator's fallback protocol.  Signing and the network handshake
//! live with the transport; what is decided here is the candidate order —
//! every identity the agent offers first, then each conventional on-disk key
//! — together with the acting-identity defaults and the definitive error
//! once both mechanisms are exhausted.  The first successful attempt wins:
//! the driver stops calling for candidates as soon as one succeeds.

use vstd::prelude::*;

verus! {

use vstd::string::StringExecFns;
use crate::error::SftpError;

/// One authentication attempt in the fixed candidate order.
#[derive(Clone, Copy, Debug, PartialEq, Eq, Structural)]
pub enum AuthAttempt {
    /// Try the agent's identity at this position against the server.
    AgentIdentity(usize),
    /// Load the conventional private-key file at this position, unencrypted,
    /// and try it.
    KeyFile(usize),
}

/// The candidate at position `k` of the order: the agent identities in their
/// order, then the key files in theirs, then exhaustion.
pub open spec fn attempt_at(agent_count: int, key_count: int, k: int) -> Option<AuthAttempt> {
    if k < agent_count {
        Some(AuthAttempt::AgentIdentity(k as usize))
    } else if k < agent_count + key_count {
        Some(AuthAttempt::KeyFile((k - agent_count) as usize))
    } else {
        None
    }
}

/// Enumerates the authentication candidates in the order the engine tries
/// them.
pub struct Authenticator {
    agent_count: usize,
    key_count: usize,
    issued: usize,
}

impl Authenticator {
    /// How many identities the agent offered (none when no agent socket is
    /// usable).
    pub closed spec fn agent_count_spec(&self) -> int {
        self.agent_count as int
    }

    /// How many conventional key files are probed after the agent.
    pub closed spec fn key_count_spec(&self) -> int {
        self.key_count as int
    }

    /// How many candidates have been handed out.
    pub closed spec fn issued_spec(&self) -> int {
        self.issued as int
    }

    pub closed spec fn wf(&self) -> bool {
        &&& self.agent_count + self.key_count <= usize::MAX
        &&& self.issued <= self.agent_count + self.key_count
    }

    /// A fresh candidate order over `agent_count` agent identities and
    /// `key_count` key files.
    pub fn new(agent_count: usize, key_count: usize) -> (r: Self)
        requires
            agent_count + key_count <= usize::MAX,
        ensures
            r.wf(),
            r.agent_count_spec() == agent_count,
            r.key_count_spec() == key_count,
            r.issued_spec() == 0,
    {
        Authenticator { agent_count, key_count, issued: 0 }
    }

    /// The next candidate to try, or nothing once both mechanisms are
    /// exhausted: the attempts come out in the fixed order, one per call.
    pub fn next_attempt(&mut self) -> (r: Option<AuthAttempt>)
        requires
            old(self).wf(),
        ensures
            final(self).wf(),
            final(self).agent_count_spec() == old(self).agent_count_spec(),
            final(self).key_count_spec() == old(self).key_count_spec(),
            r == attempt_at(
                old(self).agent_count_spec(),
                old(self).key_count_spec(),
                old(self).issued_spec(),
            ),
            r is Some ==> final(self).issued_spec() == old(self).issued_spec() + 1,
            r is None ==> final(self).issued_spec() == old(self).issued_spec(),
    {
        if self.issued < self.agent_count {
            let a = AuthAttempt::AgentIdentity(self.issued);
            self.issued = self.issued + 1;
            Some(a)
        } else if self.issued < self.agent_count + self.key_count {
            let a = AuthAttempt::KeyFile(self.issued - self.agent_count);
            self.issued = self.issued + 1;
            Some(a)
        } else {
            None
        }
    }
}

/// The conventional private-key files probed when the agent path yields
/// nothing: the ed25519 key, then the RSA key, under the user's home.
pub fn default_key_paths(home: &str) -> (r: Vec<String>)
    ensures
        r@.len() == 2,
        r@[0]@ == home@ + "/.ssh/id_ed25519"@,
        r@[1]@ == home@ + "/.ssh/id_rsa"@,
{
    let mut ed = home.to_owned();
    ed.append("/.ssh/id_ed25519");
    let mut rsa = home.to_owned();
    rsa.append("/.ssh/id_rsa");
    let mut r: Vec<String> = Vec::new();
    r.push(ed);
    r.push(rsa);
    r
}

/// The home directory used for the default key paths: the environment's
/// value, or the superuser's home when unset.
pub fn home_for_keys(env_home: Option<String>) -> (r: String)
    ensures
        match env_home {
            Some(h) => r@ == h@,
            None => r@ == "/root"@,
        },
{
    match env_home {
        Some(h) => h,
        None => "/root".to_owned(),
    }
}

/// The username an operation acts as: the caller's choice, else the invoking
/// environment's user, else the superuser.
pub fn choose_username(provided: Option<String>, env_user: Option<String>) -> (r: String)
    ensures
        r@ == (match provided {
            Some(u) => u@,
            None => match env_user {
                Some(eu) => eu@,
                None => "root"@,
            },
        }),
{
    match provided {
        Some(u) => u,
        None => match env_user {
            Some(eu) => eu,
            None => "root".to_owned(),
        },
    }
}

/// The definitive failure once the agent and every conventional key file
/// have been exhausted, naming both attempted mechanisms.
pub fn exhausted_error() -> (r: SftpError)
    ensures
        r matches SftpError::Authentication(m) && m@
            == "Authentication failed. Ensure SSH agent is running with your keys loaded, or that ~/.ssh/id_ed25519 or ~/.ssh/id_rsa exists."@,
{
    SftpError::Authentication(
        "Authentication failed. Ensure SSH agent is running with your keys loaded, or that ~/.ssh/id_ed25519 or ~/.ssh/id_rsa exists.".to_owned(),
    )
}

} // verus!
