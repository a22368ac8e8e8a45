//! The connection registry: at most one live connection per host, idempotent
//! connect, unconditional disconnect.  The registry records which hosts hold a
//! live session; opening the transport itself is the caller's side of the
//! contract, performed exactly when the registry asks for it.

use vstd::prelude::*;

verus! {

use crate::error::SftpError;

/// What a connect request must do next: establish a fresh connection and
/// authenticate, or nothing, because the host is already connected.
#[derive(Debug, PartialEq, Eq, Structural)]
pub enum ConnectAction {
    Establish,
    AlreadyConnected,
}

/// The set of hosts with a live connection, each held at most once.
pub struct ConnectionRegistry {
    hosts: Vec<String>,
}

impl View for ConnectionRegistry {
    type V = Set<Seq<char>>;

    closed spec fn view(&self) -> Set<Seq<char>> {
        self.hosts@.map_values(|h: String| h@).to_set()
    }
}

impl ConnectionRegistry {
    /// Each host is recorded at most once.
    pub closed spec fn wf(&self) -> bool {
        forall|i: int, j: int|
            0 <= i < j < self.hosts@.len() ==> self.hosts@[i]@ != self.hosts@[j]@
    }

    /// A fresh registry with no connections.
    pub fn new() -> (r: Self)
        ensures
            r.wf(),
            r@ == Set::<Seq<char>>::empty(),
    {
        let r = ConnectionRegistry { hosts: Vec::new() };
        proof {
            assert(r@ =~= Set::<Seq<char>>::empty());
        }
        r
    }

    /// The index holding `host`, if any.
    fn find(&self, host: &String) -> (r: Option<usize>)
        ensures
            match r {
                Some(i) => i < self.hosts@.len() && self.hosts@[i as int]@ == host@,
                None => forall|i: int| 0 <= i < self.hosts@.len() ==> self.hosts@[i]@ != host@,
            },
    {
        let n = self.hosts.len();
        let mut i: usize = 0;
        while i < n
            invariant
                i <= n,
                n == self.hosts@.len(),
                forall|k: int| 0 <= k < i ==> self.hosts@[k]@ != host@,
            decreases n - i,
        {
            if self.hosts[i] == *host {
                return Some(i);
            }
            i = i + 1;
        }
        None
    }

    /// Whether `host` has a live connection.
    pub fn is_connected(&self, host: &String) -> (r: bool)
        ensures
            r == self@.contains(host@),
    {
        let found = self.find(host);
        proof {
            let m = self.hosts@.map_values(|h: String| h@);
            match found {
                Some(i) => {
                    assert(m[i as int] == host@);
                    assert(m.contains(host@));
                },
                None => {
                    if self@.contains(host@) {
                        let k = choose|k: int| 0 <= k < m.len() && m[k] == host@;
                        assert(self.hosts@[k]@ == host@);
                    }
                },
            }
        }
        found.is_some()
    }

    /// What a connect request for `host` must do: a host with a live entry is
    /// a no-op success, any other host needs one establishment (and so one
    /// authentication sequence).
    pub fn connect_action(&self, host: &String) -> (a: ConnectAction)
        ensures
            a == ConnectAction::Establish <==> !self@.contains(host@),
    {
        if self.is_connected(host) {
            ConnectAction::AlreadyConnected
        } else {
            ConnectAction::Establish
        }
    }

    /// Records that `host` now holds a live connection.
    pub fn note_connected(&mut self, host: String)
        requires
            old(self).wf(),
        ensures
            final(self).wf(),
            final(self)@ == old(self)@.insert(host@),
    {
        let found = self.find(&host);
        match found {
            Some(i) => {
                proof {
                    let m = self.hosts@.map_values(|h: String| h@);
                    assert(m[i as int] == host@);
                    assert(m.contains(host@));
                    assert(self@ =~= old(self)@.insert(host@));
                }
            },
            None => {
                let ghost before = self.hosts@;
                self.hosts.push(host);
                proof {
                    let m0 = before.map_values(|h: String| h@);
                    let m1 = self.hosts@.map_values(|h: String| h@);
                    assert forall|x: Seq<char>| m1.contains(x) implies m0.contains(x) || x
                        == host@ by {
                        let k = choose|k: int| 0 <= k < m1.len() && m1[k] == x;
                        if k < before.len() {
                            assert(m0[k] == x);
                        }
                    }
                    assert forall|x: Seq<char>| m0.contains(x) implies m1.contains(x) by {
                        let k = choose|k: int| 0 <= k < m0.len() && m0[k] == x;
                        assert(m1[k] == x);
                    }
                    assert(m1.contains(host@)) by {
                        assert(m1[before.len() as int] == host@);
                    }
                    assert(self@ =~= old(self)@.insert(host@));
                }
            },
        }
    }

    /// Removes `host`'s entry unconditionally; removing an unknown host
    /// changes nothing.
    pub fn note_disconnected(&mut self, host: &String)
        requires
            old(self).wf(),
        ensures
            final(self).wf(),
            final(self)@ == old(self)@.remove(host@),
    {
        let found = self.find(host);
        match found {
            None => {
                proof {
                    let m = self.hosts@.map_values(|h: String| h@);
                    if old(self)@.contains(host@) {
                        let k = choose|k: int| 0 <= k < m.len() && m[k] == host@;
                        assert(self.hosts@[k]@ == host@);
                    }
                    assert(self@ =~= old(self)@.remove(host@));
                }
            },
            Some(i) => {
                let ghost before = self.hosts@;
                let ghost ii = i as int;
                self.hosts.remove(i);
                proof {
                    let m0 = before.map_values(|h: String| h@);
                    let m1 = self.hosts@.map_values(|h: String| h@);
                    assert forall|x: Seq<char>| m1.contains(x) implies m0.contains(x) && x
                        != host@ by {
                        let k = choose|k: int| 0 <= k < m1.len() && m1[k] == x;
                        if k < ii {
                            assert(m0[k] == x);
                            assert(before[k]@ != before[ii]@);
                        } else {
                            assert(m0[k + 1] == x);
                            assert(before[k + 1]@ != before[ii]@);
                        }
                    }
                    assert forall|x: Seq<char>| m0.contains(x) && x != host@ implies m1.contains(
                        x,
                    ) by {
                        let k = choose|k: int| 0 <= k < m0.len() && m0[k] == x;
                        if k < ii {
                            assert(m1[k] == x);
                        } else {
                            assert(k != ii);
                            assert(m1[k - 1] == x);
                        }
                    }
                    assert(self@ =~= old(self)@.remove(host@));
                }
            },
        }
    }

    /// The guard every operation applies first: an operation against a host
    /// with no live connection fails with a "not connected" error rather than
    /// implicitly connecting.
    pub fn require_connected(&self, host: &String) -> (r: Result<(), SftpError>)
        ensures
            r is Ok <==> self@.contains(host@),
            r matches Err(e) ==> e matches SftpError::NotConnected(m) && m@
                == "Not connected to this device"@,
    {
        if self.is_connected(host) {
            Ok(())
        } else {
            Err(SftpError::NotConnected("Not connected to this device".to_owned()))
        }
    }
}

/// Connecting is idempotent: once a connect has recorded a host, a second
/// connect request for the same host finds it already connected, so exactly
/// one authentication sequence is performed for the pair of calls.
pub proof fn lemma_connect_idempotent(connected: Set<Seq<char>>, host: Seq<char>)
    ensures
        connected.insert(host).contains(host),
{
}

} // verus!
