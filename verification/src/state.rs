//! The connection registry: a map from connection id to the record of the
//! session supervising that connection.  The registry decides what each
//! open, close or send request means for the map; the caller performs the
//! outside work those decisions ask for (spawning a supervisor, stopping one
//! and waiting for it) and names supervisors and command channels by opaque
//! tokens.

use vstd::prelude::*;
use crate::port_settings::PortSettings;
use crate::text::str_eq;

verus! {

/// Connection info stored in the registry.
pub struct Connection {
    /// Serial port name.
    pub name: String,
    /// Serial port connection speed.
    pub baud_rate: u32,
    /// Token of the supervisor running this connection, while one runs.
    pub bg_handle: Option<u64>,
    /// Token of the command channel to that supervisor, while one runs.
    pub bg_coms: Option<u64>,
}

/// No two entries share a connection id.
pub open spec fn unique_keys(s: Seq<(String, Connection)>) -> bool {
    forall|i: int, j: int| 0 <= i < j < s.len() ==> s[i].0@ != s[j].0@
}

/// The map an association list stands for; later entries would win, though a
/// well-formed registry never repeats a key.
pub open spec fn as_map_of(s: Seq<(String, Connection)>) -> Map<Seq<char>, Connection>
    decreases s.len(),
{
    if s.len() == 0 {
        Map::empty()
    } else {
        as_map_of(s.drop_last()).insert(s.last().0@, s.last().1)
    }
}

proof fn lemma_as_map_contains(s: Seq<(String, Connection)>, k: Seq<char>)
    ensures
        as_map_of(s).contains_key(k) <==> exists|i: int| 0 <= i < s.len() && s[i].0@ == k,
    decreases s.len(),
{
    if s.len() > 0 {
        lemma_as_map_contains(s.drop_last(), k);
        if as_map_of(s).contains_key(k) {
            if s.last().0@ == k {
                assert(s[s.len() - 1].0@ == k);
            } else {
                let i = choose|i: int| 0 <= i < s.drop_last().len() && s.drop_last()[i].0@ == k;
                assert(s[i].0@ == k);
            }
        }
        if exists|i: int| 0 <= i < s.len() && s[i].0@ == k {
            let i = choose|i: int| 0 <= i < s.len() && s[i].0@ == k;
            if i < s.len() - 1 {
                assert(s.drop_last()[i].0@ == k);
            }
        }
    }
}

proof fn lemma_as_map_at(s: Seq<(String, Connection)>, i: int)
    requires
        unique_keys(s),
        0 <= i < s.len(),
    ensures
        as_map_of(s).contains_key(s[i].0@),
        as_map_of(s)[s[i].0@] == s[i].1,
    decreases s.len(),
{
    if i < s.len() - 1 {
        assert(unique_keys(s.drop_last()));
        lemma_as_map_at(s.drop_last(), i);
        assert(s.drop_last()[i] == s[i]);
        assert(s.last().0@ != s[i].0@);
    }
}

proof fn lemma_as_map_update(s: Seq<(String, Connection)>, i: int, p: (String, Connection))
    requires
        unique_keys(s),
        0 <= i < s.len(),
        p.0@ == s[i].0@,
    ensures
        as_map_of(s.update(i, p)) == as_map_of(s).insert(p.0@, p.1),
        unique_keys(s.update(i, p)),
    decreases s.len(),
{
    if i == s.len() - 1 {
        assert(s.update(i, p).drop_last() =~= s.drop_last());
        assert(s.update(i, p).last() == p);
        assert(as_map_of(s.drop_last()).insert(p.0@, p.1) =~= as_map_of(s.drop_last()).insert(
            s.last().0@,
            s.last().1,
        ).insert(p.0@, p.1));
    } else {
        assert(unique_keys(s.drop_last()));
        lemma_as_map_update(s.drop_last(), i, p);
        assert(s.update(i, p).drop_last() =~= s.drop_last().update(i, p));
        assert(s.update(i, p).last() == s.last());
        assert(s.last().0@ != p.0@);
        assert(as_map_of(s.drop_last()).insert(p.0@, p.1).insert(s.last().0@, s.last().1)
            =~= as_map_of(s.drop_last()).insert(s.last().0@, s.last().1).insert(p.0@, p.1));
    }
}

/// The registry of serial connections, keyed by connection id.
pub struct AppData {
    connections: Vec<(String, Connection)>,
}

impl AppData {
    /// The registry as a map from connection id to its record.
    pub closed spec fn reg(&self) -> Map<Seq<char>, Connection> {
        as_map_of(self.connections@)
    }

    /// Each connection id has at most one entry.
    pub closed spec fn wf(&self) -> bool {
        unique_keys(self.connections@)
    }

    pub fn new() -> (r: AppData)
        ensures
            r.wf(),
            r.reg() == Map::<Seq<char>, Connection>::empty(),
    {
        AppData { connections: Vec::new() }
    }

    fn find_index(&self, id: &str) -> (r: Option<usize>)
        ensures
            match r {
                Some(i) => i < self.connections@.len() && self.connections@[i as int].0@ == id@,
                None => forall|j: int|
                    0 <= j < self.connections@.len() ==> self.connections@[j].0@ != id@,
            },
    {
        let mut i: usize = 0;
        while i < self.connections.len()
            invariant
                i <= self.connections@.len(),
                forall|j: int| 0 <= j < i ==> self.connections@[j].0@ != id@,
            decreases self.connections@.len() - i,
        {
            if str_eq(self.connections[i].0.as_str(), id) {
                return Some(i);
            }
            i += 1;
        }
        None
    }

    /// Closes the connection with the given id.  On an id with no entry the
    /// call succeeds and asks for nothing.  On an entry with a running
    /// supervisor, the entry's tokens are cleared and the supervisor's token
    /// is returned: the caller must stop that supervisor and wait for it.  On
    /// an entry with no running supervisor the call fails.
    pub fn close_connection(&mut self, id: &str) -> (r: Result<Option<u64>, String>)
        requires
            old(self).wf(),
        ensures
            final(self).wf(),
            !old(self).reg().contains_key(id@) ==> r is Ok && r->Ok_0 is None && final(self).reg()
                == old(self).reg(),
            old(self).reg().contains_key(id@) && old(self).reg()[id@].bg_handle is Some ==> {
                &&& r is Ok
                &&& r->Ok_0 == old(self).reg()[id@].bg_handle
                &&& final(self).reg().dom() == old(self).reg().dom()
                &&& final(self).reg()[id@].name == old(self).reg()[id@].name
                &&& final(self).reg()[id@].baud_rate == old(self).reg()[id@].baud_rate
                &&& final(self).reg()[id@].bg_handle is None
                &&& final(self).reg()[id@].bg_coms is None
                &&& forall|k: Seq<char>|
                    old(self).reg().dom().contains(k) && k != id@ ==> final(self).reg()[k] == old(
                        self,
                    ).reg()[k]
            },
            old(self).reg().contains_key(id@) && old(self).reg()[id@].bg_handle is None ==> r is Err
                && r->Err_0@ == "No active connection to close"@ && final(self).reg() == old(
                self,
            ).reg(),
    {
        proof {
            lemma_as_map_contains(self.connections@, id@);
        }
        match self.find_index(id) {
            None => Ok(None),
            Some(i) => {
                proof {
                    lemma_as_map_at(self.connections@, i as int);
                }
                let handle_opt = self.connections[i].1.bg_handle;
                match handle_opt {
                    Some(h) => {
                        let mut pair = self.connections.remove(i);
                        pair.1.bg_handle = None;
                        pair.1.bg_coms = None;
                        let ghost newp = pair;
                        self.connections.insert(i, pair);
                        proof {
                            assert(self.connections@ =~= old(self).connections@.update(
                                i as int,
                                newp,
                            ));
                            lemma_as_map_update(old(self).connections@, i as int, newp);
                            assert(self.reg().dom() =~= old(self).reg().dom());
                        }
                        Ok(Some(h))
                    },
                    None => Err(String::from_str("No active connection to close")),
                }
            },
        }
    }

    /// Registers a connection under `settings.id`, closing any previous one
    /// first (a close failure is ignored, as a fresh supervisor replaces the
    /// entry either way).  The caller supplies the tokens of the supervisor
    /// and command channel it is about to spawn, and must stop the returned
    /// previous supervisor, if any.
    pub fn open_connection(&mut self, settings: PortSettings, handle: u64, coms: u64) -> (r: Result<
        Option<u64>,
        String,
    >)
        requires
            old(self).wf(),
        ensures
            final(self).wf(),
            r is Ok,
            r->Ok_0 == (if old(self).reg().contains_key(settings.id@) {
                old(self).reg()[settings.id@].bg_handle
            } else {
                None::<u64>
            }),
            final(self).reg().dom() == old(self).reg().dom().insert(settings.id@),
            final(self).reg()[settings.id@].name == settings.name,
            final(self).reg()[settings.id@].baud_rate == settings.baud_rate,
            final(self).reg()[settings.id@].bg_handle == Some(handle),
            final(self).reg()[settings.id@].bg_coms == Some(coms),
            forall|k: Seq<char>|
                old(self).reg().dom().contains(k) && k != settings.id@ ==> final(self).reg()[k]
                    == old(self).reg()[k],
    {
        let prev = match self.close_connection(settings.id.as_str()) {
            Ok(p) => p,
            Err(_) => None,
        };
        let ghost s1 = self.connections@;
        let conn = Connection {
            name: settings.name,
            baud_rate: settings.baud_rate,
            bg_handle: Some(handle),
            bg_coms: Some(coms),
        };
        proof {
            lemma_as_map_contains(s1, settings.id@);
        }
        match self.find_index(settings.id.as_str()) {
            Some(i) => {
                let pair = (settings.id, conn);
                let ghost newp = pair;
                let _ = self.connections.remove(i);
                self.connections.insert(i, pair);
                proof {
                    assert(self.connections@ =~= s1.update(i as int, newp));
                    lemma_as_map_update(s1, i as int, newp);
                    assert(self.reg().dom() =~= old(self).reg().dom().insert(settings.id@));
                }
                Ok(prev)
            },
            None => {
                let pair = (settings.id, conn);
                let ghost newp = pair;
                self.connections.push(pair);
                proof {
                    assert(self.connections@.drop_last() =~= s1);
                    assert(self.reg() == as_map_of(s1).insert(newp.0@, newp.1));
                    assert(unique_keys(self.connections@));
                    assert(self.reg().dom() =~= old(self).reg().dom().insert(settings.id@));
                }
                Ok(prev)
            },
        }
    }

    /// The command-channel token for the given id.  An id with no entry gives
    /// success with nothing to do; an entry whose session is not running
    /// fails.
    pub fn sender_for(&self, id: &str) -> (r: Result<Option<u64>, String>)
        requires
            self.wf(),
        ensures
            !self.reg().contains_key(id@) ==> r is Ok && r->Ok_0 is None,
            self.reg().contains_key(id@) && self.reg()[id@].bg_coms is Some ==> r is Ok && r->Ok_0
                == self.reg()[id@].bg_coms,
            self.reg().contains_key(id@) && self.reg()[id@].bg_coms is None ==> r is Err
                && r->Err_0@ == "Serial port not currently connected."@,
    {
        proof {
            lemma_as_map_contains(self.connections@, id@);
        }
        match self.find_index(id) {
            None => Ok(None),
            Some(i) => {
                proof {
                    lemma_as_map_at(self.connections@, i as int);
                }
                match self.connections[i].1.bg_coms {
                    Some(c) => Ok(Some(c)),
                    None => Err(String::from_str("Serial port not currently connected.")),
                }
            },
        }
    }
}

} // verus!
