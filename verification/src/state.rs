//! The process-wide registries: the set of live connections and the map
//! from authenticated username to its connection.
//!
//! Connections are identified by the plain ids the acceptor hands out;
//! the socket handles themselves live with the unverified glue that owns
//! the I/O. The registries form one explicitly constructed service,
//! instantiated once per server process and passed by reference to every
//! component that needs it; the caller guards it with its lock.

use vstd::prelude::*;
use crate::conn_handler::ConnState;
use crate::conn_handler::ConnStateView;
use crate::textutils::str_equal;

verus! {

/// One entry of the user registry.
#[derive(Debug, PartialEq, Eq)]
pub struct UserEntry {
    pub username: String,
    pub conn: u64,
}

/// No username occurs twice.
pub open spec fn unique_usernames(entries: Seq<UserEntry>) -> bool {
    forall|i: int, j: int|
        0 <= i < j < entries.len() ==> (#[trigger] entries[i]).username@ != (
        #[trigger] entries[j]).username@
}

/// The map an entry sequence stands for: later entries win.
pub open spec fn user_map(entries: Seq<UserEntry>) -> Map<Seq<char>, u64>
    decreases entries.len(),
{
    if entries.len() == 0 {
        Map::empty()
    } else {
        user_map(entries.drop_last()).insert(entries.last().username@, entries.last().conn)
    }
}

/// Some entry carries the username `n`.
pub open spec fn entries_contain_name(entries: Seq<UserEntry>, n: Seq<char>) -> bool {
    exists|i: int| 0 <= i < entries.len() && (#[trigger] entries[i]).username@ == n
}

/// The connections of the entries, in registration order.
pub open spec fn user_conns(entries: Seq<UserEntry>) -> Seq<u64> {
    entries.map_values(|e: UserEntry| e.conn)
}

/// Some username is registered under the connection `c`.
pub open spec fn user_map_has_conn(m: Map<Seq<char>, u64>, c: u64) -> bool {
    exists|n: Seq<char>| #[trigger] m.dom().contains(n) && m[n] == c
}

/// For unique entries, [`user_map`] has exactly the entries' usernames as
/// its domain, each bound to that entry's connection.
pub proof fn lemma_user_map_facts(entries: Seq<UserEntry>)
    requires
        unique_usernames(entries),
    ensures
        user_map(entries).dom().finite(),
        user_map(entries).dom().len() == entries.len(),
        forall|n: Seq<char>|
            #[trigger] user_map(entries).dom().contains(n) <==> entries_contain_name(entries, n),
        forall|i: int|
            0 <= i < entries.len() ==> user_map(entries)[(#[trigger] entries[i]).username@]
                == entries[i].conn,
    decreases entries.len(),
{
    if entries.len() == 0 {
        assert(user_map(entries).dom() =~= Set::<Seq<char>>::empty());
    } else {
        let e = entries.drop_last();
        let last = entries.last();
        assert(unique_usernames(e)) by {
            assert(forall|i: int, j: int|
                0 <= i < j < e.len() ==> (#[trigger] e[i]).username@ != (#[trigger] e[j]).username@)
                by {
                assert(forall|i: int| 0 <= i < e.len() ==> e[i] == entries[i]);
            }
        }
        lemma_user_map_facts(e);
        assert(!user_map(e).dom().contains(last.username@)) by {
            if user_map(e).dom().contains(last.username@) {
                let i = choose|i: int|
                    0 <= i < e.len() && (#[trigger] e[i]).username@ == last.username@;
                assert(entries[i].username@ == entries[entries.len() - 1].username@);
            }
        }
        assert(user_map(entries).dom() =~= user_map(e).dom().insert(last.username@));
        assert forall|n: Seq<char>| #[trigger]
            user_map(entries).dom().contains(n) implies entries_contain_name(entries, n) by {
            if n == last.username@ {
                assert((entries[entries.len() - 1]).username@ == n);
            } else {
                let i = choose|i: int| 0 <= i < e.len() && (#[trigger] e[i]).username@ == n;
                assert((entries[i]).username@ == n);
            }
        }
        assert forall|n: Seq<char>| entries_contain_name(entries, n) implies user_map(
            entries,
        ).dom().contains(n) by {
            let i = choose|i: int|
                0 <= i < entries.len() && (#[trigger] entries[i]).username@ == n;
            if i < entries.len() - 1 {
                assert((e[i]).username@ == n);
            }
        }
        assert forall|i: int| 0 <= i < entries.len() implies user_map(entries)[(
        #[trigger] entries[i]).username@] == entries[i].conn by {
            if i < entries.len() - 1 {
                assert(e[i] == entries[i]);
                assert(entries[i].username@ != last.username@);
            }
        }
    }
}

/// The map from each authenticated username to its connection. At most
/// one entry per username: inserted on successful authentication, removed
/// exactly once at teardown.
pub struct UserRegistry {
    pub entries: Vec<UserEntry>,
}

impl View for UserRegistry {
    type V = Map<Seq<char>, u64>;

    open spec fn view(&self) -> Map<Seq<char>, u64> {
        user_map(self.entries@)
    }
}

impl UserRegistry {
    /// The registry's invariant: every username at most once.
    pub open spec fn wf(&self) -> bool {
        unique_usernames(self.entries@)
    }

    /// An empty registry.
    pub fn new() -> (r: UserRegistry)
        ensures
            r.wf(),
            r@ == Map::<Seq<char>, u64>::empty(),
    {
        let r = UserRegistry { entries: Vec::new() };
        proof {
            assert(r@ =~= Map::<Seq<char>, u64>::empty());
        }
        r
    }

    fn index_of(&self, username: &str) -> (r: Option<usize>)
        ensures
            match r {
                Some(i) => i < self.entries@.len() && self.entries@[i as int].username@
                    == username@,
                None => forall|j: int|
                    0 <= j < self.entries@.len() ==> (#[trigger] self.entries@[j]).username@
                        != username@,
            },
    {
        let mut i: usize = 0;
        while i < self.entries.len()
            invariant
                0 <= i <= self.entries@.len(),
                forall|j: int|
                    0 <= j < i ==> (#[trigger] self.entries@[j]).username@ != username@,
            decreases self.entries@.len() - i,
        {
            if str_equal(self.entries[i].username.as_str(), username) {
                return Some(i);
            }
            i = i + 1;
        }
        None
    }

    /// Registers `username` under connection `conn`, replacing any entry
    /// the username had.
    pub fn insert(&mut self, username: String, conn: u64)
        requires
            old(self).wf(),
        ensures
            final(self).wf(),
            final(self)@ == old(self)@.insert(username@, conn),
    {
        let ghost entries0 = self.entries@;
        match self.index_of(username.as_str()) {
            Some(i) => {
                self.entries.remove(i);
                proof {
                    lemma_entries_remove(entries0, i as int);
                    lemma_remove_only_occurrence(entries0, i as int);
                }
            },
            None => {
                proof {
                    lemma_user_map_facts(entries0);
                }
            },
        }
        let ghost entries1 = self.entries@;
        proof {
            assert(!entries_contain_name(entries1, username@));
        }
        self.entries.push(UserEntry { username, conn });
        proof {
            assert(self.entries@.drop_last() =~= entries1);
            assert(self.entries@.last() == (UserEntry { username, conn }));
            assert(unique_usernames(self.entries@)) by {
                assert(forall|j: int| 0 <= j < entries1.len() ==> self.entries@[j] == entries1[j]);
                assert(forall|j: int|
                    0 <= j < entries1.len() ==> (#[trigger] entries1[j]).username@ != username@);
            }
            assert(user_map(self.entries@) == user_map(entries1).insert(username@, conn));
            assert(user_map(self.entries@) =~= user_map(entries0).insert(username@, conn));
        }
    }

    /// Removes the entry of `username`, if it has one.
    pub fn remove(&mut self, username: &str)
        requires
            old(self).wf(),
        ensures
            final(self).wf(),
            final(self)@ == old(self)@.remove(username@),
    {
        let ghost entries0 = self.entries@;
        match self.index_of(username) {
            Some(i) => {
                self.entries.remove(i);
                proof {
                    lemma_entries_remove(entries0, i as int);
                    lemma_remove_only_occurrence(entries0, i as int);
                }
            },
            None => {
                proof {
                    lemma_user_map_facts(entries0);
                    assert(!user_map(entries0).dom().contains(username@));
                    assert(user_map(self.entries@) =~= user_map(entries0).remove(username@));
                }
            },
        }
    }

    /// Looks up the connection registered under `username`.
    pub fn get(&self, username: &str) -> (r: Option<u64>)
        requires
            self.wf(),
        ensures
            match r {
                Some(c) => self@.dom().contains(username@) && self@[username@] == c,
                None => !self@.dom().contains(username@),
            },
    {
        proof {
            lemma_user_map_facts(self.entries@);
        }
        match self.index_of(username) {
            Some(i) => Some(self.entries[i].conn),
            None => {
                proof {
                    if self@.dom().contains(username@) {
                        let j = choose|j: int|
                            0 <= j < self.entries@.len() && (#[trigger] self.entries@[j]).username@
                                == username@;
                    }
                }
                None
            },
        }
    }

    /// How many users are registered.
    pub fn len(&self) -> (r: usize)
        requires
            self.wf(),
        ensures
            r == self@.dom().len(),
    {
        proof {
            lemma_user_map_facts(self.entries@);
        }
        self.entries.len()
    }

    /// Whether some username is registered under connection `conn`.
    pub fn contains_conn(&self, conn: u64) -> (r: bool)
        requires
            self.wf(),
        ensures
            r == user_map_has_conn(self@, conn),
    {
        proof {
            lemma_user_map_facts(self.entries@);
        }
        let mut i: usize = 0;
        while i < self.entries.len()
            invariant
                self.wf(),
                0 <= i <= self.entries@.len(),
                forall|j: int| 0 <= j < i ==> (#[trigger] self.entries@[j]).conn != conn,
            decreases self.entries@.len() - i,
        {
            if self.entries[i].conn == conn {
                proof {
                    lemma_user_map_facts(self.entries@);
                    assert(entries_contain_name(self.entries@, self.entries@[i as int].username@));
                    assert(user_map(self.entries@).dom().contains(
                        self.entries@[i as int].username@,
                    ));
                }
                return true;
            }
            i = i + 1;
        }
        proof {
            if user_map_has_conn(self@, conn) {
                let n = choose|n: Seq<char>|
                    #[trigger] self@.dom().contains(n) && self@[n] == conn;
                let j = choose|j: int|
                    0 <= j < self.entries@.len() && (#[trigger] self.entries@[j]).username@ == n;
            }
        }
        false
    }

    /// The registered usernames, in registration order.
    pub fn usernames(&self) -> (r: Vec<String>)
        ensures
            r.deep_view() == self.entries@.map_values(|e: UserEntry| e.username@),
    {
        let mut r: Vec<String> = Vec::new();
        let mut i: usize = 0;
        while i < self.entries.len()
            invariant
                0 <= i <= self.entries@.len(),
                r.deep_view() =~= self.entries@.take(i as int).map_values(
                    |e: UserEntry| e.username@,
                ),
            decreases self.entries@.len() - i,
        {
            let ghost old_r = r.deep_view();
            r.push(self.entries[i].username.clone());
            proof {
                assert(r.deep_view() =~= old_r.push(self.entries@[i as int].username@));
                assert(r.deep_view() =~= self.entries@.take(i + 1).map_values(
                    |e: UserEntry| e.username@,
                ));
            }
            i = i + 1;
        }
        proof {
            assert(self.entries@.take(self.entries@.len() as int) =~= self.entries@);
        }
        r
    }

    /// The registered connections, in registration order.
    pub fn conns(&self) -> (r: Vec<u64>)
        ensures
            r@ == user_conns(self.entries@),
    {
        let mut r: Vec<u64> = Vec::new();
        let mut i: usize = 0;
        while i < self.entries.len()
            invariant
                0 <= i <= self.entries@.len(),
                r@ =~= self.entries@.take(i as int).map_values(|e: UserEntry| e.conn),
            decreases self.entries@.len() - i,
        {
            r.push(self.entries[i].conn);
            proof {
                assert(r@ =~= self.entries@.take(i + 1).map_values(|e: UserEntry| e.conn));
            }
            i = i + 1;
        }
        proof {
            assert(self.entries@.take(self.entries@.len() as int) =~= self.entries@);
        }
        r
    }
}

/// Removing entry `i` removes exactly its username from the map.
proof fn lemma_entries_remove(entries: Seq<UserEntry>, i: int)
    requires
        unique_usernames(entries),
        0 <= i < entries.len(),
    ensures
        user_map(entries.remove(i)) == user_map(entries).remove(entries[i].username@),
    decreases entries.len(),
{
    lemma_user_map_facts(entries);
    let name = entries[i].username@;
    let removed = entries.remove(i);
    assert(unique_usernames(removed)) by {
        assert(forall|a: int|
            0 <= a < removed.len() ==> #[trigger] removed[a] == (if a < i {
                entries[a]
            } else {
                entries[a + 1]
            }));
    }
    lemma_user_map_facts(removed);
    assert(user_map(removed) =~= user_map(entries).remove(name)) by {
        assert forall|n: Seq<char>| #[trigger]
            user_map(removed).dom().contains(n) implies user_map(entries).remove(
            name,
        ).dom().contains(n) by {
            let a = choose|a: int|
                0 <= a < removed.len() && (#[trigger] removed[a]).username@ == n;
            let b: int = if a < i {
                a
            } else {
                a + 1
            };
            assert(entries[b].username@ == n);
            assert(n != name);
        }
        assert forall|n: Seq<char>| user_map(entries).remove(name).dom().contains(
            n,
        ) implies #[trigger] user_map(removed).dom().contains(n) by {
            let b = choose|b: int|
                0 <= b < entries.len() && (#[trigger] entries[b]).username@ == n;
            assert(b != i);
            let a: int = if b < i {
                b
            } else {
                b - 1
            };
            assert(removed[a].username@ == n);
        }
        assert forall|n: Seq<char>|
            user_map(removed).dom().contains(n)
                && user_map(entries).remove(name).dom().contains(n) implies user_map(removed)[n]
            == user_map(entries).remove(name)[n] by {
            let a = choose|a: int|
                0 <= a < removed.len() && (#[trigger] removed[a]).username@ == n;
            let b: int = if a < i {
                a
            } else {
                a + 1
            };
            assert(entries[b].username@ == n);
            assert(user_map(removed)[n] == removed[a].conn);
            assert(user_map(entries)[n] == entries[b].conn);
        }
    }
}

/// Removing entry `i` keeps uniqueness and leaves no entry with its
/// username.
proof fn lemma_remove_only_occurrence(entries: Seq<UserEntry>, i: int)
    requires
        unique_usernames(entries),
        0 <= i < entries.len(),
    ensures
        unique_usernames(entries.remove(i)),
        !entries_contain_name(entries.remove(i), entries[i].username@),
{
    let removed = entries.remove(i);
    assert(forall|a: int|
        0 <= a < removed.len() ==> #[trigger] removed[a] == (if a < i {
            entries[a]
        } else {
            entries[a + 1]
        }));
    if entries_contain_name(removed, entries[i].username@) {
        let a = choose|a: int|
            0 <= a < removed.len() && (#[trigger] removed[a]).username@ == entries[i].username@;
        let b: int = if a < i {
            a
        } else {
            a + 1
        };
        assert(entries[b].username@ == entries[i].username@ && b != i);
    }
}

/// The set of live connections: inserted at accept, removed exactly once
/// at teardown.
pub struct ConnectionRegistry {
    pub ids: Vec<u64>,
}

impl View for ConnectionRegistry {
    type V = Set<u64>;

    open spec fn view(&self) -> Set<u64> {
        self.ids@.to_set()
    }
}

impl ConnectionRegistry {
    /// The registry's invariant: every connection at most once.
    pub open spec fn wf(&self) -> bool {
        self.ids@.no_duplicates()
    }

    /// An empty registry.
    pub fn new() -> (r: ConnectionRegistry)
        ensures
            r.wf(),
            r@ == Set::<u64>::empty(),
    {
        let r = ConnectionRegistry { ids: Vec::new() };
        proof {
            assert(r@ =~= Set::<u64>::empty());
        }
        r
    }

    fn index_of(&self, id: u64) -> (r: Option<usize>)
        ensures
            match r {
                Some(i) => i < self.ids@.len() && self.ids@[i as int] == id,
                None => !self.ids@.contains(id),
            },
    {
        let mut i: usize = 0;
        while i < self.ids.len()
            invariant
                0 <= i <= self.ids@.len(),
                forall|j: int| 0 <= j < i ==> self.ids@[j] != id,
            decreases self.ids@.len() - i,
        {
            if self.ids[i] == id {
                return Some(i);
            }
            i = i + 1;
        }
        None
    }

    /// Whether connection `id` is live.
    pub fn contains(&self, id: u64) -> (r: bool)
        ensures
            r == self@.contains(id),
    {
        match self.index_of(id) {
            Some(_) => true,
            None => false,
        }
    }

    /// Inserts connection `id`; inserting a member again changes nothing.
    pub fn insert(&mut self, id: u64)
        requires
            old(self).wf(),
        ensures
            final(self).wf(),
            final(self)@ == old(self)@.insert(id),
    {
        match self.index_of(id) {
            Some(_) => {
                proof {
                    assert(self@ =~= old(self)@.insert(id));
                }
            },
            None => {
                self.ids.push(id);
                proof {
                    assert(forall|j: int|
                        0 <= j < old(self).ids@.len() ==> self.ids@[j] == old(self).ids@[j]);
                    assert(self@ =~= old(self)@.insert(id)) by {
                        assert forall|x: u64| self@.contains(x) implies old(self)@.insert(
                            id,
                        ).contains(x) by {
                            let j = choose|j: int|
                                0 <= j < self.ids@.len() && self.ids@[j] == x;
                            if j < old(self).ids@.len() {
                                assert(old(self).ids@[j] == x);
                            }
                        }
                        assert forall|x: u64| old(self)@.insert(id).contains(
                            x,
                        ) implies self@.contains(x) by {
                            if x == id {
                                assert(self.ids@[self.ids@.len() - 1] == x);
                            } else {
                                let j = choose|j: int|
                                    0 <= j < old(self).ids@.len() && old(self).ids@[j] == x;
                                assert(self.ids@[j] == x);
                            }
                        }
                    }
                }
            },
        }
    }

    /// Removes connection `id`; removing a non-member changes nothing.
    pub fn remove(&mut self, id: u64)
        requires
            old(self).wf(),
        ensures
            final(self).wf(),
            final(self)@ == old(self)@.remove(id),
    {
        match self.index_of(id) {
            Some(i) => {
                let ghost ids0 = self.ids@;
                self.ids.remove(i);
                proof {
                    assert(forall|a: int|
                        0 <= a < self.ids@.len() ==> #[trigger] self.ids@[a] == (if a < i as int {
                            ids0[a]
                        } else {
                            ids0[a + 1]
                        }));
                    assert(self.ids@.no_duplicates());
                    assert(self@ =~= old(self)@.remove(id)) by {
                        assert forall|x: u64| self@.contains(x) implies old(self)@.remove(
                            id,
                        ).contains(x) by {
                            let a = choose|a: int|
                                0 <= a < self.ids@.len() && self.ids@[a] == x;
                            let b: int = if a < i as int {
                                a
                            } else {
                                a + 1
                            };
                            assert(ids0[b] == x);
                            assert(x != id);
                        }
                        assert forall|x: u64| old(self)@.remove(id).contains(
                            x,
                        ) implies self@.contains(x) by {
                            let b = choose|b: int| 0 <= b < ids0.len() && ids0[b] == x;
                            assert(b != i as int);
                            let a: int = if b < i as int {
                                b
                            } else {
                                b - 1
                            };
                            assert(self.ids@[a] == x);
                        }
                    }
                }
            },
            None => {
                proof {
                    assert(self@ =~= old(self)@.remove(id));
                }
            },
        }
    }

    /// How many connections are live.
    pub fn len(&self) -> (r: usize)
        requires
            self.wf(),
        ensures
            r == self@.len(),
    {
        proof {
            self.ids@.unique_seq_to_set();
        }
        self.ids.len()
    }
}

/// The registry service: both registries, created once per process.
pub struct ServerState {
    pub connections: ConnectionRegistry,
    pub users: UserRegistry,
}

impl ServerState {
    /// Both registries well-formed.
    pub open spec fn wf(&self) -> bool {
        self.connections.wf() && self.users.wf()
    }

    /// A fresh service with empty registries.
    pub fn new() -> (r: ServerState)
        ensures
            r.wf(),
            r.connections@ == Set::<u64>::empty(),
            r.users@ == Map::<Seq<char>, u64>::empty(),
    {
        ServerState { connections: ConnectionRegistry::new(), users: UserRegistry::new() }
    }

    /// Records a freshly accepted connection.
    pub fn connection_opened(&mut self, id: u64)
        requires
            old(self).wf(),
        ensures
            final(self).wf(),
            final(self).connections@ == old(self).connections@.insert(id),
            final(self).users@ == old(self).users@,
            final(self).users.entries@ == old(self).users.entries@,
    {
        self.connections.insert(id);
    }

    /// Records a successful authentication: `username` now maps to its
    /// connection.
    pub fn register_user(&mut self, username: String, conn: u64)
        requires
            old(self).wf(),
        ensures
            final(self).wf(),
            final(self).users@ == old(self).users@.insert(username@, conn),
            final(self).connections@ == old(self).connections@,
            final(self).connections.ids@ == old(self).connections.ids@,
    {
        self.users.insert(username, conn);
    }

    /// Tears a connection down: drops it from the connection registry
    /// and, when it was authenticated, drops its user entry. Runs exactly
    /// once per connection, whatever the exit path.
    pub fn teardown(&mut self, id: u64, st: &ConnState)
        requires
            old(self).wf(),
        ensures
            final(self).wf(),
            final(self).connections@ == old(self).connections@.remove(id),
            final(self).users@ == (match st@ {
                ConnStateView::Authenticated(u) => old(self).users@.remove(u),
                _ => old(self).users@,
            }),
    {
        self.connections.remove(id);
        match st {
            ConnState::Authenticated(u) => {
                self.users.remove(u.as_str());
            },
            _ => {},
        }
    }

    /// The connections that never completed authentication: live but
    /// absent from the user registry's values. The reaper closes these.
    pub fn idle_connections(&self) -> (r: Vec<u64>)
        requires
            self.wf(),
        ensures
            forall|k: int|
                0 <= k < r@.len() ==> self.connections@.contains(#[trigger] r@[k])
                    && !user_map_has_conn(self.users@, r@[k]),
            forall|id: u64|
                self.connections@.contains(id) && !user_map_has_conn(self.users@, id)
                    ==> r@.contains(id),
    {
        let mut r: Vec<u64> = Vec::new();
        let n = self.connections.ids.len();
        let mut i: usize = 0;
        while i < n
            invariant
                0 <= i <= n,
                n == self.connections.ids@.len(),
                self.wf(),
                forall|k: int|
                    0 <= k < r@.len() ==> self.connections.ids@.contains(#[trigger] r@[k])
                        && !user_map_has_conn(self.users@, r@[k]),
                forall|j: int|
                    0 <= j < i && !user_map_has_conn(
                        self.users@,
                        #[trigger] self.connections.ids@[j],
                    ) ==> r@.contains(self.connections.ids@[j]),
            decreases n - i,
        {
            let id = self.connections.ids[i];
            if !self.users.contains_conn(id) {
                let ghost r0 = r@;
                r.push(id);
                proof {
                    assert(forall|k: int| 0 <= k < r0.len() ==> r@[k] == r0[k]);
                    assert(r@[r@.len() - 1] == id);
                    assert(self.connections.ids@.contains(id)) by {
                        assert(self.connections.ids@[i as int] == id);
                    }
                }
            }
            i = i + 1;
        }
        proof {
            assert forall|id: u64|
                self.connections@.contains(id) && !user_map_has_conn(
                    self.users@,
                    id,
                ) implies r@.contains(id) by {
                let j = choose|j: int|
                    0 <= j < self.connections.ids@.len() && self.connections.ids@[j] == id;
            }
        }
        r
    }
}

/// One full connect/authenticate/disconnect cycle leaves both registries
/// exactly as they were: no entry leaks. Stated over the registry views
/// that the lifecycle operations' contracts use.
pub proof fn lemma_cycle_restores_registries(
    conns: Set<u64>,
    users: Map<Seq<char>, u64>,
    id: u64,
    username: Seq<char>,
)
    requires
        !conns.contains(id),
        !users.dom().contains(username),
    ensures
        conns.insert(id).remove(id) == conns,
        users.insert(username, id).remove(username) == users,
{
    assert(conns.insert(id).remove(id) =~= conns);
    assert(users.insert(username, id).remove(username) =~= users);
}

} // verus!
