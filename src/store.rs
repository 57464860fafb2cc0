use vstd::prelude::*;

use crate::models::{RoomRecord, Server};

verus! {

/// Some server in `servers` goes by `host`.
pub open spec fn has_host(servers: Seq<Server>, host: Seq<char>) -> bool {
    exists|i: int| 0 <= i < servers.len() && servers[i].host@ == host
}

/// No two servers go by the same host.
pub open spec fn hosts_unique(servers: Seq<Server>) -> bool {
    forall|i: int, j: int|
        0 <= i < servers.len() && 0 <= j < servers.len() && i != j ==> servers[i].host@
            != servers[j].host@
}

/// Keeps the rooms that were not observed on `server`.
pub open spec fn not_on(server: Seq<char>) -> spec_fn(RoomRecord) -> bool {
    |r: RoomRecord| r.server@ != server
}

/// `after` is `before` with a fresh record added for each host that
/// `named` holds of and `before` lacks: records already there stay as they
/// were, and only named hosts are added.
pub open spec fn registered(
    before: Seq<Server>,
    after: Seq<Server>,
    named: spec_fn(Seq<char>) -> bool,
) -> bool {
    &&& before.len() <= after.len()
    &&& forall|i: int| 0 <= i < before.len() ==> after[i] == before[i]
    &&& forall|i: int|
        before.len() <= i < after.len() ==> after[i].is_fresh() && named(after[i].host@)
            && !has_host(before, after[i].host@)
    &&& forall|h: Seq<char>| named(h) ==> has_host(after, h)
}

/// A store held in memory: the servers known so far and the rooms observed
/// on them.
pub struct MemoryStore {
    pub servers: Vec<Server>,
    pub rooms: Vec<RoomRecord>,
}

impl MemoryStore {
    pub open spec fn wf(&self) -> bool {
        hosts_unique(self.servers@)
    }

    /// An empty store.
    pub fn new() -> (r: MemoryStore)
        ensures
            r.wf(),
            r.servers@.len() == 0,
            r.rooms@.len() == 0,
    {
        MemoryStore { servers: Vec::new(), rooms: Vec::new() }
    }

    /// Whether some known server goes by `host`.
    pub fn knows(&self, host: &String) -> (r: bool)
        ensures
            r == has_host(self.servers@, host@),
    {
        let mut i: usize = 0;
        while i < self.servers.len()
            invariant
                i <= self.servers@.len(),
                forall|j: int| 0 <= j < i ==> self.servers@[j].host@ != host@,
            decreases self.servers@.len() - i,
        {
            if self.servers[i].host == *host {
                return true;
            }
            i = i + 1;
        }
        false
    }

    /// All known servers.
    pub fn list_servers(&self) -> (r: Vec<Server>)
        ensures
            r@ == self.servers@,
    {
        let mut r: Vec<Server> = Vec::new();
        let mut i: usize = 0;
        while i < self.servers.len()
            invariant
                i <= self.servers@.len(),
                r@ == self.servers@.subrange(0, i as int),
            decreases self.servers@.len() - i,
        {
            r.push(self.servers[i].duplicate());
            i = i + 1;
            assert(r@ =~= self.servers@.subrange(0, i as int));
        }
        assert(r@ =~= self.servers@);
        r
    }

    /// Adds `server` unless a server of that host is already known, in which
    /// case the known one is kept as it is. Says whether it was added.
    pub fn add_server(&mut self, server: Server) -> (r: bool)
        requires
            old(self).wf(),
        ensures
            final(self).wf(),
            final(self).rooms == old(self).rooms,
            r == !has_host(old(self).servers@, server.host@),
            r ==> final(self).servers@ == old(self).servers@.push(server),
            !r ==> final(self).servers@ == old(self).servers@,
    {
        if self.knows(&server.host) {
            false
        } else {
            self.servers.push(server);
            proof {
                let s = self.servers@;
                assert forall|i: int, j: int|
                    0 <= i < s.len() && 0 <= j < s.len() && i != j implies s[i].host@
                        != s[j].host@ by {
                    if i == s.len() - 1 {
                        assert(s[j] == old(self).servers@[j]);
                    } else if j == s.len() - 1 {
                        assert(s[i] == old(self).servers@[i]);
                    }
                }
            }
            true
        }
    }

    /// Registers `host` as a fresh server unless it is already known; a known
    /// server's record is never altered.
    pub fn upsert_server_if_absent(&mut self, host: String)
        requires
            old(self).wf(),
        ensures
            final(self).wf(),
            final(self).rooms == old(self).rooms,
            has_host(old(self).servers@, host@) ==> final(self).servers@ == old(self).servers@,
            !has_host(old(self).servers@, host@) ==> {
                &&& final(self).servers@.len() == old(self).servers@.len() + 1
                &&& final(self).servers@.drop_last() == old(self).servers@
                &&& final(self).servers@.last().host == host
                &&& final(self).servers@.last().is_fresh()
            },
    {
        let added = self.add_server(Server::fresh(host));
        proof {
            if added {
                assert(final(self).servers@.drop_last() =~= old(self).servers@);
            }
        }
    }

    /// Removes every room observed on `server`.
    pub fn delete_rooms(&mut self, server: &String)
        ensures
            final(self).servers == old(self).servers,
            final(self).rooms@ == old(self).rooms@.filter(not_on(server@)),
    {
        let mut kept: Vec<RoomRecord> = Vec::new();
        let mut i: usize = 0;
        while i < self.rooms.len()
            invariant
                i <= self.rooms@.len(),
                kept@ == self.rooms@.subrange(0, i as int).filter(not_on(server@)),
            decreases self.rooms@.len() - i,
        {
            let ghost before = self.rooms@.subrange(0, i as int);
            proof {
                assert(self.rooms@.subrange(0, i + 1) =~= before.push(self.rooms@[i as int]));
                before.lemma_filter_push(self.rooms@[i as int], not_on(server@));
            }
            if self.rooms[i].server != *server {
                kept.push(self.rooms[i].duplicate());
            }
            i = i + 1;
        }
        assert(self.rooms@.subrange(0, self.rooms@.len() as int) =~= self.rooms@);
        self.rooms = kept;
    }

    /// Adds one room row.
    pub fn insert_room(&mut self, room: RoomRecord)
        ensures
            final(self).servers == old(self).servers,
            final(self).rooms@ == old(self).rooms@.push(room),
    {
        self.rooms.push(room);
    }

    /// A copy of the whole store, to work on as a transaction.
    pub fn duplicate(&self) -> (r: MemoryStore)
        ensures
            r.servers@ == self.servers@,
            r.rooms@ == self.rooms@,
    {
        let servers = self.list_servers();
        let mut rooms: Vec<RoomRecord> = Vec::new();
        let mut i: usize = 0;
        while i < self.rooms.len()
            invariant
                i <= self.rooms@.len(),
                rooms@ == self.rooms@.subrange(0, i as int),
            decreases self.rooms@.len() - i,
        {
            rooms.push(self.rooms[i].duplicate());
            i = i + 1;
            assert(rooms@ =~= self.rooms@.subrange(0, i as int));
        }
        assert(rooms@ =~= self.rooms@);
        MemoryStore { servers, rooms }
    }
}

} // verus!
