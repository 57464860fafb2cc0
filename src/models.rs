use vstd::prelude::*;

verus! {

/// One page of a server's public room directory.
#[derive(Debug)]
pub struct PublicRooms {
    /// Token that asks for the following page; absent on the last page.
    pub next_batch: Option<String>,
    /// Token that asks for the preceding page.
    pub prev_batch: Option<String>,
    /// The rooms listed on this page, in order.
    pub chunk: Vec<Room>,
}

/// One entry of a room directory page.
#[derive(Debug)]
pub struct Room {
    pub avatar_url: Option<String>,
    pub canonical_alias: Option<String>,
    pub guest_can_join: bool,
    pub join_rule: Option<String>,
    pub name: Option<String>,
    pub num_joined_members: i32,
    pub room_id: String,
    pub room_type: Option<String>,
    pub topic: Option<String>,
    pub world_readable: bool,
}

/// The well-known delegation document of a server.
#[derive(Debug)]
pub struct ServerWellKnown {
    /// The address that the server delegates to, if any.
    pub server: Option<String>,
}

/// A known federation participant, as the store keeps it.
#[derive(Debug)]
pub struct Server {
    /// The name under which the server was discovered.
    pub host: String,
    /// Epoch seconds of the last crawl attempt.
    pub last_tried: Option<i64>,
    /// Description of the last failure.
    pub last_error: Option<String>,
    /// Whether the server is to be left alone.
    pub blacklist: bool,
}

/// One room as observed on one server, as the store keeps it.
#[derive(Debug)]
pub struct RoomRecord {
    pub id: String,
    pub server: String,
    pub alias: Option<String>,
    pub title: Option<String>,
    pub topic: Option<String>,
    pub avatar: Option<String>,
    pub members: i32,
}

/// Copy of an optional string that keeps its value.
pub fn copy_opt(o: &Option<String>) -> (r: Option<String>)
    ensures
        r == *o,
{
    match o {
        Some(s) => Some(s.clone()),
        None => None,
    }
}

impl Server {
    /// A server record for a newly discovered host: nothing tried, no error,
    /// not blacklisted.
    pub open spec fn is_fresh(&self) -> bool {
        self.last_tried is None && self.last_error is None && !self.blacklist
    }

    pub fn fresh(host: String) -> (r: Server)
        ensures
            r.host == host,
            r.is_fresh(),
    {
        Server { host, last_tried: None, last_error: None, blacklist: false }
    }

    pub fn duplicate(&self) -> (r: Server)
        ensures
            r == *self,
    {
        Server {
            host: self.host.clone(),
            last_tried: self.last_tried,
            last_error: copy_opt(&self.last_error),
            blacklist: self.blacklist,
        }
    }
}

/// The row that a directory entry becomes when it is listed on `server`.
pub open spec fn record_of(server: String, room: Room) -> RoomRecord {
    RoomRecord {
        id: room.room_id,
        server,
        alias: room.canonical_alias,
        title: room.name,
        topic: room.topic,
        avatar: room.avatar_url,
        members: room.num_joined_members,
    }
}

impl RoomRecord {
    pub fn from_room(server: &String, room: &Room) -> (r: RoomRecord)
        ensures
            r == record_of(*server, *room),
    {
        RoomRecord {
            id: room.room_id.clone(),
            server: server.clone(),
            alias: copy_opt(&room.canonical_alias),
            title: copy_opt(&room.name),
            topic: copy_opt(&room.topic),
            avatar: copy_opt(&room.avatar_url),
            members: room.num_joined_members,
        }
    }

    pub fn duplicate(&self) -> (r: RoomRecord)
        ensures
            r == *self,
    {
        RoomRecord {
            id: self.id.clone(),
            server: self.server.clone(),
            alias: copy_opt(&self.alias),
            title: copy_opt(&self.title),
            topic: copy_opt(&self.topic),
            avatar: copy_opt(&self.avatar),
            members: self.members,
        }
    }
}

} // verus!
