use room_finder::address::{page_url, resolve_address, wellknown_url};
use room_finder::alias::get_hostname;
use room_finder::directory::Paginator;
use room_finder::errors::SearchError;
use room_finder::ingest::{ingest, Fetched};
use room_finder::models::{PublicRooms, Room, RoomRecord, Server, ServerWellKnown};
use room_finder::schedule::{crawl_targets, launch_offset_ms, LAUNCH_DELAY_MS};
use room_finder::store::MemoryStore;

fn room(id: &str, alias: Option<&str>, members: i32) -> Room {
    Room {
        avatar_url: None,
        canonical_alias: alias.map(|a| a.to_string()),
        guest_can_join: false,
        join_rule: Some("public".to_string()),
        name: Some(format!("room {id}")),
        num_joined_members: members,
        room_id: id.to_string(),
        room_type: None,
        topic: None,
        world_readable: true,
    }
}

fn page(rooms: Vec<Room>, next: Option<&str>) -> Fetched {
    Ok(PublicRooms { next_batch: next.map(|t| t.to_string()), prev_batch: None, chunk: rooms })
}

fn hosts(store: &MemoryStore) -> Vec<String> {
    store.servers.iter().map(|s| s.host.clone()).collect()
}

fn room_ids(store: &MemoryStore, server: &str) -> Vec<String> {
    store.rooms.iter().filter(|r| r.server == server).map(|r| r.id.clone()).collect()
}

#[test]
fn hostname_is_text_after_first_colon() {
    assert_eq!(get_hostname("#foo:other.org"), Some("other.org".to_string()));
    assert_eq!(get_hostname("#a:b.org:8448"), Some("b.org:8448".to_string()));
}

#[test]
fn hostname_absent_without_colon_or_suffix() {
    assert_eq!(get_hostname("#foo"), None);
    assert_eq!(get_hostname("#foo:"), None);
    assert_eq!(get_hostname(""), None);
}

#[test]
fn resolution_falls_back_on_every_failure() {
    let host = "example.org";
    assert_eq!(resolve_address(host, None), "example.org");
    assert_eq!(resolve_address(host, Some(ServerWellKnown { server: None })), "example.org");
    assert_eq!(
        resolve_address(host, Some(ServerWellKnown { server: Some(String::new()) })),
        "example.org"
    );
}

#[test]
fn resolution_takes_delegated_address() {
    let doc = ServerWellKnown { server: Some("matrix.example.org:443".to_string()) };
    assert_eq!(resolve_address("example.org", Some(doc)), "matrix.example.org:443");
}

#[test]
fn request_urls() {
    assert_eq!(wellknown_url("example.org"), "https://example.org/.well-known/matrix/server");
    assert_eq!(
        page_url("example.org", None),
        "https://example.org/_matrix/client/v3/publicRooms?limit=5000"
    );
    assert_eq!(
        page_url("example.org", Some("tok1")),
        "https://example.org/_matrix/client/v3/publicRooms?limit=5000&since=tok1"
    );
}

#[test]
fn continuation_token_is_encoded() {
    assert_eq!(
        page_url("example.org", Some("a b/c+d")),
        "https://example.org/_matrix/client/v3/publicRooms?limit=5000&since=a%20b%2Fc%2Bd"
    );
}

#[test]
fn paginator_follows_tokens_until_last_page() {
    let mut pager = Paginator::new("example.org".to_string());
    let first = pager.next_url().unwrap();
    assert!(!first.contains("since="));
    pager.advance(&Some("tok1".to_string()));
    let second = pager.next_url().unwrap();
    assert!(second.ends_with("&since=tok1"));
    pager.advance(&None);
    assert_eq!(pager.next_url(), None);
}

#[test]
fn seed_server_scenario() {
    let mut store = MemoryStore::new();
    let targets = crawl_targets(&store.list_servers(), "example.org");
    assert_eq!(targets, vec!["example.org".to_string()]);
    let fetched = vec![page(vec![room("!abc:example.org", Some("#foo:other.org"), 3)], None)];
    let (result, urls) = ingest(&mut store, &targets[0], &targets[0], &fetched);
    assert_eq!(result, Ok(()));
    assert_eq!(urls.len(), 1);
    assert_eq!(store.rooms.len(), 1);
    let row = &store.rooms[0];
    assert_eq!(row.id, "!abc:example.org");
    assert_eq!(row.server, "example.org");
    assert_eq!(row.alias, Some("#foo:other.org".to_string()));
    assert_eq!(row.members, 3);
    assert_eq!(hosts(&store), vec!["other.org".to_string()]);
    assert!(!store.servers[0].blacklist);
    assert_eq!(store.servers[0].last_tried, None);
}

#[test]
fn two_page_directory() {
    let mut store = MemoryStore::new();
    let server = "example.org".to_string();
    let fetched = vec![
        page(vec![room("!one:example.org", None, 1)], Some("tok1")),
        page(vec![room("!two:example.org", None, 2)], None),
    ];
    let (result, urls) = ingest(&mut store, &server, &server, &fetched);
    assert_eq!(result, Ok(()));
    assert_eq!(urls.len(), 2);
    assert!(!urls[0].contains("since="));
    assert!(urls[1].ends_with("&since=tok1"));
    assert_eq!(room_ids(&store, "example.org"), vec!["!one:example.org", "!two:example.org"]);
}

#[test]
fn pages_after_the_last_are_not_requested() {
    let mut store = MemoryStore::new();
    let server = "example.org".to_string();
    let fetched = vec![
        page(vec![room("!one:example.org", None, 1)], None),
        page(vec![room("!two:example.org", None, 2)], None),
    ];
    let (result, urls) = ingest(&mut store, &server, &server, &fetched);
    assert_eq!(result, Ok(()));
    assert_eq!(urls.len(), 1);
    assert_eq!(room_ids(&store, "example.org"), vec!["!one:example.org"]);
}

#[test]
fn crawl_replaces_earlier_rooms_of_that_server_only() {
    let mut store = MemoryStore::new();
    let a = "a.org".to_string();
    let b = "b.org".to_string();
    ingest(&mut store, &a, &a, &vec![page(vec![room("!old:a.org", None, 5)], None)]);
    ingest(&mut store, &b, &b, &vec![page(vec![room("!x:b.org", None, 1)], None)]);
    let (result, _) =
        ingest(&mut store, &a, &a, &vec![page(vec![room("!new:a.org", None, 7)], None)]);
    assert_eq!(result, Ok(()));
    assert_eq!(room_ids(&store, "a.org"), vec!["!new:a.org"]);
    assert_eq!(room_ids(&store, "b.org"), vec!["!x:b.org"]);
}

#[test]
fn empty_directory_clears_rooms() {
    let mut store = MemoryStore::new();
    let a = "a.org".to_string();
    ingest(&mut store, &a, &a, &vec![page(vec![room("!old:a.org", None, 5)], None)]);
    let (result, urls) = ingest(&mut store, &a, &a, &vec![page(vec![], None)]);
    assert_eq!(result, Ok(()));
    assert_eq!(urls.len(), 1);
    assert!(store.rooms.is_empty());
}

#[test]
fn failed_page_leaves_store_unchanged() {
    let mut store = MemoryStore::new();
    let a = "a.org".to_string();
    ingest(&mut store, &a, &a, &vec![page(vec![room("!old:a.org", Some("#o:c.org"), 5)], None)]);
    let fetched = vec![
        page(vec![room("!new:a.org", Some("#n:d.org"), 1)], Some("tok1")),
        Err(SearchError::ParseError),
    ];
    let (result, urls) = ingest(&mut store, &a, &a, &fetched);
    assert_eq!(result, Err(SearchError::ParseError));
    assert_eq!(urls.len(), 2);
    assert_eq!(room_ids(&store, "a.org"), vec!["!old:a.org"]);
    assert_eq!(hosts(&store), vec!["c.org".to_string()]);
}

#[test]
fn failed_first_request_is_reported() {
    let mut store = MemoryStore::new();
    let a = "a.org".to_string();
    let (result, urls) = ingest(&mut store, &a, &a, &vec![Err(SearchError::RequestError)]);
    assert_eq!(result, Err(SearchError::RequestError));
    assert_eq!(urls.len(), 1);
    assert!(store.rooms.is_empty());
    assert!(store.servers.is_empty());
}

#[test]
fn known_server_keeps_its_record() {
    let mut store = MemoryStore::new();
    let known = Server {
        host: "other.org".to_string(),
        last_tried: Some(1_700_000_000),
        last_error: Some("timeout".to_string()),
        blacklist: true,
    };
    assert!(store.add_server(known));
    let server = "example.org".to_string();
    let fetched = vec![page(
        vec![
            room("!a:example.org", Some("#foo:other.org"), 3),
            room("!b:example.org", Some("#bar:new.org"), 4),
            room("!c:example.org", Some("#baz:new.org"), 4),
            room("!d:example.org", Some("#broken:"), 4),
            room("!e:example.org", Some("#nocolon"), 4),
        ],
        None,
    )];
    let (result, _) = ingest(&mut store, &server, &server, &fetched);
    assert_eq!(result, Ok(()));
    assert_eq!(hosts(&store), vec!["other.org".to_string(), "new.org".to_string()]);
    assert!(store.servers[0].blacklist);
    assert_eq!(store.servers[0].last_tried, Some(1_700_000_000));
    assert_eq!(store.servers[0].last_error, Some("timeout".to_string()));
    assert_eq!(store.rooms.len(), 5);
}

#[test]
fn resolved_address_is_requested_but_rows_name_the_server() {
    let mut store = MemoryStore::new();
    let server = "example.org".to_string();
    let address = "matrix.example.org".to_string();
    let fetched = vec![page(vec![room("!a:example.org", None, 3)], None)];
    let (_, urls) = ingest(&mut store, &server, &address, &fetched);
    assert!(urls[0].starts_with("https://matrix.example.org/"));
    assert_eq!(store.rooms[0].server, "example.org");
}

#[test]
fn upsert_is_idempotent() {
    let mut store = MemoryStore::new();
    store.upsert_server_if_absent("x.org".to_string());
    store.upsert_server_if_absent("x.org".to_string());
    assert_eq!(hosts(&store), vec!["x.org".to_string()]);
    assert!(!store.add_server(Server::fresh("x.org".to_string())));
}

#[test]
fn delete_and_insert_rooms() {
    let mut store = MemoryStore::new();
    let row = |id: &str, server: &str| RoomRecord {
        id: id.to_string(),
        server: server.to_string(),
        alias: None,
        title: None,
        topic: None,
        avatar: None,
        members: 0,
    };
    store.insert_room(row("!1", "a.org"));
    store.insert_room(row("!2", "b.org"));
    store.insert_room(row("!3", "a.org"));
    store.delete_rooms(&"a.org".to_string());
    assert_eq!(store.rooms.len(), 1);
    assert_eq!(store.rooms[0].id, "!2");
}

#[test]
fn known_servers_are_all_crawled() {
    let known = vec![Server::fresh("a.org".to_string()), Server::fresh("b.org".to_string())];
    assert_eq!(crawl_targets(&known, "seed.org"), vec!["a.org".to_string(), "b.org".to_string()]);
}

#[test]
fn launches_are_staggered() {
    assert_eq!(LAUNCH_DELAY_MS, 500);
    assert_eq!(launch_offset_ms(0), Some(0));
    assert_eq!(launch_offset_ms(3), Some(1500));
    assert_eq!(launch_offset_ms(u64::MAX), None);
}
