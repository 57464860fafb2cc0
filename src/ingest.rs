use vstd::prelude::*;

use crate::address::page_url_of;
use crate::alias::{get_hostname, hostname_of};
use crate::directory::{opt_view, Paginator};
use crate::errors::SearchError;
use crate::models::{record_of, PublicRooms, Room, RoomRecord, Server};
use crate::store::{has_host, not_on, registered, MemoryStore};

verus! {

/// The outcome of one directory request: a page, or why there is none.
pub type Fetched = Result<PublicRooms, SearchError>;

/// A request outcome after which no further request is made: a failure, or
/// a page without continuation token.
pub open spec fn stops(f: Fetched) -> bool {
    match f {
        Ok(page) => page.next_batch is None,
        Err(_) => true,
    }
}

/// `k` is the last request that a walk over the outcomes `f` makes.
pub open spec fn is_last_fetch(f: Seq<Fetched>, k: int) -> bool {
    &&& 0 <= k < f.len()
    &&& stops(f[k])
    &&& forall|j: int| 0 <= j < k ==> !stops(f[j])
}

/// The `i`-th request of a walk over `address`: the first carries no
/// token, each later one the token of the page before it.
pub open spec fn requested_url(address: Seq<char>, f: Seq<Fetched>, i: int) -> Seq<char> {
    if i == 0 {
        page_url_of(address, None)
    } else {
        page_url_of(address, opt_view(f[i - 1]->Ok_0.next_batch))
    }
}

/// The rows that one page's rooms become on `server`.
pub open spec fn page_records(server: String, page: PublicRooms) -> Seq<RoomRecord> {
    page.chunk@.map_values(|r: Room| record_of(server, r))
}

/// The rows of the first `n` pages among the outcomes `f`, in order.
pub open spec fn records_upto(server: String, f: Seq<Fetched>, n: int) -> Seq<RoomRecord>
    decreases n,
{
    if n <= 0 {
        Seq::empty()
    } else {
        records_upto(server, f, n - 1) + page_records(server, f[n - 1]->Ok_0)
    }
}

/// The alias of `room` names the server `h`.
pub open spec fn names_host(room: Room, h: Seq<char>) -> bool {
    match room.canonical_alias {
        Some(a) => hostname_of(a@) == Some(h),
        None => false,
    }
}

/// Some room among the first `j` of the page at `k`, or on a page before
/// it, names the server `h`.
pub open spec fn named_before(f: Seq<Fetched>, k: int, j: int, h: Seq<char>) -> bool {
    exists|i: int, m: int|
        0 <= i <= k && 0 <= m < f[i]->Ok_0.chunk@.len() && (i < k || m < j) && #[trigger] names_host(
            f[i]->Ok_0.chunk@[m],
            h,
        )
}

/// The state of the store after a successful crawl of `server` whose
/// requests ended at `k`: the rooms of other servers as they were, then
/// the rooms of every fetched page, and a fresh record for each server
/// that an alias named and the store did not know.
pub open spec fn crawled(
    before: MemoryStore,
    after: MemoryStore,
    server: String,
    f: Seq<Fetched>,
    k: int,
) -> bool {
    &&& after.rooms@ == before.rooms@.filter(not_on(server@)) + records_upto(server, f, k + 1)
    &&& registered(before.servers@, after.servers@, |h: Seq<char>| named_before(f, k + 1, 0, h))
}

/// `registered` depends on the hosts that `named` holds of, not on how
/// they are described.
proof fn lemma_registered_same_hosts(
    before: Seq<Server>,
    after: Seq<Server>,
    p: spec_fn(Seq<char>) -> bool,
    q: spec_fn(Seq<char>) -> bool,
)
    requires
        registered(before, after, p),
        forall|h: Seq<char>| #[trigger] p(h) == q(h),
    ensures
        registered(before, after, q),
{
}

/// A host that `named` holds of is among the servers after registration.
proof fn lemma_registered_has_host(
    before: Seq<Server>,
    after: Seq<Server>,
    named: spec_fn(Seq<char>) -> bool,
    h: Seq<char>,
)
    requires
        registered(before, after, named),
        named(h),
    ensures
        has_host(after, h),
{
}

/// A walk over a sequence of outcomes has one last request.
proof fn lemma_last_fetch_unique(f: Seq<Fetched>, k: int, l: int)
    requires
        is_last_fetch(f, k),
        is_last_fetch(f, l),
    ensures
        k == l,
{
    if k < l {
        assert(!stops(f[k]));
    } else if l < k {
        assert(!stops(f[l]));
    }
}

/// Writes the rooms of one fetched page, the `k`-th outcome among `f`, and
/// registers the servers that their aliases name.
fn ingest_page(
    tx: &mut MemoryStore,
    server: &String,
    page: &PublicRooms,
    Ghost(f): Ghost<Seq<Fetched>>,
    Ghost(k): Ghost<int>,
    Ghost(before): Ghost<Seq<Server>>,
)
    requires
        old(tx).wf(),
        0 <= k < f.len(),
        f[k] == Ok::<PublicRooms, SearchError>(*page),
        registered(before, old(tx).servers@, |h: Seq<char>| named_before(f, k, 0, h)),
    ensures
        final(tx).wf(),
        final(tx).rooms@ == old(tx).rooms@ + page_records(*server, *page),
        registered(before, final(tx).servers@, |h: Seq<char>| named_before(f, k + 1, 0, h)),
{
    let ghost start = tx.rooms@;
    let mut j: usize = 0;
    while j < page.chunk.len()
        invariant
            tx.wf(),
            0 <= k < f.len(),
            f[k] == Ok::<PublicRooms, SearchError>(*page),
            j <= page.chunk@.len(),
            tx.rooms@ == start + page.chunk@.subrange(0, j as int).map_values(
                |r: Room| record_of(*server, r),
            ),
            registered(before, tx.servers@, |h: Seq<char>| named_before(f, k, j as int, h)),
        decreases page.chunk@.len() - j,
    {
        let room = &page.chunk[j];
        let ghost mid = tx.servers@;
        tx.insert_room(RoomRecord::from_room(server, room));
        assert(page.chunk@.subrange(0, j + 1).map_values(|r: Room| record_of(*server, r))
            =~= page.chunk@.subrange(0, j as int).map_values(|r: Room| record_of(*server, r)).push(
            record_of(*server, *room),
        ));
        let mut named: Option<String> = None;
        match &room.canonical_alias {
            Some(a) => {
                named = get_hostname(a.as_str());
            },
            None => {},
        }
        proof {
            assert forall|h: Seq<char>|
                named_before(f, k, j + 1, h) == (named_before(f, k, j as int, h) || names_host(
                    *room,
                    h,
                )) by {
                if names_host(*room, h) {
                    assert(names_host(f[k]->Ok_0.chunk@[j as int], h));
                }
                if named_before(f, k, j + 1, h) && !named_before(f, k, j as int, h) {
                    let (i, m) = choose|i: int, m: int|
                        0 <= i <= k && 0 <= m < f[i]->Ok_0.chunk@.len() && (i < k || m < j + 1)
                            && #[trigger] names_host(f[i]->Ok_0.chunk@[m], h);
                    assert(i == k && m == j);
                }
            }
        }
        match named {
            Some(h) => {
                let ghost hv = h@;
                tx.upsert_server_if_absent(h);
                proof {
                    let after = tx.servers@;
                    assert(names_host(*room, hv));
                    assert forall|x: Seq<char>| named_before(f, k, j + 1, x) implies has_host(
                        after,
                        x,
                    ) by {
                        if named_before(f, k, j as int, x) {
                            lemma_registered_has_host(
                                before,
                                mid,
                                |h: Seq<char>| named_before(f, k, j as int, h),
                                x,
                            );
                            let i = choose|i: int| 0 <= i < mid.len() && mid[i].host@ == x;
                            assert(after[i] == mid[i]);
                        } else {
                            assert(names_host(*room, x));
                            assert(x == hv);
                            if has_host(mid, hv) {
                                let i = choose|i: int| 0 <= i < mid.len() && mid[i].host@ == hv;
                                assert(after[i] == mid[i]);
                            } else {
                                assert(after[after.len() - 1].host@ == hv);
                            }
                        }
                    }
                    if !has_host(mid, hv) {
                        assert(!has_host(before, hv)) by {
                            if has_host(before, hv) {
                                let i = choose|i: int| 0 <= i < before.len() && before[i].host@ == hv;
                                assert(mid[i] == before[i]);
                            }
                        }
                        assert forall|i: int| 0 <= i < mid.len() implies after[i] == mid[i] by {
                            assert(after.drop_last()[i] == after[i]);
                        }
                    }
                }
            },
            None => {
                proof {
                    assert forall|x: Seq<char>| named_before(f, k, j + 1, x) implies has_host(
                        tx.servers@,
                        x,
                    ) by {
                        if named_before(f, k, j as int, x) {
                            lemma_registered_has_host(
                                before,
                                tx.servers@,
                                |h: Seq<char>| named_before(f, k, j as int, h),
                                x,
                            );
                        } else {
                            assert(names_host(*room, x));
                        }
                    }
                }
            },
        }
        j = j + 1;
    }
    proof {
        assert(page.chunk@.subrange(0, j as int) =~= page.chunk@);
        assert forall|h: Seq<char>|
            named_before(f, k, j as int, h) == named_before(f, k + 1, 0, h) by {
            if named_before(f, k + 1, 0, h) {
                let (i, m) = choose|i: int, m: int|
                    0 <= i <= k + 1 && 0 <= m < f[i]->Ok_0.chunk@.len() && (i < k + 1 || m < 0)
                        && #[trigger] names_host(f[i]->Ok_0.chunk@[m], h);
                assert(i <= k);
            }
        }
        lemma_registered_same_hosts(
            before,
            tx.servers@,
            |h: Seq<char>| named_before(f, k, j as int, h),
            |h: Seq<char>| named_before(f, k + 1, 0, h),
        );
    }
}

/// Crawls the directory of `server`, reached at `address`, into `store`.
///
/// `fetched` holds the outcome of each request in turn. The rooms that were
/// stored for `server` are replaced by those of every page fetched, and each
/// server named by an alias is registered unless known. All of this happens
/// on a copy that replaces the store only once the last page has come: on a
/// failed request the store is left as it was. Also returns the requests
/// made, in order.
pub fn ingest(store: &mut MemoryStore, server: &String, address: &String, fetched: &Vec<Fetched>) -> (r: (
    Result<(), SearchError>,
    Vec<String>,
))
    requires
        old(store).wf(),
        exists|k: int| is_last_fetch(fetched@, k),
    ensures
        final(store).wf(),
        forall|k: int|
            #![trigger is_last_fetch(fetched@, k)]
            is_last_fetch(fetched@, k) ==> {
                &&& r.1@.len() == k + 1
                &&& forall|i: int| 0 <= i <= k ==> r.1@[i]@ == requested_url(address@, fetched@, i)
                &&& match fetched@[k] {
                    Err(e) => r.0 == Err::<(), SearchError>(e) && *final(store) == *old(store),
                    Ok(_) => r.0 is Ok && crawled(*old(store), *final(store), *server, fetched@, k),
                }
            },
{
    let ghost last = choose|k: int| is_last_fetch(fetched@, k);
    let ghost base = old(store).rooms@.filter(not_on(server@));
    let mut tx = store.duplicate();
    tx.delete_rooms(server);
    let mut pager = Paginator::new(address.clone());
    let mut urls: Vec<String> = Vec::new();
    let n = fetched.len();
    let mut k: usize = 0;
    proof {
        assert forall|l: int| is_last_fetch(fetched@, l) implies l == last by {
            lemma_last_fetch_unique(fetched@, l, last);
        }
    }
    loop
        invariant
            n == fetched@.len(),
            base == old(store).rooms@.filter(not_on(server@)),
            forall|l: int| is_last_fetch(fetched@, l) ==> l == last,
            is_last_fetch(fetched@, last),
            0 <= k <= last,
            *store == *old(store),
            tx.wf(),
            pager.address == *address,
            !pager.finished,
            k == 0 ==> pager.since is None,
            k > 0 ==> pager.since == fetched@[k - 1]->Ok_0.next_batch,
            urls@.len() == k,
            forall|i: int| 0 <= i < k ==> urls@[i]@ == requested_url(address@, fetched@, i),
            tx.rooms@ == base + records_upto(*server, fetched@, k as int),
            registered(
                old(store).servers@,
                tx.servers@,
                |h: Seq<char>| named_before(fetched@, k as int, 0, h),
            ),
        decreases last - k,
    {
        urls.push(pager.next_url().unwrap());
        assert(!stops(fetched@[k as int]) || k == last) by {
            if k < last {
                assert(!stops(fetched@[k as int]));
            }
        }
        match &fetched[k] {
            Err(e) => {
                assert(k == last);
                return (Err(*e), urls);
            },
            Ok(page) => {
                proof {
                    assert(records_upto(*server, fetched@, k + 1) == records_upto(
                        *server,
                        fetched@,
                        k as int,
                    ) + page_records(*server, *page));
                }
                ingest_page(
                    &mut tx,
                    server,
                    page,
                    Ghost(fetched@),
                    Ghost(k as int),
                    Ghost(old(store).servers@),
                );
                assert(tx.rooms@ =~= base + records_upto(*server, fetched@, k + 1));
                pager.advance(&page.next_batch);
                if pager.finished {
                    assert(k == last);
                    *store = tx;
                    return (Ok(()), urls);
                }
                assert(k < last);
                k = k + 1;
            },
        }
    }
}


/// Keeps the rooms that were observed on `server`.
pub open spec fn on(server: Seq<char>) -> spec_fn(RoomRecord) -> bool {
    |r: RoomRecord| r.server@ == server
}

/// Every row of the first `n` pages was observed on `server`.
proof fn lemma_records_on_server(server: String, f: Seq<Fetched>, n: int)
    ensures
        forall|i: int|
            0 <= i < records_upto(server, f, n).len() ==> #[trigger] records_upto(
                server,
                f,
                n,
            )[i].server == server,
    decreases n,
{
    if n > 0 {
        lemma_records_on_server(server, f, n - 1);
        let prev = records_upto(server, f, n - 1);
        let page = page_records(server, f[n - 1]->Ok_0);
        assert forall|i: int| 0 <= i < (prev + page).len() implies #[trigger] (prev + page)[i].server
            == server by {
            if i >= prev.len() {
                assert(page[i - prev.len()].server == server);
            } else {
                assert(prev[i].server == server);
            }
        }
    }
}

/// A filter that every element passes keeps the sequence whole.
proof fn lemma_filter_keeps_all(s: Seq<RoomRecord>, p: spec_fn(RoomRecord) -> bool)
    requires
        forall|i: int| 0 <= i < s.len() ==> #[trigger] p(s[i]),
    ensures
        s.filter(p) == s,
    decreases s.len(),
{
    reveal(Seq::filter);
    if s.len() > 0 {
        lemma_filter_keeps_all(s.drop_last(), p);
        assert(s.drop_last().push(s.last()) =~= s);
    }
}

/// After a successful crawl of `server`, the rooms stored for it are exactly
/// those of the pages fetched, in order: none from an earlier crawl is left.
pub proof fn lemma_crawl_replaces_rooms(
    before: MemoryStore,
    after: MemoryStore,
    server: String,
    f: Seq<Fetched>,
    k: int,
)
    requires
        crawled(before, after, server, f, k),
    ensures
        after.rooms@.filter(on(server@)) == records_upto(server, f, k + 1),
{
    let kept = before.rooms@.filter(not_on(server@));
    let recs = records_upto(server, f, k + 1);
    Seq::filter_distributes_over_add(kept, recs, on(server@));
    assert forall|i: int| 0 <= i < kept.len() implies !(#[trigger] on(server@)(kept[i])) by {
        before.rooms@.lemma_filter_pred(not_on(server@), i);
    }
    kept.lemma_all_neg_filter_empty(on(server@));
    assert(kept.filter(on(server@)) =~= Seq::<RoomRecord>::empty());
    lemma_records_on_server(server, f, k + 1);
    lemma_filter_keeps_all(recs, on(server@));
    assert(Seq::<RoomRecord>::empty() + recs =~= recs);
}

/// A crawl never alters the record of a server that was already known, nor
/// its place in the store; a server that an alias names, if it was not known,
/// is added with a fresh record.
pub proof fn lemma_crawl_keeps_known_servers(
    before: MemoryStore,
    after: MemoryStore,
    server: String,
    f: Seq<Fetched>,
    k: int,
    i: int,
)
    requires
        crawled(before, after, server, f, k),
        0 <= i < before.servers@.len(),
    ensures
        after.servers@[i] == before.servers@[i],
        forall|j: int|
            before.servers@.len() <= j < after.servers@.len() ==> (#[trigger] after.servers@[j]).is_fresh(),
{
}

} // verus!
