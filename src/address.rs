use vstd::prelude::*;

use crate::models::ServerWellKnown;

verus! {

/// What `urlencoding::encode` makes of a string.
pub uninterp spec fn url_encoded(s: Seq<char>) -> Seq<char>;

/// Relies on `urlencoding::encode`, which percent-encodes every byte but
/// alphanumerics and `-`, `_`, `.`, `~`; the result depends on the input
/// alone.
#[verifier::external_body]
fn encode_component(s: &str) -> (r: String)
    ensures
        r@ == url_encoded(s@),
{
    urlencoding::encode(s).into_owned()
}

/// Where a server publishes its well-known delegation document.
pub open spec fn wellknown_url_of(host: Seq<char>) -> Seq<char> {
    "https://"@ + host + "/.well-known/matrix/server"@
}

/// The request for one directory page of `address`: the first page has no
/// token, each later one carries the encoded token of the page before it.
pub open spec fn page_url_of(address: Seq<char>, since: Option<Seq<char>>) -> Seq<char> {
    let base = "https://"@ + address + "/_matrix/client/v3/publicRooms?limit=5000"@;
    match since {
        None => base,
        Some(t) => base + "&since="@ + url_encoded(t),
    }
}

/// The address to crawl for `host`, given what its well-known lookup gave:
/// the delegated address where the lookup succeeded and named a non-empty
/// one, `host` itself otherwise.
pub open spec fn resolved_address(host: Seq<char>, lookup: Option<Option<Seq<char>>>) -> Seq<char> {
    match lookup {
        Some(Some(d)) => if d.len() > 0 {
            d
        } else {
            host
        },
        _ => host,
    }
}

/// Resolution falls back to the host itself when the lookup failed (the
/// request, or the parse of its body), when the document names no
/// delegated address, and when the one it names is empty.
pub proof fn lemma_resolution_falls_back(host: Seq<char>)
    ensures
        resolved_address(host, None) == host,
        resolved_address(host, Some(None)) == host,
        resolved_address(host, Some(Some(Seq::empty()))) == host,
{
}

/// What a well-known lookup gave: `None` where the request or the parse
/// failed, else the document's delegated address, if it names one.
pub open spec fn delegation_of(lookup: Option<ServerWellKnown>) -> Option<Option<Seq<char>>> {
    match lookup {
        Some(doc) => match doc.server {
            Some(d) => Some(Some(d@)),
            None => Some(None),
        },
        None => None,
    }
}

/// The URL of `host`'s well-known delegation document.
pub fn wellknown_url(host: &str) -> (r: String)
    ensures
        r@ == wellknown_url_of(host@),
{
    let mut url = "https://".to_owned();
    url.append(host);
    url.append("/.well-known/matrix/server");
    url
}

/// The address to crawl for `host`. `lookup` is the outcome of its
/// well-known lookup, `None` where the request failed or its body did not
/// parse; every failure leads back to `host`.
pub fn resolve_address(host: &str, lookup: Option<ServerWellKnown>) -> (r: String)
    ensures
        r@ == resolved_address(host@, delegation_of(lookup)),
{
    match lookup {
        Some(doc) => match doc.server {
            Some(d) => {
                if d.as_str().is_empty() {
                    host.to_owned()
                } else {
                    d
                }
            },
            None => host.to_owned(),
        },
        None => host.to_owned(),
    }
}

/// The URL of one directory page of `address`; `since` is the continuation
/// token of the page before, absent for the first page.
pub fn page_url(address: &str, since: Option<&str>) -> (r: String)
    ensures
        r@ == page_url_of(
            address@,
            match since {
                Some(t) => Some(t@),
                None => None,
            },
        ),
{
    let mut url = "https://".to_owned();
    url.append(address);
    url.append("/_matrix/client/v3/publicRooms?limit=5000");
    match since {
        Some(t) => {
            url.append("&since=");
            let token = encode_component(t);
            url.append(token.as_str());
        },
        None => {},
    }
    url
}

} // verus!
