use vstd::prelude::*;

use crate::models::Server;

verus! {

/// Milliseconds between the launch of one server's crawl and the next.
pub const LAUNCH_DELAY_MS: u64 = 500;

/// The hosts to crawl in one round: every known server, in the order the
/// store lists them, or the start host alone when none is known yet.
pub fn crawl_targets(known: &Vec<Server>, start: &str) -> (r: Vec<String>)
    ensures
        known@.len() == 0 ==> r@.len() == 1 && r@[0]@ == start@,
        known@.len() > 0 ==> r@.len() == known@.len() && forall|i: int|
            0 <= i < known@.len() ==> r@[i] == known@[i].host,
{
    let mut r: Vec<String> = Vec::new();
    if known.len() == 0 {
        r.push(start.to_owned());
        return r;
    }
    let mut i: usize = 0;
    while i < known.len()
        invariant
            i <= known@.len(),
            r@.len() == i,
            forall|j: int| 0 <= j < i ==> r@[j] == known@[j].host,
        decreases known@.len() - i,
    {
        r.push(known[i].host.clone());
        i = i + 1;
    }
    r
}

/// When the crawl of the `index`-th target starts, in milliseconds after
/// the first; `None` where that does not fit in a `u64`.
pub fn launch_offset_ms(index: u64) -> (r: Option<u64>)
    ensures
        index * LAUNCH_DELAY_MS <= u64::MAX ==> r == Some((index * LAUNCH_DELAY_MS) as u64),
        index * LAUNCH_DELAY_MS > u64::MAX ==> r is None,
{
    index.checked_mul(LAUNCH_DELAY_MS)
}

} // verus!
