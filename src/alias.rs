use vstd::prelude::*;

verus! {

/// `i` is the position of the first `:` in `a`.
pub open spec fn is_first_colon(a: Seq<char>, i: int) -> bool {
    &&& 0 <= i < a.len()
    &&& a[i] == ':'
    &&& forall|j: int| 0 <= j < i ==> a[j] != ':'
}

/// The server named by a room alias: everything after its first `:`, when
/// that remainder is not empty.
pub open spec fn hostname_of(a: Seq<char>) -> Option<Seq<char>> {
    if exists|i: int| is_first_colon(a, i) {
        let i = choose|i: int| is_first_colon(a, i);
        if i + 1 < a.len() {
            Some(a.subrange(i + 1, a.len() as int))
        } else {
            None
        }
    } else {
        None
    }
}

/// There is at most one first `:`.
pub proof fn lemma_first_colon_unique(a: Seq<char>, i: int, k: int)
    requires
        is_first_colon(a, i),
        is_first_colon(a, k),
    ensures
        i == k,
{
    if i < k {
        assert(a[i] != ':');
    } else if k < i {
        assert(a[k] != ':');
    }
}

/// An alias with no `:` names no server.
pub proof fn lemma_no_colon_no_hostname(a: Seq<char>)
    requires
        forall|j: int| 0 <= j < a.len() ==> a[j] != ':',
    ensures
        hostname_of(a) is None,
{
}

/// The server that a room alias names, if it names one.
pub fn get_hostname(alias: &str) -> (r: Option<String>)
    ensures
        r matches Some(h) ==> hostname_of(alias@) == Some(h@),
        r is None <==> hostname_of(alias@) is None,
{
    let n = alias.unicode_len();
    let mut i: usize = 0;
    while i < n
        invariant
            n == alias@.len(),
            i <= n,
            forall|j: int| 0 <= j < i ==> alias@[j] != ':',
        decreases n - i,
    {
        if alias.get_char(i) == ':' {
            proof {
                lemma_hostname_after_first_colon(alias@, i as int);
            }
            if i + 1 < n {
                return Some(alias.substring_char(i + 1, n).to_owned());
            } else {
                return None;
            }
        }
        i = i + 1;
    }
    assert(!exists|k: int| is_first_colon(alias@, k));
    None
}

/// Where the first `:` of an alias is followed by a non-empty remainder,
/// the alias names the server given by that remainder; where it is the last
/// character, the alias names no server.
pub proof fn lemma_hostname_after_first_colon(a: Seq<char>, i: int)
    requires
        is_first_colon(a, i),
    ensures
        i + 1 < a.len() ==> hostname_of(a) == Some(a.subrange(i + 1, a.len() as int)),
        i + 1 >= a.len() ==> hostname_of(a) is None,
{
    let k = choose|k: int| is_first_colon(a, k);
    lemma_first_colon_unique(a, i, k);
}

} // verus!
