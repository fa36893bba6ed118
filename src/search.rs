//! What a similarity search asks of the store, and what its answer must
//! satisfy.
use vstd::prelude::*;

verus! {

/// A top-k search over a collection: at most `limit` hits, with their
/// payloads, exact or approximate.
#[derive(Debug)]
pub struct SearchRequest {
    pub collection: String,
    pub limit: u64,
    pub with_payload: bool,
    pub exact: bool,
}

/// The search that the query client sends: the `top_k` nearest points of
/// `collection`, each with its payload.
pub fn search_request(collection: &str, top_k: u64, exact: bool) -> (r: SearchRequest)
    ensures
        r.collection@ == collection@,
        r.limit == top_k,
        r.with_payload,
        r.exact == exact,
{
    SearchRequest { collection: collection.to_owned(), limit: top_k, with_payload: true, exact }
}

/// An answer is sound when it has at most `top_k` hits and each hit is a
/// point that was stored.
pub open spec fn hits_sound(hits: Seq<u64>, top_k: u64, stored: Seq<u64>) -> bool {
    &&& hits.len() <= top_k
    &&& forall|i: int| 0 <= i < hits.len() ==> stored.contains(#[trigger] hits[i])
}

/// Whether the ids of a search's hits are sound for a collection holding the
/// points `stored`.
pub fn check_hits(hits: &Vec<u64>, top_k: u64, stored: &Vec<u64>) -> (r: bool)
    ensures
        r == hits_sound(hits@, top_k, stored@),
{
    if hits.len() as u64 > top_k {
        return false;
    }
    let mut i: usize = 0;
    while i < hits.len()
        invariant
            i <= hits.len(),
            forall|k: int| 0 <= k < i ==> stored@.contains(#[trigger] hits@[k]),
        decreases hits.len() - i,
    {
        let mut found = false;
        let mut j: usize = 0;
        while j < stored.len()
            invariant
                i < hits.len(),
                j <= stored.len(),
                found ==> stored@.contains(hits@[i as int]),
                !found ==> forall|l: int| 0 <= l < j ==> stored@[l] != hits@[i as int],
            decreases stored.len() - j,
        {
            if stored[j] == hits[i] {
                found = true;
            }
            j = j + 1;
        }
        if !found {
            assert(!stored@.contains(hits@[i as int]));
            return false;
        }
        i = i + 1;
    }
    true
}

} // verus!
