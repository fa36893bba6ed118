//! Turning documents into the points that the store indexes: one point per
//! non-empty document, identified by the document's position.
use vstd::prelude::*;
use vstd::string::StringExecFns;

verus! {

/// The JSON text of a string value: quoted, with its special characters
/// escaped.
pub uninterp spec fn json_string_of(s: Seq<char>) -> Seq<char>;

/// Relies on serde_json's `Value::String` and its `Display`: the compact JSON
/// text of a string value, which depends on the string alone.
#[verifier::external_body]
fn json_string(s: &str) -> (r: String)
    ensures
        r@ == json_string_of(s@),
{
    serde_json::Value::String(s.to_owned()).to_string()
}

/// The text that opens a point's payload, up to the document's value.
pub open spec fn payload_head() -> Seq<char> {
    seq!['{', '"', 'd', 'o', 'c', 'u', 'm', 'e', 'n', 't', '"', ':']
}

/// A point's payload, as JSON text: an object whose one field, `document`,
/// holds the document's text.
pub open spec fn payload_of(doc: Seq<char>) -> Seq<char> {
    payload_head() + json_string_of(doc) + seq!['}']
}

/// The JSON payload that carries a document's text.
pub fn document_payload(doc: &str) -> (r: String)
    ensures
        r@ == payload_of(doc@),
{
    let value = json_string(doc);
    let mut out = String::from_str("{\"document\":");
    out.append(value.as_str());
    out.append("}");
    proof {
        reveal_strlit("{\"document\":");
        reveal_strlit("}");
        assert(out@ =~= payload_of(doc@));
    }
    out
}

/// The positions of the non-empty documents of `docs`, in increasing order.
pub open spec fn kept_ids(docs: Seq<Seq<char>>) -> Seq<int>
    decreases docs.len(),
{
    if docs.len() == 0 {
        Seq::empty()
    } else if docs.last().len() == 0 {
        kept_ids(docs.drop_last())
    } else {
        kept_ids(docs.drop_last()).push(docs.len() - 1)
    }
}

/// How many documents of `docs` are empty.
pub open spec fn empty_count(docs: Seq<Seq<char>>) -> nat
    decreases docs.len(),
{
    if docs.len() == 0 {
        0
    } else if docs.last().len() == 0 {
        empty_count(docs.drop_last()) + 1
    } else {
        empty_count(docs.drop_last())
    }
}

/// A point to be stored, but for its vector: the document's position, which
/// is also the position of its vector among the embeddings, and its payload.
#[derive(Debug)]
pub struct PointPlan {
    pub id: u64,
    pub payload: String,
}

/// The texts of a batch of documents.
pub open spec fn texts(documents: Seq<String>) -> Seq<Seq<char>> {
    documents.map_values(|d: String| d@)
}

/// The points owed for `docs`: one for each non-empty document, in order,
/// each with the document's position and payload.
pub open spec fn is_point_plan(docs: Seq<Seq<char>>, r: Seq<PointPlan>) -> bool {
    &&& r.len() == kept_ids(docs).len()
    &&& forall|j: int|
        0 <= j < r.len() ==> {
            &&& #[trigger] r[j].id as int == kept_ids(docs)[j]
            &&& r[j].payload@ == payload_of(docs[kept_ids(docs)[j]])
        }
}

/// Plans the points for a batch of documents: empty documents get none, and
/// each other document keeps its position in the batch as its id.
pub fn plan_points(documents: &Vec<String>) -> (r: Vec<PointPlan>)
    ensures
        is_point_plan(texts(documents@), r@),
{
    let ghost docs = texts(documents@);
    let mut out: Vec<PointPlan> = Vec::new();
    let mut i: usize = 0;
    while i < documents.len()
        invariant
            i <= documents.len(),
            docs == texts(documents@),
            is_point_plan(docs.subrange(0, i as int), out@),
            forall|j: int| 0 <= j < kept_ids(docs.subrange(0, i as int)).len() ==>
                0 <= #[trigger] kept_ids(docs.subrange(0, i as int))[j] < i,
        decreases documents.len() - i,
    {
        let ghost before = docs.subrange(0, i as int);
        let ghost after = docs.subrange(0, i + 1);
        proof {
            assert(after.drop_last() =~= before);
            assert(after.last() == documents@[i as int]@);
        }
        let doc = documents[i].as_str();
        if doc.is_empty() {
            proof {
                assert forall|j: int| 0 <= j < out@.len() implies docs.subrange(0, i + 1)[kept_ids(
                    before,
                )[j]] == before[kept_ids(before)[j]] by {}
            }
        } else {
            let payload = document_payload(doc);
            out.push(PointPlan { id: i as u64, payload });
            proof {
                assert forall|j: int| 0 <= j < out@.len() - 1 implies after[kept_ids(before)[j]]
                    == before[kept_ids(before)[j]] by {}
            }
        }
        i = i + 1;
    }
    proof {
        assert(docs.subrange(0, documents.len() as int) =~= docs);
    }
    out
}

proof fn lemma_kept_ids_bounds(docs: Seq<Seq<char>>)
    ensures
        kept_ids(docs).len() + empty_count(docs) == docs.len(),
        forall|j: int|
            0 <= j < kept_ids(docs).len() ==> 0 <= #[trigger] kept_ids(docs)[j] < docs.len()
                && docs[kept_ids(docs)[j]].len() > 0,
        forall|j: int, l: int|
            0 <= j < l < kept_ids(docs).len() ==> #[trigger] kept_ids(docs)[j]
                < #[trigger] kept_ids(docs)[l],
    decreases docs.len(),
{
    if docs.len() > 0 {
        let p = docs.drop_last();
        lemma_kept_ids_bounds(p);
        assert forall|j: int| 0 <= j < kept_ids(p).len() implies docs[kept_ids(p)[j]] == p[kept_ids(
            p,
        )[j]] by {}
    }
}

/// Planning the points of a batch of `n` documents of which `k` are empty
/// gives exactly `n - k` points; each names a non-empty document by its
/// position, and their ids increase, so none is given twice.
pub proof fn lemma_points_skip_empty(docs: Seq<Seq<char>>, r: Seq<PointPlan>)
    requires
        is_point_plan(docs, r),
    ensures
        r.len() == docs.len() - empty_count(docs),
        forall|j: int| 0 <= j < r.len() ==> (#[trigger] r[j]).id < docs.len() && docs[r[j].id as int].len() > 0,
        forall|j: int, l: int| 0 <= j < l < r.len() ==> (#[trigger] r[j]).id < (#[trigger] r[l]).id,
{
    lemma_kept_ids_bounds(docs);
    assert forall|j: int| 0 <= j < r.len() implies (#[trigger] r[j]).id < docs.len() && docs[r[j].id as int].len() > 0 by {
        assert(r[j].id as int == kept_ids(docs)[j]);
    }
    assert forall|j: int, l: int| 0 <= j < l < r.len() implies (#[trigger] r[j]).id < (#[trigger] r[l]).id by {
        assert(r[j].id as int == kept_ids(docs)[j]);
        assert(r[l].id as int == kept_ids(docs)[l]);
    }
}

} // verus!
