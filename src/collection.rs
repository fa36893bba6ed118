//! Making sure that the collection exists, with the right vector size.
use vstd::prelude::*;

verus! {

/// How the store compares two vectors.
#[derive(Clone, Copy, Debug, PartialEq, Eq, Structural)]
pub enum Metric {
    Cosine,
    Dot,
    Euclid,
    Manhattan,
}

/// What a collection is created with: its name, the length of its vectors
/// and its metric.
#[derive(Debug)]
pub struct CollectionConfig {
    pub name: String,
    pub dimension: u64,
    pub metric: Metric,
}

/// What the caller does with the store after asking whether the collection
/// exists.
#[derive(Debug)]
pub enum CollectionStep {
    /// The collection is missing: create it so.
    Create(CollectionConfig),
    /// The collection is there: leave it as it is.
    AlreadyExists,
}

/// The collections of a store, each name with its vector length and metric.
pub type Collections = Map<Seq<char>, (u64, Metric)>;

/// The step that `ensure_collection` owes.
pub open spec fn is_ensure_step(
    exists: bool,
    name: Seq<char>,
    dimension: u64,
    metric: Metric,
    r: CollectionStep,
) -> bool {
    if exists {
        r is AlreadyExists
    } else {
        &&& r matches CollectionStep::Create(c)
        &&& c.name@ == name
        &&& c.dimension == dimension
        &&& c.metric == metric
    }
}

/// The store after the caller has performed `step`.
pub open spec fn after_step(store: Collections, step: CollectionStep) -> Collections {
    match step {
        CollectionStep::Create(c) => store.insert(c.name@, (c.dimension, c.metric)),
        CollectionStep::AlreadyExists => store,
    }
}

/// How many collections `step` creates.
pub open spec fn creations(step: CollectionStep) -> nat {
    match step {
        CollectionStep::Create(_) => 1,
        CollectionStep::AlreadyExists => 0,
    }
}

/// Decides, from whether the store already has a collection called `name`,
/// whether it must be created, and with what.
pub fn ensure_collection(exists: bool, name: &str, dimension: u64, metric: Metric) -> (r:
    CollectionStep)
    ensures
        is_ensure_step(exists, name@, dimension, metric, r),
{
    if exists {
        CollectionStep::AlreadyExists
    } else {
        CollectionStep::Create(CollectionConfig { name: name.to_owned(), dimension, metric })
    }
}

/// Ensuring a collection twice in a row with the same parameters creates it
/// exactly once when it was missing and never when it was there: the second
/// step finds it and leaves the store as the first step left it.
pub proof fn lemma_ensure_twice(
    store: Collections,
    name: Seq<char>,
    dimension: u64,
    metric: Metric,
    first: CollectionStep,
    second: CollectionStep,
)
    requires
        is_ensure_step(store.contains_key(name), name, dimension, metric, first),
        is_ensure_step(
            after_step(store, first).contains_key(name),
            name,
            dimension,
            metric,
            second,
        ),
    ensures
        after_step(store, first).contains_key(name),
        second is AlreadyExists,
        after_step(after_step(store, first), second) == after_step(store, first),
        creations(first) + creations(second) == (if store.contains_key(name) {
            0nat
        } else {
            1nat
        }),
        !store.contains_key(name) ==> after_step(store, first)[name] == (dimension, metric),
{
}

/// The vector length shared by all the given vector lengths; none when there
/// are no vectors or two of them differ.
pub open spec fn common_dimension(lengths: Seq<usize>) -> Option<u64> {
    if lengths.len() > 0 && forall|i: int| 0 <= i < lengths.len() ==> #[trigger] lengths[i] == lengths[0] {
        Some(lengths[0] as u64)
    } else {
        None
    }
}

/// The length of the vectors that a collection must hold, read from the
/// lengths of a batch of vectors; none when the batch is empty or its vectors
/// differ in length.
pub fn vector_dimension(lengths: &Vec<usize>) -> (r: Option<u64>)
    ensures
        r == common_dimension(lengths@),
{
    if lengths.len() == 0 {
        return None;
    }
    let first = lengths[0];
    let mut i: usize = 1;
    while i < lengths.len()
        invariant
            1 <= i <= lengths.len(),
            first == lengths@[0],
            forall|j: int| 0 <= j < i ==> lengths@[j] == first,
        decreases lengths.len() - i,
    {
        if lengths[i] != first {
            return None;
        }
        i = i + 1;
    }
    Some(first as u64)
}

} // verus!
