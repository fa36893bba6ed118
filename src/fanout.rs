//! Gathering the outcomes of work done item by item, under a stated policy
//! for the items that failed.
use vstd::prelude::*;

verus! {

/// What happens to the batch when some items failed.
#[derive(Clone, Copy, Debug, PartialEq, Eq, Structural)]
pub enum FanOutPolicy {
    /// The first failure, in input order, fails the whole batch.
    Propagate,
    /// Failed items are left out, and their positions are reported.
    DropAndReport,
}

/// The values of the items that succeeded, in input order, and the positions
/// of those that failed.
#[derive(Debug)]
pub struct Gathered<T> {
    pub values: Vec<T>,
    pub dropped: Vec<usize>,
}

/// The values of the successful outcomes of `rs`, in order.
pub open spec fn successes<T, E>(rs: Seq<Result<T, E>>) -> Seq<T>
    decreases rs.len(),
{
    if rs.len() == 0 {
        Seq::empty()
    } else {
        let p = successes(rs.drop_last());
        match rs.last() {
            Ok(v) => p.push(v),
            Err(_) => p,
        }
    }
}

/// The positions of the failed outcomes of `rs`, in increasing order.
pub open spec fn failed_positions<T, E>(rs: Seq<Result<T, E>>) -> Seq<int>
    decreases rs.len(),
{
    if rs.len() == 0 {
        Seq::empty()
    } else {
        let p = failed_positions(rs.drop_last());
        match rs.last() {
            Ok(_) => p,
            Err(_) => p.push(rs.len() - 1),
        }
    }
}

/// `i` is the first position of `rs` that failed, with error `e`.
pub open spec fn is_first_failure<T, E>(rs: Seq<Result<T, E>>, i: int, e: E) -> bool {
    &&& 0 <= i < rs.len()
    &&& rs[i] == Err::<T, E>(e)
    &&& forall|j: int| 0 <= j < i ==> rs[j] is Ok
}

/// What `gather` returns for the outcomes `rs` under `policy`.
pub open spec fn is_gathered<T, E>(
    rs: Seq<Result<T, E>>,
    policy: FanOutPolicy,
    r: Result<Gathered<T>, (usize, E)>,
) -> bool {
    match r {
        Ok(g) => {
            &&& policy == FanOutPolicy::Propagate ==> forall|i: int| 0 <= i < rs.len() ==> rs[i] is Ok
            &&& g.values@ == successes(rs)
            &&& g.dropped@.map_values(|i: usize| i as int) == failed_positions(rs)
        },
        Err((i, e)) => {
            &&& policy == FanOutPolicy::Propagate
            &&& is_first_failure(rs, i as int, e)
        },
    }
}

proof fn lemma_no_failures<T, E>(rs: Seq<Result<T, E>>)
    requires
        forall|i: int| 0 <= i < rs.len() ==> rs[i] is Ok,
    ensures
        failed_positions(rs) == Seq::<int>::empty(),
        successes(rs).len() == rs.len(),
    decreases rs.len(),
{
    if rs.len() > 0 {
        lemma_no_failures(rs.drop_last());
    }
}

/// Gathers the outcomes of a batch, in input order. Under `Propagate` the
/// batch fails with the position and error of its first failed item, if
/// any; under `DropAndReport` it never fails, and the positions of the
/// failed items are reported beside the values of the others.
pub fn gather<T, E>(results: Vec<Result<T, E>>, policy: FanOutPolicy) -> (r: Result<
    Gathered<T>,
    (usize, E),
>)
    ensures
        is_gathered(results@, policy, r),
        policy == FanOutPolicy::DropAndReport ==> r is Ok,
        policy == FanOutPolicy::Propagate ==> (r is Ok <==> forall|i: int|
            0 <= i < results@.len() ==> results@[i] is Ok),
{
    let ghost all = results@;
    let n = results.len();
    let mut rest = results;
    let mut values: Vec<T> = Vec::new();
    let mut dropped: Vec<usize> = Vec::new();
    let mut k: usize = 0;
    proof {
        assert(all.subrange(0, 0) =~= Seq::<Result<T, E>>::empty());
        assert(dropped@.map_values(|i: usize| i as int) =~= Seq::<int>::empty());
    }
    while k < n
        invariant
            n == all.len(),
            all == results@,
            k <= n,
            rest@ == all.subrange(k as int, n as int),
            values@ == successes(all.subrange(0, k as int)),
            dropped@.map_values(|i: usize| i as int) == failed_positions(all.subrange(0, k as int)),
            policy == FanOutPolicy::Propagate ==> forall|j: int| 0 <= j < k ==> all[j] is Ok,
        decreases n - k,
    {
        let ghost prefix = all.subrange(0, k as int);
        let ghost next = all.subrange(0, k + 1);
        let ghost old_dropped = dropped@;
        proof {
            assert(next.drop_last() =~= prefix);
            assert(next.last() == all[k as int]);
        }
        let item = rest.remove(0);
        assert(item == all[k as int]);
        match item {
            Ok(v) => {
                values.push(v);
            },
            Err(e) => {
                if policy == FanOutPolicy::Propagate {
                    assert(!(all[k as int] is Ok));
                    return Err((k, e));
                }
                dropped.push(k);
                proof {
                    assert(dropped@.map_values(|i: usize| i as int) =~= old_dropped.map_values(
                        |i: usize| i as int,
                    ).push(k as int));
                }
            },
        }
        proof {
            assert(rest@ =~= all.subrange(k + 1, n as int));
        }
        k = k + 1;
    }
    proof {
        assert(all.subrange(0, n as int) =~= all);
    }
    Ok(Gathered { values, dropped })
}

/// With exactly one failed item in a batch, propagating hands back that
/// item's failure, and dropping keeps the values of all the other items, in
/// order, and reports the one failed position.
pub proof fn lemma_one_failure<T, E>(
    rs: Seq<Result<T, E>>,
    k: int,
    policy: FanOutPolicy,
    r: Result<Gathered<T>, (usize, E)>,
)
    requires
        0 <= k < rs.len(),
        rs[k] is Err,
        forall|j: int| 0 <= j < rs.len() && j != k ==> rs[j] is Ok,
        is_gathered(rs, policy, r),
        policy == FanOutPolicy::DropAndReport ==> r is Ok,
    ensures
        policy == FanOutPolicy::Propagate ==> (r matches Err((i, e)) && i == k && rs[k] == Err::<
            T,
            E,
        >(e)),
        policy == FanOutPolicy::DropAndReport ==> (r matches Ok(g) && g.values@.len() == rs.len()
            - 1 && g.dropped@ == seq![k as usize]),
{
    lemma_one_failure_counts(rs, k);
    if let Ok(g) = r {
        if policy == FanOutPolicy::DropAndReport {
            assert(g.dropped@.map_values(|i: usize| i as int).len() == 1);
            assert(g.dropped@[0] as int == g.dropped@.map_values(|i: usize| i as int)[0]);
            assert(g.dropped@ =~= seq![k as usize]);
        } else {
            assert(rs[k] is Ok);
        }
    }
}

proof fn lemma_one_failure_counts<T, E>(rs: Seq<Result<T, E>>, k: int)
    requires
        0 <= k < rs.len(),
        rs[k] is Err,
        forall|j: int| 0 <= j < rs.len() && j != k ==> rs[j] is Ok,
    ensures
        successes(rs).len() == rs.len() - 1,
        failed_positions(rs) == seq![k],
    decreases rs.len(),
{
    if k == rs.len() - 1 {
        lemma_no_failures(rs.drop_last());
        assert(failed_positions(rs) =~= seq![k]);
    } else {
        lemma_one_failure_counts(rs.drop_last(), k);
    }
}

} // verus!
