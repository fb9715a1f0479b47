//! Batch building: results come back from the workers in any order, each tagged with
//! the position of its candidate, and are handed out in candidate order.
use vstd::prelude::*;
use crate::errors::TransactionBuilderError;

verus! {

/// A failure of the worker pool itself rather than of a build.
#[derive(Debug)]
pub enum BatchFailure {
    /// The worker pool was shut down.
    SemaphoreClosed,
    /// No worker became free in time.
    PermitTimeout,
    /// A worker task failed; its error text.
    JoinFailed(String),
}

/// The reason reported for a worker pool failure.
pub open spec fn batch_failure_reason(f: BatchFailure) -> Seq<char> {
    match f {
        BatchFailure::SemaphoreClosed => "Worker pool semaphore closed"@,
        BatchFailure::PermitTimeout => "Timeout acquiring worker pool permit"@,
        BatchFailure::JoinFailed(e) => "Task join error: "@ + e@,
    }
}

/// The build error that stands for a worker pool failure.
pub fn batch_failure_error(f: BatchFailure) -> (e: TransactionBuilderError)
    ensures
        e matches TransactionBuilderError::InstructionBuild { program, reason }
            && program@ == "batch_build"@ && reason@ == batch_failure_reason(f),
{
    let reason = match f {
        BatchFailure::SemaphoreClosed => String::from_str("Worker pool semaphore closed"),
        BatchFailure::PermitTimeout => String::from_str("Timeout acquiring worker pool permit"),
        BatchFailure::JoinFailed(e) => {
            let mut r = String::from_str("Task join error: ");
            r.append(e.as_str());
            r
        },
    };
    TransactionBuilderError::InstructionBuild { program: String::from_str("batch_build"), reason }
}

/// Are the results in order of their candidate positions?
pub open spec fn by_position<T>(s: Seq<(usize, T)>) -> bool {
    forall|i: int, j: int| 0 <= i < j < s.len() ==> s[i].0 <= s[j].0
}

/// The results that belong to position `k`, in their order.
pub open spec fn at_position<T>(s: Seq<(usize, T)>, k: usize) -> Seq<(usize, T)> {
    s.filter(position_is::<T>(k))
}

/// Does a result belong to position `k`?
pub open spec fn position_is<T>(k: usize) -> spec_fn((usize, T)) -> bool {
    |p: (usize, T)| p.0 == k
}

proof fn lemma_filter_none<T>(s: Seq<(usize, T)>, k: usize)
    requires
        forall|j: int| 0 <= j < s.len() ==> s[j].0 != k,
    ensures
        at_position(s, k) == Seq::<(usize, T)>::empty(),
{
    let f = at_position(s, k);
    if f.len() > 0 {
        s.lemma_filter_pred(position_is::<T>(k), 0);
        assert(f.contains(f[0]));
        s.lemma_filter_contains_rev(position_is::<T>(k), f[0]);
        let j = choose|j: int| 0 <= j < s.len() && s[j] == f[0];
        assert(s[j].0 == k);
    }
    assert(f =~= Seq::<(usize, T)>::empty());
}

proof fn lemma_single_at_position<T>(item: (usize, T), k: usize)
    ensures
        at_position(seq![item], k) == (if item.0 == k { seq![item] } else { Seq::<(usize, T)>::empty() }),
{
    let e = Seq::<(usize, T)>::empty();
    e.lemma_filter_prepend(item, position_is::<T>(k));
    assert(seq![item] + e =~= seq![item]);
    assert(e.filter(position_is::<T>(k)) =~= e) by {
        reveal(Seq::filter);
    }
}

/// Inserting `item` before every result of a position no smaller puts it first among
/// the results of its own position and leaves the other positions as they were.
proof fn lemma_insert_at_position<T>(prev: Seq<(usize, T)>, p: int, item: (usize, T), k: usize)
    requires
        0 <= p <= prev.len(),
        forall|j: int| 0 <= j < p ==> prev[j].0 < item.0,
    ensures
        at_position(prev.insert(p, item), k)
            == (if item.0 == k { seq![item] } else { Seq::<(usize, T)>::empty() }) + at_position(prev, k),
{
    let f = position_is::<T>(k);
    let a = prev.take(p);
    let b = prev.skip(p);
    assert(prev.insert(p, item) =~= (a + seq![item]) + b);
    assert(prev =~= a + b);
    Seq::filter_distributes_over_add(a + seq![item], b, f);
    Seq::filter_distributes_over_add(a, seq![item], f);
    Seq::filter_distributes_over_add(a, b, f);
    lemma_single_at_position(item, k);
    if item.0 == k {
        lemma_filter_none(a, k);
        assert(at_position(prev.insert(p, item), k) =~= seq![item] + at_position(prev, k));
    } else {
        assert(at_position(prev.insert(p, item), k) =~= at_position(prev, k));
        assert(Seq::<(usize, T)>::empty() + at_position(prev, k) =~= at_position(prev, k));
    }
}

/// The results sorted by candidate position: the same results, in position order, and
/// results of the same position in the order in which they came (a stable sort).
pub fn sort_batch_results<T>(results: Vec<(usize, T)>) -> (sorted: Vec<(usize, T)>)
    ensures
        sorted@.to_multiset() == results@.to_multiset(),
        by_position(sorted@),
        forall|k: usize| #[trigger] at_position(sorted@, k) == at_position(results@, k),
{
    broadcast use vstd::seq_lib::group_to_multiset_ensures;
    let ghost all = results@;
    let mut input = results;
    let mut sorted: Vec<(usize, T)> = Vec::new();
    proof {
        assert(all.subrange(0, all.len() as int) =~= all);
        assert forall|k: usize| #[trigger] at_position(sorted@, k)
            == at_position(all.subrange(all.len() as int, all.len() as int), k) by {
            assert(sorted@ =~= Seq::<(usize, T)>::empty());
            assert(all.subrange(all.len() as int, all.len() as int) =~= Seq::<(usize, T)>::empty());
        }
    }
    while input.len() > 0
        invariant
            sorted@.to_multiset().add(input@.to_multiset()) == all.to_multiset(),
            by_position(sorted@),
            input@.len() <= all.len(),
            input@ == all.subrange(0, input@.len() as int),
            forall|k: usize| #[trigger] at_position(sorted@, k)
                == at_position(all.subrange(input@.len() as int, all.len() as int), k),
        decreases input@.len(),
    {
        let ghost before = input@;
        let item = match input.pop() {
            Some(x) => x,
            None => {
                assert(false);
                return sorted;
            },
        };
        assert(before == input@.push(item));
        let mut p: usize = 0;
        while p < sorted.len()
            invariant_except_break
                p <= sorted@.len(),
                forall|j: int| 0 <= j < p ==> #[trigger] sorted@[j].0 < item.0,
            ensures
                p <= sorted@.len(),
                forall|j: int| 0 <= j < p ==> #[trigger] sorted@[j].0 < item.0,
                p < sorted@.len() ==> sorted@[p as int].0 >= item.0,
            decreases sorted@.len() - p,
        {
            if sorted[p].0 >= item.0 {
                break;
            }
            p += 1;
        }
        let ghost prev = sorted@;
        sorted.insert(p, item);
        assert(sorted@ == prev.insert(p as int, item));
        assert forall|i: int, j: int| 0 <= i < j < sorted@.len() implies sorted@[i].0 <= sorted@[j].0 by {
            if j < p {
                assert(sorted@[i] == prev[i] && sorted@[j] == prev[j]);
            } else if j == p {
                assert(sorted@[i] == prev[i]);
            } else if i == p {
                assert(sorted@[j] == prev[j - 1]);
                if j - 1 > p {
                    assert(prev[p as int].0 <= prev[j - 1].0);
                }
            } else if i < p {
                assert(sorted@[i] == prev[i] && sorted@[j] == prev[j - 1]);
            } else {
                assert(sorted@[i] == prev[i - 1] && sorted@[j] == prev[j - 1]);
            }
        }
        proof {
            vstd::seq_lib::to_multiset_insert(prev, p as int, item);
            vstd::seq_lib::to_multiset_build(input@, item);
        }
        assert(sorted@.to_multiset().add(input@.to_multiset()) =~= prev.to_multiset().add(before.to_multiset()));
        proof {
            let len = input@.len() as int;
            assert(input@ =~= all.subrange(0, len));
            assert(item == all[len]);
            let old_suffix = all.subrange(len + 1, all.len() as int);
            let new_suffix = all.subrange(len, all.len() as int);
            assert(new_suffix =~= seq![item] + old_suffix);
            assert forall|k: usize| #[trigger] at_position(sorted@, k) == at_position(new_suffix, k) by {
                lemma_insert_at_position(prev, p as int, item, k);
                old_suffix.lemma_filter_prepend(item, position_is::<T>(k));
                assert(at_position(prev, k) == at_position(old_suffix, k));
            }
        }
    }
    assert(input@.to_multiset() =~= vstd::multiset::Multiset::empty());
    assert(all.subrange(0, all.len() as int) =~= all);
    assert(sorted@.to_multiset().add(input@.to_multiset()) =~= sorted@.to_multiset());
    sorted
}

/// The results without their positions, in the same order.
pub fn batch_values<T>(sorted: Vec<(usize, T)>) -> (values: Vec<T>)
    ensures
        values@ == sorted@.map_values(|p: (usize, T)| p.1),
{
    let ghost all = sorted@;
    let mut rest = sorted;
    let mut values: Vec<T> = Vec::new();
    while rest.len() > 0
        invariant
            all == all.take(values@.len() as int) + rest@,
            values@ == all.take(values@.len() as int).map_values(|p: (usize, T)| p.1),
        decreases rest@.len(),
    {
        let ghost r = rest@;
        let ghost k = values@.len() as int;
        let (_, v) = rest.remove(0);
        values.push(v);
        assert(all.take(k + 1) =~= all.take(k).push(r[0]));
        assert(all == all.take(k + 1) + rest@) by {
            assert(all =~= all.take(k + 1) + rest@);
        }
        assert(values@ =~= all.take(k + 1).map_values(|p: (usize, T)| p.1));
    }
    assert(all.take(values@.len() as int) =~= all);
    values
}

/// Is `ordered` the values of the results put in candidate order by a stable sort?
pub open spec fn is_batch_order<T>(results: Seq<(usize, T)>, ordered: Seq<T>) -> bool {
    exists|sorted: Seq<(usize, T)>| {
        &&& #[trigger] sorted.to_multiset() == results.to_multiset()
        &&& by_position(sorted)
        &&& forall|k: usize| #[trigger] at_position(sorted, k) == at_position(results, k)
        &&& ordered == sorted.map_values(|p: (usize, T)| p.1)
    }
}

/// Does every candidate have exactly one result? The candidates are the positions below
/// the number of results, and no result carries a position outside them.
pub open spec fn one_result_per_candidate<T>(results: Seq<(usize, T)>) -> bool {
    &&& forall|j: int| 0 <= j < results.len() ==> (#[trigger] results[j]).0 < results.len()
    &&& forall|k: usize| k < results.len() ==> #[trigger] at_position(results, k).len() == 1
}

/// The results of a batch, put back in candidate order (results of one position keep the
/// order in which they came; see `sort_batch_results`) and stripped of their positions.
pub fn order_batch_results<T>(results: Vec<(usize, T)>) -> (ordered: Vec<T>)
    ensures
        is_batch_order(results@, ordered@),
{
    let sorted = sort_batch_results(results);
    let ghost s = sorted@;
    let values = batch_values(sorted);
    assert(s.to_multiset() == results@.to_multiset());
    values
}

/// Two neighbouring results of one position make at least two results of that position.
proof fn lemma_neighbours_at_position<T>(s: Seq<(usize, T)>, i: int, k: usize)
    requires
        0 <= i,
        i + 1 < s.len(),
        s[i].0 == k,
        s[i + 1].0 == k,
    ensures
        at_position(s, k).len() >= 2,
{
    let f = position_is::<T>(k);
    let a = s.take(i);
    let m = seq![s[i], s[i + 1]];
    let b = s.skip(i + 2);
    assert(s =~= (a + m) + b);
    assert(m =~= seq![s[i]] + seq![s[i + 1]]);
    Seq::filter_distributes_over_add(a + m, b, f);
    Seq::filter_distributes_over_add(a, m, f);
    Seq::filter_distributes_over_add(seq![s[i]], seq![s[i + 1]], f);
    lemma_single_at_position(s[i], k);
    lemma_single_at_position(s[i + 1], k);
}

/// Positions that rise strictly from one result to the next start at zero or above.
proof fn lemma_rising_from_zero<T>(s: Seq<(usize, T)>, i: int)
    requires
        0 <= i < s.len(),
        forall|j: int| 0 <= j && j + 1 < s.len() ==> #[trigger] s[j].0 < s[j + 1].0,
    ensures
        s[i].0 >= i,
    decreases i,
{
    if i > 0 {
        lemma_rising_from_zero(s, i - 1);
        assert(s[i - 1].0 < s[i].0);
    }
}

/// Positions that rise strictly and stay below the length end at the length minus one.
proof fn lemma_rising_below_len<T>(s: Seq<(usize, T)>, i: int)
    requires
        0 <= i < s.len(),
        forall|j: int| 0 <= j && j + 1 < s.len() ==> #[trigger] s[j].0 < s[j + 1].0,
        forall|j: int| 0 <= j < s.len() ==> (#[trigger] s[j]).0 < s.len(),
    ensures
        s[i].0 <= i,
    decreases s.len() - i,
{
    if i + 1 < s.len() {
        lemma_rising_below_len(s, i + 1);
        assert(s[i].0 < s[i + 1].0);
    }
}

/// When every candidate has exactly one result, the ordered batch holds one result per
/// candidate in candidate order: the results of candidate `i` are exactly the one whose
/// value stands at index `i`.
pub proof fn lemma_one_result_per_candidate<T>(results: Seq<(usize, T)>, ordered: Seq<T>)
    requires
        is_batch_order(results, ordered),
        one_result_per_candidate(results),
    ensures
        ordered.len() == results.len(),
        forall|i: int| #![trigger ordered[i]]
            0 <= i < results.len() ==> at_position(results, i as usize) == seq![(i as usize, ordered[i])],
{
    broadcast use vstd::seq_lib::group_to_multiset_ensures;
    let s = choose|sorted: Seq<(usize, T)>| {
        &&& #[trigger] sorted.to_multiset() == results.to_multiset()
        &&& by_position(sorted)
        &&& forall|k: usize| #[trigger] at_position(sorted, k) == at_position(results, k)
        &&& ordered == sorted.map_values(|p: (usize, T)| p.1)
    };
    let n = results.len();
    assert(s.len() == n) by {
        vstd::seq_lib::to_multiset_len(s);
        vstd::seq_lib::to_multiset_len(results);
    }
    assert forall|j: int| 0 <= j < s.len() implies (#[trigger] s[j]).0 < s.len() by {
        let k = s[j].0;
        s.lemma_filter_contains(position_is::<T>(k), j);
        assert(at_position(s, k).len() > 0);
        if k >= n {
            lemma_filter_none(results, k);
            assert(at_position(results, k).len() == 0);
        }
    }
    assert forall|j: int| 0 <= j && j + 1 < s.len() implies #[trigger] s[j].0 < s[j + 1].0 by {
        assert(s[j].0 <= s[j + 1].0);
        if s[j].0 == s[j + 1].0 {
            let k = s[j].0;
            assert(s[j].0 < s.len());
            lemma_neighbours_at_position(s, j, k);
            assert(at_position(results, k).len() == 1);
        }
    }
    assert forall|i: int| #![trigger ordered[i]]
        0 <= i < results.len() implies at_position(results, i as usize) == seq![(i as usize, ordered[i])] by {
        lemma_rising_from_zero(s, i);
        lemma_rising_below_len(s, i);
        let k = i as usize;
        assert(s[i].0 == k);
        s.lemma_filter_contains(position_is::<T>(k), i);
        let f = at_position(s, k);
        assert(f.len() == 1);
        assert(f.contains(s[i]));
        assert(f[0] == s[i]);
        assert(ordered[i] == s[i].1);
        assert(s[i] == (k, ordered[i]));
        assert(f =~= seq![(k, ordered[i])]);
    }
}

} // verus!
