//! Jito bundles: the dynamic tip and the bundle itself.
use vstd::prelude::*;
use vstd::relations::sorted_by;
use solana_sdk::transaction::VersionedTransaction;
use crate::config::TransactionConfig;
use crate::errors::TransactionBuilderError;

verus! {

broadcast use vstd::seq_lib::group_to_multiset_ensures;

#[verifier::external_type_specification]
#[verifier::external_body]
pub struct ExVersionedTransaction(VersionedTransaction);

/// A Jito bundle with its MEV options.
pub struct JitoBundleCandidate {
    pub transactions: Vec<VersionedTransaction>,
    pub max_total_cost_lamports: u64,
    pub target_slot: Option<u64>,
    /// Hints for the searcher's bundle ordering.
    pub searcher_hints: Vec<u8>,
    /// Backrun protection requested.
    pub backrun_protect: bool,
}

/// Ascending order on fees.
pub open spec fn fee_leq() -> spec_fn(u64, u64) -> bool {
    |a: u64, b: u64| a <= b
}

/// Sum of the fees.
pub open spec fn spec_sum(s: Seq<u64>) -> int
    decreases s.len(),
{
    if s.len() == 0 { 0 } else { spec_sum(s.drop_last()) + s.last() }
}

/// Index of the 90th percentile (nearest rank) among `len` sorted values.
pub open spec fn p90_index(len: int) -> int {
    if len == 1 { 0 } else {
        let rank = (9 * len + 9) / 10;
        let i = if rank >= 1 { rank - 1 } else { 0 };
        if i < len - 1 { i } else { len - 1 }
    }
}

/// The tip from recent prioritization fees: the 90th-percentile fee, raised by half
/// when the average fee exceeds 50 000 and by a fifth otherwise (rounded down), capped
/// at `max_total_cost`.
pub open spec fn spec_dynamic_tip(fees: Seq<u64>, max_total_cost: u64) -> u64 {
    let sorted = fees.sort_by(fee_leq());
    let base = sorted[p90_index(fees.len() as int)];
    let avg = spec_sum(fees) / fees.len() as int;
    let raised = if avg > 50_000 { base as int * 3 / 2 } else { base as int * 6 / 5 };
    let tip = if raised <= u64::MAX { raised } else { u64::MAX as int };
    if tip < max_total_cost { tip as u64 } else { max_total_cost }
}

/// The 90th percentile by nearest rank: among `len` sorted values it is the one at the
/// smallest position whose rank (position plus one) covers at least nine tenths of them.
pub proof fn lemma_p90_nearest_rank(len: int)
    requires
        len >= 1,
    ensures
        0 <= p90_index(len) < len,
        10 * (p90_index(len) + 1) >= 9 * len,
        10 * p90_index(len) < 9 * len,
{
}

/// The percentile fee is taken from the fees themselves, put in ascending order: the
/// ordered fees are the same fees, each no larger than the next, and the one picked is
/// one of the recent fees.
pub proof fn lemma_p90_fee_from_ascending_fees(fees: Seq<u64>)
    requires
        fees.len() > 0,
    ensures
        fees.sort_by(fee_leq()).to_multiset() == fees.to_multiset(),
        fees.sort_by(fee_leq()).len() == fees.len(),
        forall|i: int, j: int| 0 <= i <= j < fees.len()
            ==> #[trigger] fees.sort_by(fee_leq())[i] <= #[trigger] fees.sort_by(fee_leq())[j],
        fees.contains(fees.sort_by(fee_leq())[p90_index(fees.len() as int)]),
{
    lemma_fee_leq_total();
    fees.lemma_sort_by_ensures(fee_leq());
    let sorted = fees.sort_by(fee_leq());
    assert(sorted.len() == fees.len()) by {
        vstd::seq_lib::to_multiset_len(sorted);
        vstd::seq_lib::to_multiset_len(fees);
    }
    assert forall|i: int, j: int| 0 <= i <= j < fees.len() implies #[trigger] sorted[i] <= #[trigger] sorted[j] by {
        if i < j {
            assert(fee_leq()(sorted[i], sorted[j]));
        }
    }
    lemma_p90_nearest_rank(fees.len() as int);
    let p = sorted[p90_index(fees.len() as int)];
    assert(sorted.contains(p));
}

/// The tip is the 90th-percentile fee raised by half when the fees' average (rounded
/// down, as the integer mean) exceeds 50 000, that is when their sum reaches 50 001 per
/// fee, and raised by a fifth otherwise; the product is rounded down and capped at
/// `max_total_cost` (and at `u64::MAX`). The choice of multiplier depends on the sum of
/// all fees, not on the percentile fee itself.
pub proof fn lemma_tip_multiplier_follows_average(fees: Seq<u64>, max_total_cost: u64)
    requires
        fees.len() > 0,
    ensures
        ({
            let p = fees.sort_by(fee_leq())[p90_index(fees.len() as int)] as int;
            let raised = if spec_sum(fees) >= 50_001 * fees.len() { p * 3 / 2 } else { p * 6 / 5 };
            let capped = if raised <= u64::MAX { raised } else { u64::MAX as int };
            spec_dynamic_tip(fees, max_total_cost) as int
                == if capped < max_total_cost { capped } else { max_total_cost as int }
        }),
{
    let n = fees.len() as int;
    let sum = spec_sum(fees);
    lemma_sum_nonneg(fees);
    assert((sum / n > 50_000) <==> (sum >= 50_001 * n)) by (nonlinear_arith)
        requires n > 0, sum >= 0;
}

/// Sorts fees ascending with `slice::sort_unstable` (std).
/// Claimed: the result is sorted and holds the same fees.
#[verifier::external_body]
fn sort_fees(v: &mut Vec<u64>)
    ensures
        sorted_by(final(v)@, fee_leq()),
        final(v)@.to_multiset() == old(v)@.to_multiset(),
{
    v.sort_unstable();
}

proof fn lemma_sum_prefix(s: Seq<u64>, i: int)
    requires
        0 <= i <= s.len(),
    ensures
        0 <= spec_sum(s.subrange(0, i)) <= spec_sum(s),
    decreases s.len() - i,
{
    lemma_sum_nonneg(s.subrange(0, i));
    if i < s.len() {
        lemma_sum_prefix(s, i + 1);
        assert(s.subrange(0, i + 1).drop_last() =~= s.subrange(0, i));
    } else {
        assert(s.subrange(0, i) =~= s);
        lemma_sum_nonneg(s);
    }
}

proof fn lemma_sum_nonneg(s: Seq<u64>)
    ensures
        spec_sum(s) >= 0,
    decreases s.len(),
{
    if s.len() > 0 {
        lemma_sum_nonneg(s.drop_last());
    }
}

proof fn lemma_fee_leq_total()
    ensures
        vstd::relations::total_ordering(fee_leq()),
{
}

/// The dynamic tip for a bundle from recent prioritization fees.
pub fn compute_dynamic_tip(fees: &[u64], max_total_cost: u64) -> (tip: u64)
    requires
        fees@.len() > 0,
        spec_sum(fees@) <= u64::MAX,
    ensures
        tip == spec_dynamic_tip(fees@, max_total_cost),
        tip <= max_total_cost,
{
    let n = fees.len();
    let mut sum: u64 = 0;
    let mut i: usize = 0;
    while i < n
        invariant
            n == fees@.len(),
            0 <= i <= n,
            spec_sum(fees@) <= u64::MAX,
            sum == spec_sum(fees@.subrange(0, i as int)),
        decreases n - i,
    {
        proof {
            lemma_sum_prefix(fees@, i + 1);
            assert(fees@.subrange(0, i + 1).drop_last() =~= fees@.subrange(0, i as int));
        }
        sum = sum + fees[i];
        i += 1;
    }
    assert(fees@.subrange(0, n as int) =~= fees@);
    let mut sorted = vstd::slice::slice_to_vec(fees);
    sort_fees(&mut sorted);
    proof {
        lemma_fee_leq_total();
        fees@.lemma_sort_by_ensures(fee_leq());
        vstd::seq_lib::lemma_sorted_unique(sorted@, fees@.sort_by(fee_leq()), fee_leq());
        assert(sorted@.len() == fees@.len()) by {
            assert(sorted@.to_multiset().len() == fees@.to_multiset().len());
        }
    }
    let idx: usize = if n == 1 {
        0
    } else {
        let rank = (9 * (n as u128) + 9) / 10;
        let i = if rank >= 1 { rank - 1 } else { 0 };
        if i < (n - 1) as u128 { i as usize } else { n - 1 }
    };
    let base = sorted[idx];
    let avg = sum / (n as u64);
    let raised: u128 = if avg > 50_000 { (base as u128) * 3 / 2 } else { (base as u128) * 6 / 5 };
    let tip: u64 = if raised <= u64::MAX as u128 { raised as u64 } else { u64::MAX };
    if tip < max_total_cost { tip } else { max_total_cost }
}

/// Marker hint asking for backrun protection.
pub open spec fn backrun_hint() -> Seq<u8> {
    seq![1u8, 0, 0, 0]
}

/// Prepares a Jito bundle. With simulation enabled and recent prioritization fees at
/// hand, the tip is the dynamic tip (capped at `max_total_cost_lamports`); otherwise it
/// is `max_total_cost_lamports`. Backrun protection adds a marker hint.
pub fn prepare_jito_bundle(
    txs: Vec<VersionedTransaction>,
    max_total_cost_lamports: u64,
    target_slot: Option<u64>,
    backrun_protect: bool,
    config: &TransactionConfig,
    recent_fees: Option<&[u64]>,
) -> (r: Result<JitoBundleCandidate, TransactionBuilderError>)
    requires
        recent_fees matches Some(f) ==> spec_sum(f@) <= u64::MAX,
    ensures
        r matches Ok(b) && {
            &&& b.transactions@ == txs@
            &&& b.max_total_cost_lamports == (match recent_fees {
                Some(f) => if config.enable_simulation && f@.len() > 0 {
                    spec_dynamic_tip(f@, max_total_cost_lamports)
                } else {
                    max_total_cost_lamports
                },
                None => max_total_cost_lamports,
            })
            &&& b.target_slot == target_slot
            &&& b.searcher_hints@ == (if backrun_protect { backrun_hint() } else { Seq::<u8>::empty() })
            &&& b.backrun_protect == backrun_protect
        },
{
    let dynamic_tip = if config.enable_simulation {
        match recent_fees {
            Some(f) => if f.len() > 0 { compute_dynamic_tip(f, max_total_cost_lamports) } else { max_total_cost_lamports },
            None => max_total_cost_lamports,
        }
    } else {
        max_total_cost_lamports
    };
    let mut searcher_hints: Vec<u8> = Vec::new();
    if backrun_protect {
        searcher_hints.push(1u8);
        searcher_hints.push(0u8);
        searcher_hints.push(0u8);
        searcher_hints.push(0u8);
        assert(searcher_hints@ =~= backrun_hint());
    }
    Ok(JitoBundleCandidate {
        transactions: txs,
        max_total_cost_lamports: dynamic_tip,
        target_slot,
        searcher_hints,
        backrun_protect,
    })
}

/// A plain Jito bundle: the given tip, no hints, no backrun protection.
pub fn prepare_jito_bundle_simple(
    txs: Vec<VersionedTransaction>,
    max_total_cost_lamports: u64,
    target_slot: Option<u64>,
) -> (b: JitoBundleCandidate)
    ensures
        b.transactions@ == txs@,
        b.max_total_cost_lamports == max_total_cost_lamports,
        b.target_slot == target_slot,
        b.searcher_hints@.len() == 0,
        !b.backrun_protect,
{
    JitoBundleCandidate {
        transactions: txs,
        max_total_cost_lamports,
        target_slot,
        searcher_hints: Vec::new(),
        backrun_protect: false,
    }
}

} // verus!
