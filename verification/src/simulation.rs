//! Pre-simulation support: cache keys, the cache of compute unit estimates,
//! compute unit limits and the classification of simulation errors.
use vstd::prelude::*;
use crate::solana::{spec_u32_le, spec_u64_le, AccountMeta, HashBytes, Instruction, Pubkey};
use crate::text::{spec_contains_any, spec_str_contains, str_contains};
use vstd::wrapping::u64_specs;
use dashmap::DashMap;
use std::collections::hash_map::RandomState;

verus! {


// ============================================================================
// Cache keys
// ============================================================================

/// Bytes of the accounts of an instruction: each key followed by its signer and
/// writable flags (one byte each).
pub open spec fn accounts_bytes(accs: Seq<AccountMeta>) -> Seq<u8>
    decreases accs.len(),
{
    if accs.len() == 0 {
        seq![]
    } else {
        let a = accs.last();
        accounts_bytes(accs.drop_last()) + a.pubkey@
            + seq![if a.is_signer { 1u8 } else { 0u8 }, if a.is_writable { 1u8 } else { 0u8 }]
    }
}

/// Bytes of an instruction: program, data, accounts.
pub open spec fn instruction_bytes(ix: Instruction) -> Seq<u8> {
    ix.program_id@ + ix.data@ + accounts_bytes(ix.accounts@)
}

/// Bytes of a list of instructions, one after the other.
pub open spec fn instructions_bytes(ixs: Seq<Instruction>) -> Seq<u8>
    decreases ixs.len(),
{
    if ixs.len() == 0 { seq![] } else { instructions_bytes(ixs.drop_last()) + instruction_bytes(ixs.last()) }
}

/// The message whose digest keys the simulation cache: payer, instructions, compute
/// unit limit and priority fee.
pub open spec fn spec_cache_key_message(payer: Pubkey, ixs: Seq<Instruction>, cu_limit: u32, priority_fee: u64) -> Seq<u8> {
    payer@ + instructions_bytes(ixs) + spec_u32_le(cu_limit) + spec_u64_le(priority_fee)
}

/// What SHA-256 (`sha2::Sha256`) gives for these bytes.
pub uninterp spec fn spec_sha256(data: Seq<u8>) -> Seq<u8>;

/// SHA-256 digest with `sha2::Sha256::digest`.
/// Claimed: the digest is a function of the bytes alone.
#[verifier::external_body]
fn sha256(data: &[u8]) -> (d: HashBytes)
    ensures
        d@ == spec_sha256(data@),
{
    <sha2::Sha256 as sha2::Digest>::digest(data).into()
}

fn append_bytes(out: &mut Vec<u8>, src: &[u8])
    ensures
        final(out)@ == old(out)@ + src@,
{
    let mut i: usize = 0;
    while i < src.len()
        invariant
            0 <= i <= src@.len(),
            out@ == old(out)@ + src@.subrange(0, i as int),
        decreases src@.len() - i,
    {
        out.push(src[i]);
        i += 1;
        assert(out@ =~= old(out)@ + src@.subrange(0, i as int));
    }
    assert(src@.subrange(0, src@.len() as int) =~= src@);
}

fn u32_le(v: u32) -> (b: [u8; 4])
    ensures
        b@ == spec_u32_le(v),
{
    let b = [(v % 0x100) as u8, ((v / 0x100) % 0x100) as u8, ((v / 0x10000) % 0x100) as u8,
        ((v / 0x1000000) % 0x100) as u8];
    assert(b@ =~= spec_u32_le(v));
    b
}

fn u64_le(v: u64) -> (b: Vec<u8>)
    ensures
        b@ == spec_u64_le(v),
{
    let lo = u32_le((v % 0x1_0000_0000) as u32);
    let hi = u32_le((v / 0x1_0000_0000) as u32);
    let mut b: Vec<u8> = Vec::new();
    append_bytes(&mut b, &lo);
    append_bytes(&mut b, &hi);
    b
}

/// Key of a simulation in the cache: the SHA-256 digest of the payer, the simulated
/// instructions (programs, data, accounts with their flags), the compute unit limit and
/// the priority fee.
pub fn simulation_cache_key(payer: &Pubkey, instructions: &[Instruction], cu_limit: u32, priority_fee: u64)
    -> (key: HashBytes)
    ensures
        key@ == spec_sha256(spec_cache_key_message(*payer, instructions@, cu_limit, priority_fee)),
{
    let mut msg: Vec<u8> = Vec::new();
    append_bytes(&mut msg, payer);
    let mut i: usize = 0;
    while i < instructions.len()
        invariant
            0 <= i <= instructions@.len(),
            msg@ == payer@ + instructions_bytes(instructions@.subrange(0, i as int)),
        decreases instructions@.len() - i,
    {
        let ix = &instructions[i];
        append_bytes(&mut msg, &ix.program_id);
        append_bytes(&mut msg, ix.data.as_slice());
        let mut j: usize = 0;
        while j < ix.accounts.len()
            invariant
                0 <= j <= ix.accounts@.len(),
                msg@ == payer@ + instructions_bytes(instructions@.subrange(0, i as int)) + ix.program_id@
                    + ix.data@ + accounts_bytes(ix.accounts@.subrange(0, j as int)),
            decreases ix.accounts@.len() - j,
        {
            let a = ix.accounts[j];
            append_bytes(&mut msg, &a.pubkey);
            msg.push(if a.is_signer { 1u8 } else { 0u8 });
            msg.push(if a.is_writable { 1u8 } else { 0u8 });
            proof {
                assert(ix.accounts@.subrange(0, j + 1).drop_last() =~= ix.accounts@.subrange(0, j as int));
                assert(msg@ =~= payer@ + instructions_bytes(instructions@.subrange(0, i as int)) + ix.program_id@
                    + ix.data@ + accounts_bytes(ix.accounts@.subrange(0, j + 1)));
            }
            j += 1;
        }
        proof {
            assert(ix.accounts@.subrange(0, ix.accounts@.len() as int) =~= ix.accounts@);
            assert(instructions@.subrange(0, i + 1).drop_last() =~= instructions@.subrange(0, i as int));
            assert(msg@ =~= payer@ + instructions_bytes(instructions@.subrange(0, i + 1)));
        }
        i += 1;
    }
    assert(instructions@.subrange(0, instructions@.len() as int) =~= instructions@);
    let limit = u32_le(cu_limit);
    append_bytes(&mut msg, &limit);
    let fee = u64_le(priority_fee);
    append_bytes(&mut msg, fee.as_slice());
    assert(msg@ =~= spec_cache_key_message(*payer, instructions@, cu_limit, priority_fee));
    sha256(msg.as_slice())
}

// ============================================================================
// Compute unit estimates and simulation errors
// ============================================================================

/// The compute unit limit from a simulated consumption: 20% headroom (rounded down,
/// saturating at `u32::MAX`), clamped to `[min_cu, max_cu]`.
pub open spec fn spec_estimate_cu(units: u64, min_cu: u32, max_cu: u32) -> u32 {
    let padded = units as int * 6 / 5;
    let est: u32 = if padded <= u32::MAX { padded as u32 } else { u32::MAX };
    if est < min_cu { min_cu } else if est > max_cu { max_cu } else { est }
}

/// Compute unit limit for a transaction whose simulation consumed `units`.
pub fn estimate_cu_limit(units: u64, min_cu: u32, max_cu: u32) -> (cu: u32)
    requires
        min_cu <= max_cu,
    ensures
        cu == spec_estimate_cu(units, min_cu, max_cu),
        min_cu <= cu <= max_cu,
{
    let padded: u128 = (units as u128) * 6 / 5;
    let est: u32 = if padded <= u32::MAX as u128 { padded as u32 } else { u32::MAX };
    if est < min_cu { min_cu } else if est > max_cu { max_cu } else { est }
}

/// Simulation error texts that abort the transaction.
pub open spec fn fatal_error_patterns() -> Seq<Seq<char>> {
    seq!["InstructionError"@, "ProgramFailedToComplete"@, "ComputeBudgetExceeded"@, "InsufficientFunds"@]
}

/// Is a simulation error (its debug text) fatal? It is when it names an instruction
/// error, an unfinished program, an exceeded compute budget or insufficient funds.
pub fn is_fatal_simulation_error(error: &str) -> (fatal: bool)
    ensures
        fatal == spec_contains_any(error@, fatal_error_patterns()),
{
    let patterns: [&str; 4] = ["InstructionError", "ProgramFailedToComplete", "ComputeBudgetExceeded",
        "InsufficientFunds"];
    let ghost pats = fatal_error_patterns();
    let mut k: usize = 0;
    while k < 4
        invariant
            0 <= k <= 4,
            pats == fatal_error_patterns(),
            pats.len() == 4,
            forall|j: int| 0 <= j < 4 ==> #[trigger] patterns@[j]@ == pats[j],
            forall|j: int| 0 <= j < k ==> !spec_str_contains(error@, #[trigger] pats[j]),
        decreases 4 - k,
    {
        if str_contains(error, patterns[k]) {
            assert(spec_str_contains(error@, pats[k as int]));
            return true;
        }
        k += 1;
    }
    false
}

// ============================================================================
// Simulation cache (a `dashmap::DashMap` keyed by message digest)
// ============================================================================

/// A cached compute unit estimate: the units a simulation consumed, when it was cached
/// (clock reading in milliseconds) and the slot.
#[derive(Debug, Clone, Copy)]
pub struct SimulationCacheEntry {
    pub compute_units: u64,
    pub cached_at_ms: u64,
    pub slot: u64,
}

/// The map holding the estimates.
pub type SimulationMap = DashMap<HashBytes, SimulationCacheEntry, RandomState>;

/// The entries of the map, keyed by digest bytes.
pub uninterp spec fn sim_entries(m: SimulationMap) -> Map<Seq<u8>, SimulationCacheEntry>;

/// An empty map from `DashMap::new`.
/// Claimed: the new map has no entry.
#[verifier::external_body]
fn sim_map_new() -> (fresh: SimulationMap)
    ensures
        sim_entries(fresh).dom() == Set::<Seq<u8>>::empty(),
{
    DashMap::new()
}

/// `DashMap::len`.
/// Claimed: the number of entries.
#[verifier::external_body]
fn sim_map_len(m: &SimulationMap) -> (n: usize)
    ensures
        n == sim_entries(*m).dom().len(),
{
    m.len()
}

/// `DashMap::capacity`: the sum over the shards of each table's `items + growth_left`.
/// Claimed: at least the number of entries; how much more depends on the allocation,
/// and that is left unsaid.
#[verifier::external_body]
fn sim_map_capacity(m: &SimulationMap) -> (n: usize)
    ensures
        n >= sim_entries(*m).dom().len(),
{
    m.capacity()
}

/// `DashMap::get`, copying the entry found.
/// Claimed: `None` when there is no entry for `k`, else its entry.
#[verifier::external_body]
fn sim_map_get(m: &SimulationMap, k: &HashBytes) -> (r: Option<SimulationCacheEntry>)
    ensures
        match r {
            Some(e) => sim_entries(*m).dom().contains(k@) && sim_entries(*m)[k@] == e,
            None => !sim_entries(*m).dom().contains(k@),
        },
{
    m.get(k).map(|r| *r.value())
}

/// `DashMap::insert`.
/// Claimed: afterwards `k` maps to `v` and the other entries are unchanged.
#[verifier::external_body]
fn sim_map_insert(m: &mut SimulationMap, k: HashBytes, v: SimulationCacheEntry)
    ensures
        sim_entries(*final(m)) == sim_entries(*old(m)).insert(k@, v),
{
    m.insert(k, v);
}

/// `DashMap::remove`.
/// Claimed: afterwards there is no entry for `k` and the others are unchanged.
#[verifier::external_body]
fn sim_map_remove(m: &mut SimulationMap, k: &HashBytes)
    ensures
        sim_entries(*final(m)) == sim_entries(*old(m)).remove(k@),
{
    m.remove(k);
}

/// `DashMap::clear`.
/// Claimed: afterwards the map has no entry.
#[verifier::external_body]
fn sim_map_clear(m: &mut SimulationMap)
    ensures
        sim_entries(*final(m)).dom() == Set::<Seq<u8>>::empty(),
{
    m.clear();
}

/// The key and caching time of every entry, from `DashMap::iter`, in the map's own order.
/// Claimed: each entry appears once, with its caching time, and nothing else appears.
#[verifier::external_body]
fn sim_map_ages(m: &SimulationMap) -> (r: Vec<(HashBytes, u64)>)
    ensures
        r@.len() == sim_entries(*m).dom().len(),
        forall|i: int| 0 <= i < r@.len() ==> sim_entries(*m).dom().contains((#[trigger] r@[i]).0@)
            && sim_entries(*m)[r@[i].0@].cached_at_ms == r@[i].1,
        forall|i: int, j: int| 0 <= i < j < r@.len() ==> (#[trigger] r@[i]).0 != (#[trigger] r@[j]).0,
        forall|k: Seq<u8>| #[trigger] sim_entries(*m).dom().contains(k)
            ==> exists|i: int| 0 <= i < r@.len() && (#[trigger] r@[i]).0@ == k,
{
    m.iter().map(|e| (*e.key(), e.value().cached_at_ms)).collect()
}

/// Cache of simulated compute units, keyed by message digest, with hit and miss counters.
#[derive(Debug)]
pub struct SimulationCache {
    entries: SimulationMap,
    hits: u64,
    misses: u64,
}

/// Abstract state of the simulation cache.
pub ghost struct SimulationCacheView {
    pub entries: Map<Seq<u8>, SimulationCacheEntry>,
    pub hits: u64,
    pub misses: u64,
}

impl View for SimulationCache {
    type V = SimulationCacheView;

    closed spec fn view(&self) -> SimulationCacheView {
        SimulationCacheView { entries: sim_entries(self.entries), hits: self.hits, misses: self.misses }
    }
}

/// Whole seconds between two clock readings (zero for a reading from the future).
pub open spec fn age_secs(now_ms: u64, t: u64) -> int {
    if now_ms >= t { (now_ms - t) / 1000 } else { 0 }
}

/// The outcome of a lookup at `now_ms` with a TTL of `ttl_seconds`: a fresh entry is a
/// hit (its units are returned); an expired one is removed and counted as a miss twice
/// (once as expired, once as not found); a key not cached is counted as one miss.
pub open spec fn spec_lookup(c: SimulationCacheView, key: HashBytes, now_ms: u64, ttl_seconds: u64)
    -> (Option<u64>, SimulationCacheView)
{
    if c.entries.dom().contains(key@) {
        let e = c.entries[key@];
        if age_secs(now_ms, e.cached_at_ms) < ttl_seconds {
            (Some(e.compute_units), SimulationCacheView { hits: u64_specs::wrapping_add(c.hits, 1), ..c })
        } else {
            (None, SimulationCacheView {
                entries: c.entries.remove(key@),
                misses: u64_specs::wrapping_add(c.misses, 2),
                ..c
            })
        }
    } else {
        (None, SimulationCacheView { misses: u64_specs::wrapping_add(c.misses, 1), ..c })
    }
}

/// `after` is what `insert_and_prune` leaves of `before` when it stores `e` under `key`
/// with a size limit of `max_size`: the entries with `e` stored, and when they are more
/// than `max_size`, without `max_size / 10` of them that are no younger than any kept.
pub open spec fn insert_prune_result(
    before: Map<Seq<u8>, SimulationCacheEntry>,
    key: Seq<u8>,
    e: SimulationCacheEntry,
    max_size: usize,
    after: Map<Seq<u8>, SimulationCacheEntry>,
) -> bool {
    let ins = before.insert(key, e);
    if ins.dom().len() <= max_size {
        after == ins
    } else {
        exists|dropped: Set<Seq<u8>>| {
            &&& dropped.finite()
            &&& dropped.len() == max_size / 10
            &&& dropped.subset_of(ins.dom())
            &&& #[trigger] ins.remove_keys(dropped) == after
            &&& after.dom().len() == ins.dom().len() - max_size / 10
            &&& forall|d: Seq<u8>, k: Seq<u8>| dropped.contains(d) && after.dom().contains(k)
                ==> #[trigger] ins[d].cached_at_ms <= #[trigger] after[k].cached_at_ms
        }
    }
}

/// A stored estimate is read back: right after `insert_and_prune` stores `e` under `key`,
/// a lookup of `key` within the TTL returns its compute units. This holds when nothing
/// was pruned, and also when pruning ran but every other entry was older than `e`.
pub proof fn lemma_cache_read_after_write(
    c: SimulationCacheView,
    key: HashBytes,
    e: SimulationCacheEntry,
    max_size: usize,
    after: Map<Seq<u8>, SimulationCacheEntry>,
    now_ms: u64,
    ttl_seconds: u64,
)
    requires
        c.entries.dom().finite(),
        insert_prune_result(c.entries, key@, e, max_size, after),
        c.entries.insert(key@, e).dom().len() <= max_size
            || forall|k: Seq<u8>| #[trigger] c.entries.dom().contains(k) && k != key@
                ==> c.entries[k].cached_at_ms < e.cached_at_ms,
        age_secs(now_ms, e.cached_at_ms) < ttl_seconds,
    ensures
        spec_lookup(SimulationCacheView { entries: after, ..c }, key, now_ms, ttl_seconds).0
            == Some(e.compute_units),
{
    let ins = c.entries.insert(key@, e);
    if ins.dom().len() > max_size {
        let dropped = choose|dropped: Set<Seq<u8>>| {
            &&& dropped.finite()
            &&& dropped.len() == max_size / 10
            &&& dropped.subset_of(ins.dom())
            &&& #[trigger] ins.remove_keys(dropped) == after
            &&& after.dom().len() == ins.dom().len() - max_size / 10
            &&& forall|d: Seq<u8>, k: Seq<u8>| dropped.contains(d) && after.dom().contains(k)
                ==> #[trigger] ins[d].cached_at_ms <= #[trigger] after[k].cached_at_ms
        };
        if dropped.contains(key@) {
            assert(after.dom().len() > 0);
            assert(after.dom().finite()) by {
                vstd::set_lib::lemma_len_subset(after.dom(), ins.dom());
            }
            let k = after.dom().choose();
            assert(after.dom().contains(k));
            assert(ins[key@].cached_at_ms <= after[k].cached_at_ms);
            assert(k != key@);
            assert(c.entries.dom().contains(k));
            assert(false);
        }
    }
}

impl SimulationCache {
    /// The cache holds finitely many entries.
    pub closed spec fn wf(&self) -> bool {
        sim_entries(self.entries).dom().finite()
    }

    /// An empty cache with zeroed counters.
    pub fn new() -> (c: SimulationCache)
        ensures
            c.wf(),
            c@.entries.dom() == Set::<Seq<u8>>::empty(),
            c@.hits == 0,
            c@.misses == 0,
    {
        SimulationCache { entries: sim_map_new(), hits: 0, misses: 0 }
    }

    /// Number of cached estimates.
    pub fn len(&self) -> (n: usize)
        ensures
            n == self@.entries.dom().len(),
    {
        sim_map_len(&self.entries)
    }

    /// Number of entries the cache can hold without reallocating: at least the number it
    /// holds (how much more depends on its allocation).
    pub fn capacity(&self) -> (n: usize)
        ensures
            n >= self@.entries.dom().len(),
    {
        sim_map_capacity(&self.entries)
    }

    /// Hit counter.
    pub fn hits(&self) -> (n: u64)
        ensures
            n == self@.hits,
    {
        self.hits
    }

    /// Miss counter.
    pub fn misses(&self) -> (n: u64)
        ensures
            n == self@.misses,
    {
        self.misses
    }

    /// Empties the cache and resets its counters.
    pub fn clear(&mut self)
        ensures
            final(self).wf(),
            final(self)@.entries.dom() == Set::<Seq<u8>>::empty(),
            final(self)@.hits == 0,
            final(self)@.misses == 0,
    {
        sim_map_clear(&mut self.entries);
        self.hits = 0;
        self.misses = 0;
    }

    /// Stores the units a simulation consumed under `key` (replacing an older estimate),
    /// then, when the cache holds more than `max_size` entries, drops the `max_size / 10`
    /// oldest ones.
    pub fn insert_and_prune(&mut self, key: HashBytes, compute_units: u64, now_ms: u64, slot: u64, max_size: usize)
        requires
            old(self).wf(),
        ensures
            final(self).wf(),
            final(self)@.hits == old(self)@.hits,
            final(self)@.misses == old(self)@.misses,
            insert_prune_result(old(self)@.entries, key@,
                SimulationCacheEntry { compute_units, cached_at_ms: now_ms, slot }, max_size,
                final(self)@.entries),
    {
        let e = SimulationCacheEntry { compute_units, cached_at_ms: now_ms, slot };
        sim_map_insert(&mut self.entries, key, e);
        let ghost ins = sim_entries(self.entries);
        let len = sim_map_len(&self.entries);
        if len > max_size {
            let remove_count = max_size / 10;
            let mut ages = sim_map_ages(&self.entries);
            let ghost mut dropped: Set<Seq<u8>> = Set::empty();
            let mut k: usize = 0;
            while k < remove_count
                invariant
                    ins.dom().finite(),
                    ins.dom().len() == len,
                    len > max_size,
                    remove_count == max_size / 10,
                    0 <= k <= remove_count,
                    dropped.finite(),
                    dropped.len() == k,
                    dropped.subset_of(ins.dom()),
                    sim_entries(self.entries) == ins.remove_keys(dropped),
                    sim_entries(self.entries).dom().finite(),
                    sim_entries(self.entries).dom().len() == len - k,
                    ages@.len() == len - k,
                    forall|i: int| 0 <= i < ages@.len() ==> sim_entries(self.entries).dom().contains((#[trigger] ages@[i]).0@)
                        && sim_entries(self.entries)[ages@[i].0@].cached_at_ms == ages@[i].1,
                    forall|i: int, j: int| 0 <= i < j < ages@.len() ==> (#[trigger] ages@[i]).0 != (#[trigger] ages@[j]).0,
                    forall|x: Seq<u8>| #[trigger] sim_entries(self.entries).dom().contains(x)
                        ==> exists|i: int| 0 <= i < ages@.len() && (#[trigger] ages@[i]).0@ == x,
                    forall|d: Seq<u8>, x: Seq<u8>| dropped.contains(d) && sim_entries(self.entries).dom().contains(x)
                        ==> #[trigger] ins[d].cached_at_ms <= #[trigger] sim_entries(self.entries)[x].cached_at_ms,
                    self.hits == old(self).hits,
                    self.misses == old(self).misses,
                decreases remove_count - k,
            {
                // the oldest remaining entry
                let mut m: usize = 0;
                let mut i: usize = 1;
                while i < ages.len()
                    invariant
                        ages@.len() > 0,
                        1 <= i <= ages@.len(),
                        m < i,
                        forall|j: int| 0 <= j < i ==> ages@[m as int].1 <= #[trigger] ages@[j].1,
                    decreases ages@.len() - i,
                {
                    if ages[i].1 < ages[m].1 {
                        m = i;
                    }
                    i += 1;
                }
                let ghost cur = sim_entries(self.entries);
                let ghost before_ages = ages@;
                let (victim, _) = ages.remove(m);
                sim_map_remove(&mut self.entries, &victim);
                proof {
                    let vk = victim@;
                    assert(before_ages[m as int].0 == victim);
                    assert(cur.dom().contains(vk));
                    assert(!dropped.contains(vk));
                    // every remaining entry is no younger than the victim
                    assert forall|x: Seq<u8>| #[trigger] cur.dom().contains(x)
                        implies cur[vk].cached_at_ms <= cur[x].cached_at_ms by {
                        let j = choose|j: int| 0 <= j < before_ages.len() && (#[trigger] before_ages[j]).0@ == x;
                        assert(cur[before_ages[j].0@].cached_at_ms == before_ages[j].1);
                    }
                    let nd = dropped.insert(vk);
                    assert(ins.remove_keys(nd) =~= cur.remove(vk));
                    assert forall|d: Seq<u8>, x: Seq<u8>| nd.contains(d) && sim_entries(self.entries).dom().contains(x)
                        implies #[trigger] ins[d].cached_at_ms <= #[trigger] sim_entries(self.entries)[x].cached_at_ms by {
                        assert(cur.dom().contains(x));
                        assert(sim_entries(self.entries)[x] == cur[x]);
                        if d == vk {
                            assert(ins[vk] == cur[vk]);
                        } else {
                            assert(dropped.contains(d));
                        }
                    }
                    assert forall|a: int| 0 <= a < ages@.len() implies sim_entries(self.entries).dom().contains((#[trigger] ages@[a]).0@)
                        && sim_entries(self.entries)[ages@[a].0@].cached_at_ms == ages@[a].1 by {
                        let a0 = if a < m as int { a } else { a + 1 };
                        assert(ages@[a] == before_ages[a0]);
                        assert(before_ages[a0].0 != before_ages[m as int].0);
                        if before_ages[a0].0@ == vk {
                            crate::solana::lemma_key_view_injective(before_ages[a0].0, victim);
                        }
                    }
                    assert forall|a: int, b: int| 0 <= a < b < ages@.len() implies (#[trigger] ages@[a]).0 != (#[trigger] ages@[b]).0 by {
                        let a0 = if a < m as int { a } else { a + 1 };
                        let b0 = if b < m as int { b } else { b + 1 };
                        assert(ages@[a] == before_ages[a0]);
                        assert(ages@[b] == before_ages[b0]);
                    }
                    assert forall|x: Seq<u8>| #[trigger] sim_entries(self.entries).dom().contains(x)
                        implies exists|a: int| 0 <= a < ages@.len() && (#[trigger] ages@[a]).0@ == x by {
                        assert(cur.dom().contains(x));
                        let j = choose|j: int| 0 <= j < before_ages.len() && (#[trigger] before_ages[j]).0@ == x;
                        assert(j != m as int);
                        let a = if j < m as int { j } else { j - 1 };
                        assert(ages@[a] == before_ages[j]);
                    }
                    dropped = nd;
                }
                k += 1;
            }
            proof {
                assert(sim_entries(self.entries).dom().len() == ins.dom().len() - max_size / 10);
            }
        }
    }

    /// Looks `key` up at `now_ms`, with a TTL of `ttl_seconds`, and counts the outcome.
    pub fn lookup(&mut self, key: &HashBytes, now_ms: u64, ttl_seconds: u64) -> (r: Option<u64>)
        requires
            old(self).wf(),
        ensures
            final(self).wf(),
            (r, final(self)@) == spec_lookup(old(self)@, *key, now_ms, ttl_seconds),
    {
        match sim_map_get(&self.entries, key) {
            Some(e) => {
                let age = now_ms.saturating_sub(e.cached_at_ms) / 1000;
                if age < ttl_seconds {
                    self.hits = self.hits.wrapping_add(1);
                    Some(e.compute_units)
                } else {
                    sim_map_remove(&mut self.entries, key);
                    self.misses = self.misses.wrapping_add(2);
                    None
                }
            },
            None => {
                self.misses = self.misses.wrapping_add(1);
                None
            },
        }
    }
}

} // verus!
