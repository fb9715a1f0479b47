//! Blockhash consensus across RPC endpoints, and the cache of recent blockhashes.
use vstd::prelude::*;
use crate::config::QuorumConfig;
use crate::solana::{keys_eq, HashBytes};

verus! {

// ============================================================================
// Quorum voting
// ============================================================================

/// Number of endpoints to ask for a quorum, when quorum is used at all: more than one
/// response must be required and enough endpoints must exist.
pub open spec fn spec_quorum_size(min_responses: usize, num_clients: usize) -> Option<usize> {
    if min_responses > 1 && num_clients >= min_responses { Some(min_responses) } else { None }
}

/// How many endpoints to ask for a blockhash quorum, or `None` to skip quorum.
pub fn quorum_size(min_responses: usize, num_clients: usize) -> (r: Option<usize>)
    ensures
        r == spec_quorum_size(min_responses, num_clients),
{
    if min_responses > 1 && num_clients >= min_responses {
        let num_rpcs = if min_responses < num_clients { min_responses } else { num_clients };
        Some(num_rpcs)
    } else {
        None
    }
}

/// Votes received for one blockhash: how many, and the highest and lowest slot reported.
#[derive(Debug, Clone, Copy, PartialEq, Eq)]
pub struct Vote {
    pub hash: HashBytes,
    pub count: u32,
    pub max_slot: u64,
    pub min_slot: u64,
}

/// A vote reaches quorum when enough endpoints agree and, with slot validation, their
/// slots lie within the allowed spread.
pub open spec fn reaches_quorum(v: Vote, q: QuorumConfig) -> bool {
    &&& v.count >= q.min_responses as u32
    &&& (!q.enable_slot_validation || v.max_slot - v.min_slot <= q.max_slot_diff)
}

/// Sum of the vote counts.
pub open spec fn total_votes(votes: Seq<Vote>) -> int
    decreases votes.len(),
{
    if votes.len() == 0 { 0 } else { total_votes(votes.drop_last()) + votes.last().count }
}

/// The tally of blockhash votes from a quorum round.
#[derive(Debug)]
pub struct QuorumTally {
    votes: Vec<Vote>,
    responses: u32,
}

/// The votes after one more response for `hash` at `slot`.
pub open spec fn spec_add_vote(votes: Seq<Vote>, hash: HashBytes, slot: u64) -> Seq<Vote> {
    if exists|i: int| 0 <= i < votes.len() && votes[i].hash == hash {
        let i = choose|i: int| 0 <= i < votes.len() && votes[i].hash == hash;
        let v = votes[i];
        votes.update(i, Vote {
            hash,
            count: (v.count + 1) as u32,
            max_slot: if slot > v.max_slot { slot } else { v.max_slot },
            min_slot: if slot < v.min_slot { slot } else { v.min_slot },
        })
    } else {
        votes.push(Vote { hash, count: 1, max_slot: slot, min_slot: slot })
    }
}

impl QuorumTally {
    /// Each blockhash appears once, its slots are ordered, and the counts add up to the
    /// responses received.
    pub closed spec fn wf(&self) -> bool {
        &&& forall|i: int, j: int| 0 <= i < j < self.votes@.len() ==> self.votes@[i].hash != self.votes@[j].hash
        &&& forall|i: int| 0 <= i < self.votes@.len() ==> self.votes@[i].min_slot <= self.votes@[i].max_slot
        &&& forall|i: int| 0 <= i < self.votes@.len() ==> self.votes@[i].count >= 1
        &&& total_votes(self.votes@) == self.responses
    }

    /// The votes so far.
    pub closed spec fn spec_votes(&self) -> Seq<Vote> {
        self.votes@
    }

    /// The number of responses recorded.
    pub closed spec fn spec_responses(&self) -> u32 {
        self.responses
    }

    /// An empty tally.
    pub fn new() -> (t: QuorumTally)
        ensures
            t.wf(),
            t.spec_votes().len() == 0,
            t.spec_responses() == 0,
    {
        QuorumTally { votes: Vec::new(), responses: 0 }
    }

    /// Records one endpoint's answer: blockhash `hash` observed at `slot`.
    pub fn record(&mut self, hash: HashBytes, slot: u64)
        requires
            old(self).wf(),
            old(self).spec_responses() < u32::MAX,
        ensures
            final(self).wf(),
            final(self).spec_votes() == spec_add_vote(old(self).spec_votes(), hash, slot),
            final(self).spec_responses() == old(self).spec_responses() + 1,
    {
        let ghost old_votes = self.votes@;
        let ghost old_self = *self;
        let n = self.votes.len();
        let mut i: usize = 0;
        while i < n
            invariant
                n == self.votes@.len(),
                self.votes@ == old_votes,
                *self == old_self,
                old_self == *old(self),
                old_self.wf(),
                old_self.votes@ == old_votes,
                self.responses < u32::MAX,
                0 <= i <= n,
                forall|j: int| 0 <= j < i ==> self.votes@[j].hash != hash,
            decreases n - i,
        {
            if keys_eq(&self.votes[i].hash, &hash) {
                let v = self.votes[i];
                proof {
                    lemma_count_le_total(old_votes, i as int);
                }
                let bumped = Vote {
                    hash,
                    count: v.count + 1,
                    max_slot: if slot > v.max_slot { slot } else { v.max_slot },
                    min_slot: if slot < v.min_slot { slot } else { v.min_slot },
                };
                self.votes.set(i, bumped);
                self.responses = self.responses + 1;
                proof {
                    assert(old_votes[i as int].hash == hash);
                    assert(exists|j: int| 0 <= j < old_votes.len() && old_votes[j].hash == hash);
                    lemma_unique_index(old_votes, hash, i as int);
                    lemma_total_update(old_votes, i as int, bumped);
                }
                return;
            }
            i += 1;
        }
        self.votes.push(Vote { hash, count: 1, max_slot: slot, min_slot: slot });
        self.responses = self.responses + 1;
        proof {
            assert(self.votes@.drop_last() =~= old_votes);
        }
    }

    /// The votes of the first blockhash (in arrival order) that reach quorum, if any.
    pub fn winning_vote(&self, q: &QuorumConfig) -> (r: Option<Vote>)
        ensures
            match r {
                Some(v) => exists|i: int| 0 <= i < self.spec_votes().len()
                    && #[trigger] self.spec_votes()[i] == v && reaches_quorum(v, *q),
                None => forall|i: int| 0 <= i < self.spec_votes().len()
                    ==> !reaches_quorum(#[trigger] self.spec_votes()[i], *q),
            },
    {
        let mut i: usize = 0;
        while i < self.votes.len()
            invariant
                0 <= i <= self.votes@.len(),
                forall|j: int| 0 <= j < i ==> !reaches_quorum(#[trigger] self.votes@[j], *q),
            decreases self.votes@.len() - i,
        {
            let v = self.votes[i];
            let spread_ok = !q.enable_slot_validation || v.max_slot.saturating_sub(v.min_slot) <= q.max_slot_diff;
            if v.count >= q.min_responses as u32 && spread_ok {
                assert(self.votes@[i as int] == v);
                assert(reaches_quorum(self.votes@[i as int], *q));
                assert(self.spec_votes()[i as int] == v);
                return Some(v);
            }
            i += 1;
        }
        None
    }

    /// The first blockhash (in arrival order) whose votes reach quorum, if any.
    pub fn check(&self, q: &QuorumConfig) -> (r: Option<HashBytes>)
        ensures
            match r {
                Some(h) => exists|i: int| 0 <= i < self.spec_votes().len()
                    && #[trigger] self.spec_votes()[i].hash == h && reaches_quorum(self.spec_votes()[i], *q),
                None => forall|i: int| 0 <= i < self.spec_votes().len()
                    ==> !reaches_quorum(#[trigger] self.spec_votes()[i], *q),
            },
    {
        match self.winning_vote(q) {
            Some(v) => {
                let ghost i = choose|i: int| 0 <= i < self.spec_votes().len()
                    && #[trigger] self.spec_votes()[i] == v && reaches_quorum(v, *q);
                assert(self.spec_votes()[i].hash == v.hash);
                Some(v.hash)
            },
            None => None,
        }
    }
}

proof fn lemma_total_nonneg(votes: Seq<Vote>)
    ensures
        total_votes(votes) >= 0,
    decreases votes.len(),
{
    if votes.len() > 0 {
        lemma_total_nonneg(votes.drop_last());
    }
}

proof fn lemma_count_le_total(votes: Seq<Vote>, i: int)
    requires
        0 <= i < votes.len(),
    ensures
        votes[i].count <= total_votes(votes),
    decreases votes.len(),
{
    lemma_total_nonneg(votes.drop_last());
    if i < votes.len() - 1 {
        lemma_count_le_total(votes.drop_last(), i);
    }
}

proof fn lemma_unique_index(votes: Seq<Vote>, hash: HashBytes, i: int)
    requires
        0 <= i < votes.len(),
        votes[i].hash == hash,
        forall|a: int, b: int| 0 <= a < b < votes.len() ==> votes[a].hash != votes[b].hash,
    ensures
        (choose|j: int| 0 <= j < votes.len() && votes[j].hash == hash) == i,
{
    let j = choose|j: int| 0 <= j < votes.len() && votes[j].hash == hash;
    assert(0 <= j < votes.len() && votes[j].hash == hash);
    if j < i {
        assert(votes[j].hash != votes[i].hash);
    } else if j > i {
        assert(votes[i].hash != votes[j].hash);
    }
}

proof fn lemma_total_update(votes: Seq<Vote>, i: int, v: Vote)
    requires
        0 <= i < votes.len(),
    ensures
        total_votes(votes.update(i, v)) == total_votes(votes) - votes[i].count + v.count,
    decreases votes.len(),
{
    let u = votes.update(i, v);
    if i == votes.len() - 1 {
        assert(u.drop_last() =~= votes.drop_last());
    } else {
        assert(u.drop_last() =~= votes.drop_last().update(i, v));
        lemma_total_update(votes.drop_last(), i, v);
    }
}

proof fn lemma_two_counts_le_total(votes: Seq<Vote>, i: int, j: int)
    requires
        0 <= i < j < votes.len(),
        forall|k: int| 0 <= k < votes.len() ==> votes[k].count >= 0,
    ensures
        votes[i].count + votes[j].count <= total_votes(votes),
    decreases votes.len(),
{
    if j < votes.len() - 1 {
        lemma_two_counts_le_total(votes.drop_last(), i, j);
    } else {
        lemma_count_le_total(votes.drop_last(), i);
    }
}

/// The votes of a tally that recorded `answers` (blockhash and slot, in arrival order),
/// starting empty.
pub open spec fn votes_after(answers: Seq<(HashBytes, u64)>) -> Seq<Vote>
    decreases answers.len(),
{
    if answers.len() == 0 {
        Seq::<Vote>::empty()
    } else {
        spec_add_vote(votes_after(answers.drop_last()), answers.last().0, answers.last().1)
    }
}

/// How many of the answers name `hash`.
pub open spec fn answers_for(answers: Seq<(HashBytes, u64)>, hash: HashBytes) -> nat
    decreases answers.len(),
{
    if answers.len() == 0 {
        0
    } else {
        answers_for(answers.drop_last(), hash) + (if answers.last().0 == hash { 1nat } else { 0nat })
    }
}

proof fn lemma_answers_for_le_len(answers: Seq<(HashBytes, u64)>, hash: HashBytes)
    ensures
        answers_for(answers, hash) <= answers.len(),
    decreases answers.len(),
{
    if answers.len() > 0 {
        lemma_answers_for_le_len(answers.drop_last(), hash);
    }
}

/// Some vote is for `hash`.
pub open spec fn has_vote(votes: Seq<Vote>, hash: HashBytes) -> bool {
    exists|i: int| 0 <= i < votes.len() && votes[i].hash == hash
}

/// Some answer named `hash` at `slot`.
pub open spec fn slot_answered(answers: Seq<(HashBytes, u64)>, hash: HashBytes, slot: u64) -> bool {
    exists|k: int| 0 <= k < answers.len() && answers[k].0 == hash && answers[k].1 == slot
}

/// No blockhash has two votes.
pub open spec fn votes_unique(votes: Seq<Vote>) -> bool {
    forall|i: int, j: int| 0 <= i < j < votes.len() ==> #[trigger] votes[i].hash != #[trigger] votes[j].hash
}

/// Every blockhash answered has a vote.
pub open spec fn answers_covered(answers: Seq<(HashBytes, u64)>, votes: Seq<Vote>) -> bool {
    forall|k: int| 0 <= k < answers.len() ==> has_vote(votes, #[trigger] answers[k].0)
}

/// Each vote counts the answers naming its blockhash.
pub open spec fn votes_count_answers(answers: Seq<(HashBytes, u64)>, votes: Seq<Vote>) -> bool {
    forall|i: int| 0 <= i < votes.len() ==> #[trigger] votes[i].count == answers_for(answers, votes[i].hash)
}

/// Every slot answered for a blockhash lies between its vote's lowest and highest slot.
pub open spec fn slots_within(answers: Seq<(HashBytes, u64)>, votes: Seq<Vote>) -> bool {
    forall|i: int, k: int| 0 <= i < votes.len() && 0 <= k < answers.len() && answers[k].0 == votes[i].hash
        ==> #[trigger] votes[i].min_slot <= #[trigger] answers[k].1 <= votes[i].max_slot
}

/// Each vote's highest slot was answered for its blockhash.
pub open spec fn max_slots_answered(answers: Seq<(HashBytes, u64)>, votes: Seq<Vote>) -> bool {
    forall|i: int| 0 <= i < votes.len() ==> slot_answered(answers, (#[trigger] votes[i]).hash, votes[i].max_slot)
}

/// Each vote's lowest slot was answered for its blockhash.
pub open spec fn min_slots_answered(answers: Seq<(HashBytes, u64)>, votes: Seq<Vote>) -> bool {
    forall|i: int| 0 <= i < votes.len() ==> slot_answered(answers, (#[trigger] votes[i]).hash, votes[i].min_slot)
}

/// What the votes after recording `answers` say of them: one vote per blockhash
/// answered (and none for another), counting its answers, with the highest and the
/// lowest slot answered for it.
pub open spec fn votes_describe(answers: Seq<(HashBytes, u64)>, votes: Seq<Vote>) -> bool {
    &&& votes_unique(votes)
    &&& answers_covered(answers, votes)
    &&& votes_count_answers(answers, votes)
    &&& slots_within(answers, votes)
    &&& max_slots_answered(answers, votes)
    &&& min_slots_answered(answers, votes)
}

proof fn lemma_answers_for_push(answers: Seq<(HashBytes, u64)>, a: (HashBytes, u64), hash: HashBytes)
    ensures
        answers_for(answers.push(a), hash) == answers_for(answers, hash) + (if a.0 == hash { 1nat } else { 0nat }),
{
    assert(answers.push(a).drop_last() =~= answers);
}

/// The vote for a blockhash after one more answer for it at `slot`.
pub open spec fn bumped_vote(v: Vote, slot: u64) -> Vote {
    Vote {
        hash: v.hash,
        count: (v.count + 1) as u32,
        max_slot: if slot > v.max_slot { slot } else { v.max_slot },
        min_slot: if slot < v.min_slot { slot } else { v.min_slot },
    }
}

#[verifier::spinoff_prover]
proof fn lemma_step_found_shape(pa: Seq<(HashBytes, u64)>, prev: Seq<Vote>, s: u64, j: int)
    requires
        votes_unique(prev),
        answers_covered(pa, prev),
        0 <= j < prev.len(),
    ensures
        votes_unique(prev.update(j, bumped_vote(prev[j], s))),
        answers_covered(pa.push((prev[j].hash, s)), prev.update(j, bumped_vote(prev[j], s))),
{
    let h = prev[j].hash;
    let votes = prev.update(j, bumped_vote(prev[j], s));
    let answers = pa.push((h, s));
    assert forall|i: int, i2: int| 0 <= i < i2 < votes.len() implies #[trigger] votes[i].hash
        != #[trigger] votes[i2].hash by {
        assert(prev[i].hash != prev[i2].hash);
    }
    assert forall|k: int| 0 <= k < answers.len() implies has_vote(votes, #[trigger] answers[k].0) by {
        if k == pa.len() {
            assert(votes[j].hash == answers[k].0);
        } else {
            assert(answers[k] == pa[k]);
            let i = choose|i: int| 0 <= i < prev.len() && prev[i].hash == pa[k].0;
            assert(votes[i].hash == answers[k].0);
        }
    }
}

#[verifier::spinoff_prover]
proof fn lemma_step_found_counts(pa: Seq<(HashBytes, u64)>, prev: Seq<Vote>, s: u64, j: int)
    requires
        votes_unique(prev),
        votes_count_answers(pa, prev),
        pa.len() < u32::MAX,
        0 <= j < prev.len(),
    ensures
        votes_count_answers(pa.push((prev[j].hash, s)), prev.update(j, bumped_vote(prev[j], s))),
{
    let h = prev[j].hash;
    let votes = prev.update(j, bumped_vote(prev[j], s));
    let answers = pa.push((h, s));
    lemma_answers_for_le_len(pa, h);
    assert forall|i: int| 0 <= i < votes.len() implies #[trigger] votes[i].count
        == answers_for(answers, votes[i].hash) by {
        lemma_answers_for_push(pa, (h, s), prev[i].hash);
        assert(prev[i].count == answers_for(pa, prev[i].hash));
        if i != j {
            assert(prev[i].hash != h) by {
                if i < j { assert(prev[i].hash != prev[j].hash); } else { assert(prev[j].hash != prev[i].hash); }
            }
        }
    }
}

#[verifier::spinoff_prover]
proof fn lemma_step_found_slots(pa: Seq<(HashBytes, u64)>, prev: Seq<Vote>, s: u64, j: int)
    requires
        votes_unique(prev),
        slots_within(pa, prev),
        max_slots_answered(pa, prev),
        min_slots_answered(pa, prev),
        0 <= j < prev.len(),
    ensures
        slots_within(pa.push((prev[j].hash, s)), prev.update(j, bumped_vote(prev[j], s))),
        max_slots_answered(pa.push((prev[j].hash, s)), prev.update(j, bumped_vote(prev[j], s))),
        min_slots_answered(pa.push((prev[j].hash, s)), prev.update(j, bumped_vote(prev[j], s))),
{
    let h = prev[j].hash;
    let v = prev[j];
    let votes = prev.update(j, bumped_vote(prev[j], s));
    let answers = pa.push((h, s));
    let n = pa.len() as int;
    assert forall|i: int, k: int| 0 <= i < votes.len() && 0 <= k < answers.len() && answers[k].0 == votes[i].hash
        implies #[trigger] votes[i].min_slot <= #[trigger] answers[k].1 <= votes[i].max_slot by {
        if i != j {
            assert(prev[i].hash != h) by {
                if i < j { assert(prev[i].hash != prev[j].hash); } else { assert(prev[j].hash != prev[i].hash); }
            }
            assert(k != n);
            assert(answers[k] == pa[k]);
            assert(prev[i].min_slot <= pa[k].1 <= prev[i].max_slot);
        } else if k != n {
            assert(answers[k] == pa[k]);
            assert(prev[j].min_slot <= pa[k].1 <= prev[j].max_slot);
        }
    }
    assert forall|i: int| 0 <= i < votes.len() implies slot_answered(answers, (#[trigger] votes[i]).hash, votes[i].max_slot) by {
        if i == j && s > v.max_slot {
            assert(answers[n].0 == votes[i].hash);
        } else {
            assert(slot_answered(pa, prev[i].hash, prev[i].max_slot));
            let k = choose|k: int| 0 <= k < pa.len() && pa[k].0 == prev[i].hash && pa[k].1 == prev[i].max_slot;
            assert(answers[k] == pa[k]);
            assert(answers[k].0 == votes[i].hash);
        }
    }
    assert forall|i: int| 0 <= i < votes.len() implies slot_answered(answers, (#[trigger] votes[i]).hash, votes[i].min_slot) by {
        if i == j && s < v.min_slot {
            assert(answers[n].0 == votes[i].hash);
        } else {
            assert(slot_answered(pa, prev[i].hash, prev[i].min_slot));
            let k = choose|k: int| 0 <= k < pa.len() && pa[k].0 == prev[i].hash && pa[k].1 == prev[i].min_slot;
            assert(answers[k] == pa[k]);
            assert(answers[k].0 == votes[i].hash);
        }
    }
}

proof fn lemma_new_hash_unanswered(pa: Seq<(HashBytes, u64)>, prev: Seq<Vote>, h: HashBytes)
    requires
        answers_covered(pa, prev),
        forall|i: int| 0 <= i < prev.len() ==> prev[i].hash != h,
    ensures
        forall|k: int| 0 <= k < pa.len() ==> #[trigger] pa[k].0 != h,
{
    assert forall|k: int| 0 <= k < pa.len() implies #[trigger] pa[k].0 != h by {
        let i = choose|i: int| 0 <= i < prev.len() && prev[i].hash == pa[k].0;
        assert(prev[i].hash == pa[k].0);
    }
}

#[verifier::spinoff_prover]
proof fn lemma_step_new_shape(pa: Seq<(HashBytes, u64)>, prev: Seq<Vote>, h: HashBytes, s: u64)
    requires
        votes_unique(prev),
        answers_covered(pa, prev),
        forall|i: int| 0 <= i < prev.len() ==> prev[i].hash != h,
    ensures
        votes_unique(prev.push(Vote { hash: h, count: 1, max_slot: s, min_slot: s })),
        answers_covered(pa.push((h, s)), prev.push(Vote { hash: h, count: 1, max_slot: s, min_slot: s })),
{
    let votes = prev.push(Vote { hash: h, count: 1, max_slot: s, min_slot: s });
    let answers = pa.push((h, s));
    let m = prev.len() as int;
    let n = pa.len() as int;
    assert forall|i: int, i2: int| 0 <= i < i2 < votes.len() implies #[trigger] votes[i].hash
        != #[trigger] votes[i2].hash by {
        if i2 < m {
            assert(prev[i].hash != prev[i2].hash);
        } else {
            assert(prev[i].hash != h);
        }
    }
    assert forall|k: int| 0 <= k < answers.len() implies has_vote(votes, #[trigger] answers[k].0) by {
        if k == n {
            assert(votes[m].hash == answers[k].0);
        } else {
            assert(answers[k] == pa[k]);
            let i = choose|i: int| 0 <= i < prev.len() && prev[i].hash == pa[k].0;
            assert(votes[i].hash == answers[k].0);
        }
    }
}

#[verifier::spinoff_prover]
proof fn lemma_step_new_counts(pa: Seq<(HashBytes, u64)>, prev: Seq<Vote>, h: HashBytes, s: u64)
    requires
        votes_count_answers(pa, prev),
        forall|i: int| 0 <= i < prev.len() ==> prev[i].hash != h,
        forall|k: int| 0 <= k < pa.len() ==> #[trigger] pa[k].0 != h,
    ensures
        votes_count_answers(pa.push((h, s)), prev.push(Vote { hash: h, count: 1, max_slot: s, min_slot: s })),
{
    let votes = prev.push(Vote { hash: h, count: 1, max_slot: s, min_slot: s });
    let answers = pa.push((h, s));
    let m = prev.len() as int;
    lemma_answers_for_absent(pa, h);
    assert forall|i: int| 0 <= i < votes.len() implies #[trigger] votes[i].count
        == answers_for(answers, votes[i].hash) by {
        lemma_answers_for_push(pa, (h, s), votes[i].hash);
        if i < m {
            assert(prev[i].count == answers_for(pa, prev[i].hash));
            assert(prev[i].hash != h);
        }
    }
}

#[verifier::spinoff_prover]
proof fn lemma_step_new_slots(pa: Seq<(HashBytes, u64)>, prev: Seq<Vote>, h: HashBytes, s: u64)
    requires
        slots_within(pa, prev),
        max_slots_answered(pa, prev),
        min_slots_answered(pa, prev),
        forall|i: int| 0 <= i < prev.len() ==> prev[i].hash != h,
        forall|k: int| 0 <= k < pa.len() ==> #[trigger] pa[k].0 != h,
    ensures
        slots_within(pa.push((h, s)), prev.push(Vote { hash: h, count: 1, max_slot: s, min_slot: s })),
        max_slots_answered(pa.push((h, s)), prev.push(Vote { hash: h, count: 1, max_slot: s, min_slot: s })),
        min_slots_answered(pa.push((h, s)), prev.push(Vote { hash: h, count: 1, max_slot: s, min_slot: s })),
{
    let votes = prev.push(Vote { hash: h, count: 1, max_slot: s, min_slot: s });
    let answers = pa.push((h, s));
    let m = prev.len() as int;
    let n = pa.len() as int;
    assert forall|i: int, k: int| 0 <= i < votes.len() && 0 <= k < answers.len() && answers[k].0 == votes[i].hash
        implies #[trigger] votes[i].min_slot <= #[trigger] answers[k].1 <= votes[i].max_slot by {
        if i < m {
            assert(prev[i].hash != h);
            assert(k != n);
            assert(answers[k] == pa[k]);
            assert(prev[i].min_slot <= pa[k].1 <= prev[i].max_slot);
        } else if k != n {
            assert(answers[k] == pa[k]);
            assert(pa[k].0 != h);
        }
    }
    assert forall|i: int| 0 <= i < votes.len() implies slot_answered(answers, (#[trigger] votes[i]).hash, votes[i].max_slot) by {
        if i == m {
            assert(answers[n].0 == votes[i].hash);
        } else {
            assert(slot_answered(pa, prev[i].hash, prev[i].max_slot));
            let k = choose|k: int| 0 <= k < pa.len() && pa[k].0 == prev[i].hash && pa[k].1 == prev[i].max_slot;
            assert(answers[k] == pa[k]);
            assert(answers[k].0 == votes[i].hash);
        }
    }
    assert forall|i: int| 0 <= i < votes.len() implies slot_answered(answers, (#[trigger] votes[i]).hash, votes[i].min_slot) by {
        if i == m {
            assert(answers[n].0 == votes[i].hash);
        } else {
            assert(slot_answered(pa, prev[i].hash, prev[i].min_slot));
            let k = choose|k: int| 0 <= k < pa.len() && pa[k].0 == prev[i].hash && pa[k].1 == prev[i].min_slot;
            assert(answers[k] == pa[k]);
            assert(answers[k].0 == votes[i].hash);
        }
    }
}

proof fn lemma_votes_describe(answers: Seq<(HashBytes, u64)>)
    requires
        answers.len() < u32::MAX,
    ensures
        votes_describe(answers, votes_after(answers)),
    decreases answers.len(),
{
    if answers.len() == 0 {
        return;
    }
    let pa = answers.drop_last();
    let prev = votes_after(pa);
    let h = answers.last().0;
    let s = answers.last().1;
    lemma_votes_describe(pa);
    assert(answers =~= pa.push((h, s)));
    if exists|i: int| 0 <= i < prev.len() && prev[i].hash == h {
        let j = choose|i: int| 0 <= i < prev.len() && prev[i].hash == h;
        assert(spec_add_vote(prev, h, s) == prev.update(j, bumped_vote(prev[j], s)));
        lemma_step_found_shape(pa, prev, s, j);
        lemma_step_found_counts(pa, prev, s, j);
        lemma_step_found_slots(pa, prev, s, j);
    } else {
        lemma_new_hash_unanswered(pa, prev, h);
        lemma_step_new_shape(pa, prev, h, s);
        lemma_step_new_counts(pa, prev, h, s);
        lemma_step_new_slots(pa, prev, h, s);
    }
}

proof fn lemma_answers_for_absent(answers: Seq<(HashBytes, u64)>, hash: HashBytes)
    requires
        forall|k: int| 0 <= k < answers.len() ==> #[trigger] answers[k].0 != hash,
    ensures
        answers_for(answers, hash) == 0,
    decreases answers.len(),
{
    if answers.len() > 0 {
        let d = answers.drop_last();
        assert forall|k: int| 0 <= k < d.len() implies #[trigger] d[k].0 != hash by {
            assert(d[k] == answers[k]);
        }
        lemma_answers_for_absent(d, hash);
        assert(answers[answers.len() - 1].0 != hash);
    }
}

/// A tally keeps, for each blockhash, how many endpoints answered it and the highest and
/// lowest slot they reported: after any sequence of answers, the vote for a blockhash
/// counts exactly the answers naming it, every slot answered for it lies between the
/// vote's `min_slot` and `max_slot`, and both are slots actually answered for it. So the
/// slot spread checked for quorum is that of all the answers, whatever their order.
pub proof fn lemma_tally_tracks_answers(answers: Seq<(HashBytes, u64)>, i: int)
    requires
        answers.len() < u32::MAX,
        0 <= i < votes_after(answers).len(),
    ensures
        votes_after(answers)[i].count == answers_for(answers, votes_after(answers)[i].hash),
        forall|k: int| 0 <= k < answers.len() && answers[k].0 == votes_after(answers)[i].hash
            ==> votes_after(answers)[i].min_slot <= #[trigger] answers[k].1 <= votes_after(answers)[i].max_slot,
        exists|k: int| 0 <= k < answers.len() && #[trigger] answers[k].0 == votes_after(answers)[i].hash
            && answers[k].1 == votes_after(answers)[i].max_slot,
        exists|k: int| 0 <= k < answers.len() && #[trigger] answers[k].0 == votes_after(answers)[i].hash
            && answers[k].1 == votes_after(answers)[i].min_slot,
{
    lemma_votes_describe(answers);
    let votes = votes_after(answers);
    assert forall|k: int| 0 <= k < answers.len() && answers[k].0 == votes[i].hash
        implies votes[i].min_slot <= #[trigger] answers[k].1 <= votes[i].max_slot by {
        assert(votes[i].min_slot <= answers[k].1 <= votes[i].max_slot);
    }
}

/// Recording one more answer in a tally of `answers` gives the tally of the answers
/// with that one appended (`QuorumTally::record`), so a tally built by `new` and
/// `record` is always `votes_after` of the answers recorded, in order.
pub proof fn lemma_record_appends_answer(answers: Seq<(HashBytes, u64)>, hash: HashBytes, slot: u64)
    ensures
        spec_add_vote(votes_after(answers), hash, slot) == votes_after(answers.push((hash, slot))),
{
    assert(answers.push((hash, slot)).drop_last() =~= answers);
}

/// A blockhash reaches quorum exactly when enough of the answers name it and, with slot
/// validation, any two slots answered for it are at most `max_slot_diff` apart.
pub proof fn lemma_quorum_means_agreement(answers: Seq<(HashBytes, u64)>, q: QuorumConfig, i: int)
    requires
        answers.len() < u32::MAX,
        q.min_responses <= u32::MAX,
        0 <= i < votes_after(answers).len(),
    ensures
        reaches_quorum(votes_after(answers)[i], q) <==> {
            &&& answers_for(answers, votes_after(answers)[i].hash) >= q.min_responses
            &&& q.enable_slot_validation ==> forall|k1: int, k2: int|
                0 <= k1 < answers.len() && 0 <= k2 < answers.len()
                    && #[trigger] answers[k1].0 == votes_after(answers)[i].hash
                    && #[trigger] answers[k2].0 == votes_after(answers)[i].hash
                ==> answers[k1].1 - answers[k2].1 <= q.max_slot_diff
        },
{
    lemma_votes_describe(answers);
    let votes = votes_after(answers);
    let v = votes[i];
    assert(v.count == answers_for(answers, v.hash));
    assert(slot_answered(answers, v.hash, v.max_slot));
    assert(slot_answered(answers, v.hash, v.min_slot));
    let kmax = choose|k: int| 0 <= k < answers.len() && answers[k].0 == v.hash && answers[k].1 == v.max_slot;
    let kmin = choose|k: int| 0 <= k < answers.len() && answers[k].0 == v.hash && answers[k].1 == v.min_slot;
    assert(v.min_slot <= answers[kmax].1 <= v.max_slot);
    if reaches_quorum(v, q) && q.enable_slot_validation {
        assert forall|k1: int, k2: int|
            0 <= k1 < answers.len() && 0 <= k2 < answers.len()
                && #[trigger] answers[k1].0 == v.hash && #[trigger] answers[k2].0 == v.hash
            implies answers[k1].1 - answers[k2].1 <= q.max_slot_diff by {
            assert(v.min_slot <= answers[k1].1 <= v.max_slot);
            assert(v.min_slot <= answers[k2].1 <= v.max_slot);
        }
    }
    if q.enable_slot_validation && (forall|k1: int, k2: int|
        0 <= k1 < answers.len() && 0 <= k2 < answers.len()
            && #[trigger] answers[k1].0 == v.hash && #[trigger] answers[k2].0 == v.hash
        ==> answers[k1].1 - answers[k2].1 <= q.max_slot_diff) {
        assert(answers[kmax].1 - answers[kmin].1 <= q.max_slot_diff);
    }
}

/// Every blockhash answered has exactly one vote in the tally.
pub proof fn lemma_tally_one_vote_per_hash(answers: Seq<(HashBytes, u64)>, k: int)
    requires
        answers.len() < u32::MAX,
        0 <= k < answers.len(),
    ensures
        exists|i: int| 0 <= i < votes_after(answers).len() && #[trigger] votes_after(answers)[i].hash == answers[k].0,
        forall|i: int, j: int| 0 <= i < j < votes_after(answers).len()
            ==> votes_after(answers)[i].hash != votes_after(answers)[j].hash,
{
    lemma_votes_describe(answers);
    let votes = votes_after(answers);
    assert(exists|i: int| 0 <= i < votes.len() && #[trigger] votes[i].hash == #[trigger] answers[k].0);
    assert forall|i: int, j: int| 0 <= i < j < votes.len() implies votes[i].hash != votes[j].hash by {
        assert(votes[i].hash != votes[j].hash);
    }
}

/// Law: in a quorum round, where no more endpoints answer than the number of agreeing
/// answers the quorum needs, at most one blockhash can reach quorum, so the answer does
/// not depend on the order in which the votes are examined.
pub proof fn lemma_quorum_winner_unique(t: QuorumTally, q: QuorumConfig, i: int, j: int)
    requires
        t.wf(),
        q.min_responses > 1,
        q.min_responses <= u32::MAX,
        t.spec_responses() <= q.min_responses,
        0 <= i < t.spec_votes().len(),
        0 <= j < t.spec_votes().len(),
        reaches_quorum(t.spec_votes()[i], q),
        reaches_quorum(t.spec_votes()[j], q),
    ensures
        i == j,
{
    if i < j {
        lemma_two_counts_le_total(t.spec_votes(), i, j);
    } else if j < i {
        lemma_two_counts_le_total(t.spec_votes(), j, i);
    }
}

// ============================================================================
// Blockhash cache
// ============================================================================

/// A cached blockhash: when it was stored (clock reading in milliseconds) and its slot.
#[derive(Debug, Clone, Copy, PartialEq, Eq)]
pub struct CacheEntry {
    pub hash: HashBytes,
    pub inserted_ms: u64,
    pub slot: u64,
}

/// Milliseconds since `t`, zero for a reading from the future (as `Instant::elapsed`).
pub open spec fn age(now_ms: u64, t: u64) -> int {
    if now_ms >= t { now_ms - t } else { 0 }
}

/// `a - b`, or zero when `b` is larger.
pub open spec fn sat_sub(a: u64, b: u64) -> int {
    if a >= b { a - b } else { 0 }
}

/// Cache of recently fetched blockhashes; each hash is stored once.
#[derive(Debug)]
pub struct BlockhashCache {
    entries: Vec<CacheEntry>,
}

/// Entries after storing `hash` at `now_ms` and `slot` (replacing an entry for the same hash).
pub open spec fn spec_cache_insert(entries: Seq<CacheEntry>, hash: HashBytes, now_ms: u64, slot: u64) -> Seq<CacheEntry> {
    let e = CacheEntry { hash, inserted_ms: now_ms, slot };
    if exists|i: int| 0 <= i < entries.len() && entries[i].hash == hash {
        entries.update(choose|i: int| 0 <= i < entries.len() && entries[i].hash == hash, e)
    } else {
        entries.push(e)
    }
}

/// Is the entry usable under slot validation: younger than the TTL and at most
/// `max_slot_diff` slots behind `current_slot`?
pub open spec fn slot_valid(e: CacheEntry, now_ms: u64, ttl_ms: u64, current_slot: u64, max_slot_diff: u64) -> bool {
    age(now_ms, e.inserted_ms) < ttl_ms && sat_sub(current_slot, e.slot) <= max_slot_diff
}

/// Is the entry younger than the TTL?
pub open spec fn time_valid(e: CacheEntry, now_ms: u64, ttl_ms: u64) -> bool {
    age(now_ms, e.inserted_ms) < ttl_ms
}

/// Does an entry survive pruning after a fetch at `now_ms` of a blockhash at `slot`?
/// It must be younger than twice the TTL and newer than twice the allowed slot spread.
pub open spec fn survives_prune(e: CacheEntry, now_ms: u64, ttl_ms: u64, slot: u64, max_slot_diff: u64) -> bool {
    e.inserted_ms > now_ms - 2 * ttl_ms && e.slot > sat_sub(slot, (2 * max_slot_diff) as u64)
}

/// Is the entry at most `max_slot_lag` slots behind `current_slot`?
pub open spec fn within_lag(e: CacheEntry, current_slot: u64, max_slot_lag: u64) -> bool {
    sat_sub(current_slot, e.slot) <= max_slot_lag
}

/// `r` is the hash of a usable entry (under slot validation) with the highest slot, or
/// `None` when no entry is usable.
pub open spec fn best_slot_validated(
    entries: Seq<CacheEntry>,
    now_ms: u64,
    ttl_ms: u64,
    current_slot: u64,
    max_slot_diff: u64,
    r: Option<HashBytes>,
) -> bool {
    match r {
        Some(h) => exists|i: int| 0 <= i < entries.len()
            && #[trigger] entries[i].hash == h
            && slot_valid(entries[i], now_ms, ttl_ms, current_slot, max_slot_diff)
            && forall|j: int| 0 <= j < entries.len()
                && slot_valid(#[trigger] entries[j], now_ms, ttl_ms, current_slot, max_slot_diff)
                ==> entries[j].slot <= entries[i].slot,
        None => forall|j: int| 0 <= j < entries.len()
            ==> !slot_valid(#[trigger] entries[j], now_ms, ttl_ms, current_slot, max_slot_diff),
    }
}

/// `r` is the hash of the youngest entry stored less than `ttl_ms` ago, or `None` when
/// there is none.
pub open spec fn youngest_time_valid(entries: Seq<CacheEntry>, now_ms: u64, ttl_ms: u64, r: Option<HashBytes>) -> bool {
    match r {
        Some(h) => exists|i: int| 0 <= i < entries.len()
            && #[trigger] entries[i].hash == h
            && time_valid(entries[i], now_ms, ttl_ms)
            && forall|j: int| 0 <= j < entries.len()
                && time_valid(#[trigger] entries[j], now_ms, ttl_ms)
                ==> entries[j].inserted_ms <= entries[i].inserted_ms,
        None => forall|j: int| 0 <= j < entries.len() ==> !time_valid(#[trigger] entries[j], now_ms, ttl_ms),
    }
}

impl BlockhashCache {
    /// Each blockhash is stored once.
    pub closed spec fn wf(&self) -> bool {
        forall|i: int, j: int| 0 <= i < j < self.entries@.len() ==> self.entries@[i].hash != self.entries@[j].hash
    }

    /// The cached entries.
    pub closed spec fn spec_entries(&self) -> Seq<CacheEntry> {
        self.entries@
    }

    /// An empty cache.
    pub fn new() -> (c: BlockhashCache)
        ensures
            c.wf(),
            c.spec_entries().len() == 0,
    {
        BlockhashCache { entries: Vec::new() }
    }

    /// Number of cached blockhashes.
    pub fn len(&self) -> (n: usize)
        ensures
            n == self.spec_entries().len(),
    {
        self.entries.len()
    }

    /// Removes every entry.
    pub fn clear(&mut self)
        ensures
            final(self).wf(),
            final(self).spec_entries().len() == 0,
    {
        self.entries.clear();
    }

    /// Stores `hash`, fetched at `now_ms` for `slot`, replacing an older entry for it.
    pub fn insert(&mut self, hash: HashBytes, now_ms: u64, slot: u64)
        requires
            old(self).wf(),
        ensures
            final(self).wf(),
            final(self).spec_entries() == spec_cache_insert(old(self).spec_entries(), hash, now_ms, slot),
    {
        let ghost old_entries = self.entries@;
        let e = CacheEntry { hash, inserted_ms: now_ms, slot };
        let n = self.entries.len();
        let mut i: usize = 0;
        while i < n
            invariant
                n == self.entries@.len(),
                self.entries@ == old_entries,
                old_entries == old(self).entries@,
                e == (CacheEntry { hash, inserted_ms: now_ms, slot }),
                forall|a: int, b: int| 0 <= a < b < old_entries.len() ==> old_entries[a].hash != old_entries[b].hash,
                0 <= i <= n,
                forall|j: int| 0 <= j < i ==> self.entries@[j].hash != hash,
            decreases n - i,
        {
            if keys_eq(&self.entries[i].hash, &hash) {
                assert(old_entries[i as int].hash == hash);
                self.entries.set(i, e);
                proof {
                    let k = choose|k: int| 0 <= k < old_entries.len() && old_entries[k].hash == hash;
                    assert(0 <= k < old_entries.len() && old_entries[k].hash == hash);
                    if k < i as int {
                        assert(old_entries[k].hash != old_entries[i as int].hash);
                    } else if k > i as int {
                        assert(old_entries[i as int].hash != old_entries[k].hash);
                    }
                    assert(k == i as int);
                    assert(self.entries@ =~= old_entries.update(i as int, e));
                    assert(forall|j: int| 0 <= j < n ==> #[trigger] self.entries@[j].hash == old_entries[j].hash);
                }
                return;
            }
            i += 1;
        }
        self.entries.push(e);
    }

    /// The usable blockhash with the highest slot under slot validation, if any.
    pub fn select_slot_validated(&self, now_ms: u64, ttl_ms: u64, current_slot: u64, max_slot_diff: u64)
        -> (r: Option<HashBytes>)
        ensures
            best_slot_validated(self.spec_entries(), now_ms, ttl_ms, current_slot, max_slot_diff, r),
    {
        let mut best: Option<usize> = None;
        let mut i: usize = 0;
        while i < self.entries.len()
            invariant
                0 <= i <= self.entries@.len(),
                match best {
                    Some(b) => b < i && slot_valid(self.entries@[b as int], now_ms, ttl_ms, current_slot, max_slot_diff)
                        && forall|j: int| 0 <= j < i
                            && slot_valid(#[trigger] self.entries@[j], now_ms, ttl_ms, current_slot, max_slot_diff)
                            ==> self.entries@[j].slot <= self.entries@[b as int].slot,
                    None => forall|j: int| 0 <= j < i
                        ==> !slot_valid(#[trigger] self.entries@[j], now_ms, ttl_ms, current_slot, max_slot_diff),
                },
            decreases self.entries@.len() - i,
        {
            let e = self.entries[i];
            let elapsed = now_ms.saturating_sub(e.inserted_ms);
            let lag = current_slot.saturating_sub(e.slot);
            if elapsed < ttl_ms && lag <= max_slot_diff {
                match best {
                    Some(b) => {
                        if e.slot > self.entries[b].slot {
                            best = Some(i);
                        }
                    },
                    None => {
                        best = Some(i);
                    },
                }
            }
            i += 1;
        }
        match best {
            Some(b) => {
                assert(self.spec_entries()[b as int].hash == self.entries@[b as int].hash);
                Some(self.entries[b].hash)
            },
            None => None,
        }
    }

    /// The youngest blockhash stored less than `ttl_ms` ago, if any.
    pub fn select_time_based(&self, now_ms: u64, ttl_ms: u64) -> (r: Option<HashBytes>)
        ensures
            youngest_time_valid(self.spec_entries(), now_ms, ttl_ms, r),
    {
        let mut best: Option<usize> = None;
        let mut i: usize = 0;
        while i < self.entries.len()
            invariant
                0 <= i <= self.entries@.len(),
                match best {
                    Some(b) => b < i && time_valid(self.entries@[b as int], now_ms, ttl_ms)
                        && forall|j: int| 0 <= j < i && time_valid(#[trigger] self.entries@[j], now_ms, ttl_ms)
                            ==> self.entries@[j].inserted_ms <= self.entries@[b as int].inserted_ms,
                    None => forall|j: int| 0 <= j < i ==> !time_valid(#[trigger] self.entries@[j], now_ms, ttl_ms),
                },
            decreases self.entries@.len() - i,
        {
            let e = self.entries[i];
            let elapsed = now_ms.saturating_sub(e.inserted_ms);
            if elapsed < ttl_ms {
                match best {
                    Some(b) => {
                        if e.inserted_ms > self.entries[b].inserted_ms {
                            best = Some(i);
                        }
                    },
                    None => {
                        best = Some(i);
                    },
                }
            }
            i += 1;
        }
        match best {
            Some(b) => {
                assert(self.spec_entries()[b as int].hash == self.entries@[b as int].hash);
                Some(self.entries[b].hash)
            },
            None => None,
        }
    }

    /// Drops entries older than twice the TTL or more than twice the slot spread behind
    /// `slot`, after a fetch at `now_ms` of a blockhash at `slot`.
    pub fn prune(&mut self, now_ms: u64, ttl_ms: u64, slot: u64, max_slot_diff: u64)
        requires
            old(self).wf(),
            ttl_ms <= u64::MAX / 2,
            max_slot_diff <= u64::MAX / 2,
        ensures
            final(self).wf(),
            final(self).spec_entries() == old(self).spec_entries().filter(
                |e: CacheEntry| survives_prune(e, now_ms, ttl_ms, slot, max_slot_diff)),
    {
        let ghost keep = |e: CacheEntry| survives_prune(e, now_ms, ttl_ms, slot, max_slot_diff);
        let span = 2 * ttl_ms;
        let cutoff_slot = slot.saturating_sub(2 * max_slot_diff);
        let mut kept: Vec<CacheEntry> = Vec::new();
        let mut i: usize = 0;
        while i < self.entries.len()
            invariant
                0 <= i <= self.entries@.len(),
                span == 2 * ttl_ms,
                cutoff_slot == sat_sub(slot, (2 * max_slot_diff) as u64),
                kept@ == self.entries@.subrange(0, i as int).filter(keep),
                keep == (|e: CacheEntry| survives_prune(e, now_ms, ttl_ms, slot, max_slot_diff)),
            decreases self.entries@.len() - i,
        {
            let e = self.entries[i];
            let fresh_time = if now_ms >= span { e.inserted_ms > now_ms - span } else { true };
            proof {
                reveal_with_fuel(Seq::<_>::filter, 1);
                assert(self.entries@.subrange(0, i + 1).drop_last() =~= self.entries@.subrange(0, i as int));
            }
            if fresh_time && e.slot > cutoff_slot {
                kept.push(e);
            }
            i += 1;
        }
        proof {
            assert(self.entries@.subrange(0, self.entries@.len() as int) =~= self.entries@);
            lemma_filter_keeps_unique(self.entries@, keep);
        }
        self.entries = kept;
    }

    /// Drops entries more than `max_slot_lag` slots behind `current_slot`; returns how
    /// many were dropped.
    pub fn invalidate_stale(&mut self, current_slot: u64, max_slot_lag: u64) -> (removed: usize)
        requires
            old(self).wf(),
        ensures
            final(self).wf(),
            final(self).spec_entries() == old(self).spec_entries().filter(
                |e: CacheEntry| within_lag(e, current_slot, max_slot_lag)),
            removed == old(self).spec_entries().len() - final(self).spec_entries().len(),
    {
        let ghost keep = |e: CacheEntry| within_lag(e, current_slot, max_slot_lag);
        let initial = self.entries.len();
        let mut kept: Vec<CacheEntry> = Vec::new();
        let mut i: usize = 0;
        while i < self.entries.len()
            invariant
                0 <= i <= self.entries@.len(),
                initial == self.entries@.len(),
                kept@ == self.entries@.subrange(0, i as int).filter(keep),
                kept@.len() <= i,
                keep == (|e: CacheEntry| within_lag(e, current_slot, max_slot_lag)),
            decreases self.entries@.len() - i,
        {
            let e = self.entries[i];
            proof {
                reveal_with_fuel(Seq::<_>::filter, 1);
                assert(self.entries@.subrange(0, i + 1).drop_last() =~= self.entries@.subrange(0, i as int));
            }
            if current_slot.saturating_sub(e.slot) <= max_slot_lag {
                kept.push(e);
            }
            i += 1;
        }
        proof {
            assert(self.entries@.subrange(0, self.entries@.len() as int) =~= self.entries@);
            lemma_filter_keeps_unique(self.entries@, keep);
        }
        self.entries = kept;
        initial - self.entries.len()
    }
}

/// Filtering keeps hashes unique.
proof fn lemma_filter_keeps_unique(s: Seq<CacheEntry>, keep: spec_fn(CacheEntry) -> bool)
    requires
        forall|i: int, j: int| 0 <= i < j < s.len() ==> s[i].hash != s[j].hash,
    ensures
        forall|i: int, j: int| 0 <= i < j < s.filter(keep).len() ==> s.filter(keep)[i].hash != s.filter(keep)[j].hash,
    decreases s.len(),
{
    reveal_with_fuel(Seq::<_>::filter, 1);
    if s.len() > 0 {
        let d = s.drop_last();
        lemma_filter_keeps_unique(d, keep);
        let f = d.filter(keep);
        if keep(s.last()) {
            assert forall|i: int| 0 <= i < f.len() implies f[i].hash != s.last().hash by {
                assert(f.contains(f[i]));
                d.lemma_filter_contains_rev(keep, f[i]);
                let k = choose|k: int| 0 <= k < d.len() && d[k] == f[i];
                assert(s[k] == d[k]);
            }
            assert(s.filter(keep) == f.push(s.last()));
        }
    }
}

/// The entry stored by an insert is in the cache afterwards.
proof fn lemma_insert_contains(entries: Seq<CacheEntry>, hash: HashBytes, at_ms: u64, slot: u64) -> (k: int)
    ensures
        0 <= k < spec_cache_insert(entries, hash, at_ms, slot).len(),
        spec_cache_insert(entries, hash, at_ms, slot)[k] == (CacheEntry { hash, inserted_ms: at_ms, slot }),
{
    if exists|i: int| 0 <= i < entries.len() && entries[i].hash == hash {
        choose|i: int| 0 <= i < entries.len() && entries[i].hash == hash
    } else {
        entries.len() as int
    }
}

/// A blockhash just stored is served: while it is younger than the TTL, the time-based
/// selection returns a hash stored no earlier than it, and the slot-validated selection
/// (when its slot is close enough to the current one) returns a hash of a slot no lower.
pub proof fn lemma_cache_serves_fresh_insert(
    entries: Seq<CacheEntry>,
    hash: HashBytes,
    at_ms: u64,
    slot: u64,
    now_ms: u64,
    ttl_ms: u64,
    current_slot: u64,
    max_slot_diff: u64,
    by_time: Option<HashBytes>,
    by_slot: Option<HashBytes>,
)
    requires
        at_ms <= now_ms,
        now_ms - at_ms < ttl_ms,
        youngest_time_valid(spec_cache_insert(entries, hash, at_ms, slot), now_ms, ttl_ms, by_time),
        best_slot_validated(spec_cache_insert(entries, hash, at_ms, slot), now_ms, ttl_ms, current_slot, max_slot_diff, by_slot),
    ensures
        by_time is Some,
        exists|i: int| 0 <= i < spec_cache_insert(entries, hash, at_ms, slot).len()
            && #[trigger] spec_cache_insert(entries, hash, at_ms, slot)[i].hash == by_time->0
            && spec_cache_insert(entries, hash, at_ms, slot)[i].inserted_ms >= at_ms,
        sat_sub(current_slot, slot) <= max_slot_diff ==> by_slot is Some,
        sat_sub(current_slot, slot) <= max_slot_diff ==> exists|i: int| 0 <= i < spec_cache_insert(entries, hash, at_ms, slot).len()
            && #[trigger] spec_cache_insert(entries, hash, at_ms, slot)[i].hash == by_slot->0
            && spec_cache_insert(entries, hash, at_ms, slot)[i].slot >= slot,
{
    let after = spec_cache_insert(entries, hash, at_ms, slot);
    let k = lemma_insert_contains(entries, hash, at_ms, slot);
    assert(time_valid(after[k], now_ms, ttl_ms));
    if sat_sub(current_slot, slot) <= max_slot_diff {
        assert(slot_valid(after[k], now_ms, ttl_ms, current_slot, max_slot_diff));
    }
}

} // verus!
