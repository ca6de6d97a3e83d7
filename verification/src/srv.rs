//! Choice of one record among the service records of a name: the records of
//! the lowest priority are the candidates, and a random draw picks one of
//! them in proportion to its weight.

use rand::rngs::ThreadRng;
use rand::seq::SliceRandom;
use rand::Rng;
use vstd::prelude::*;

verus! {

/// A service record: where a service of a name is offered.
#[derive(Debug, Clone)]
pub struct SrvRecord {
    /// Records of a lower priority are used first.
    pub priority: u16,
    /// The share of the draws that the record gets among those of its priority.
    pub weight: u16,
    pub port: u16,
    /// The host that offers the service.
    pub target: String,
}

/// A [`SrvRecord`] with its target as a sequence of characters.
pub struct SrvRecordView {
    pub priority: u16,
    pub weight: u16,
    pub port: u16,
    pub target: Seq<char>,
}

impl View for SrvRecord {
    type V = SrvRecordView;

    open spec fn view(&self) -> SrvRecordView {
        SrvRecordView {
            priority: self.priority,
            weight: self.weight,
            port: self.port,
            target: self.target@,
        }
    }
}

/// The views of `records`, in their order.
pub open spec fn record_views(records: Seq<SrvRecord>) -> Seq<SrvRecordView> {
    Seq::new(records.len(), |i: int| records[i]@)
}

/// Whether record `i` is a candidate: no record has a lower priority.
pub open spec fn is_candidate(records: Seq<SrvRecordView>, i: int) -> bool {
    &&& 0 <= i < records.len()
    &&& forall|j: int| 0 <= j < records.len() ==> records[i].priority <= (#[trigger] records[j]).priority
}

/// The weight that record `i` brings to the draw: its own where it is a
/// candidate, none where it is not.
pub open spec fn candidate_weight(records: Seq<SrvRecordView>, i: int) -> nat {
    if is_candidate(records, i) {
        records[i].weight as nat
    } else {
        0
    }
}

/// The weights of the candidates among the first `k` records, added up.
pub open spec fn weight_before(records: Seq<SrvRecordView>, k: int) -> nat
    decreases k,
{
    if k <= 0 {
        0
    } else {
        weight_before(records, k - 1) + candidate_weight(records, k - 1)
    }
}

/// The weights of all candidates, added up.
pub open spec fn total_weight(records: Seq<SrvRecordView>) -> nat {
    weight_before(records, records.len() as int)
}

/// Whether the draw `draw` falls to record `i`: the candidates stand in a
/// row, each as wide as its weight, and `draw` lies inside the span of `i`.
pub open spec fn is_weighted_pick(records: Seq<SrvRecordView>, draw: nat, i: int) -> bool {
    &&& is_candidate(records, i)
    &&& weight_before(records, i) <= draw < weight_before(records, i + 1)
}

/// Whether record `i` may come out of a choice: it is a candidate, and where
/// any candidate has a weight, it has one.
pub open spec fn is_eligible(records: Seq<SrvRecordView>, i: int) -> bool {
    &&& is_candidate(records, i)
    &&& total_weight(records) > 0 ==> records[i].weight > 0
}

/// The row of the candidates only grows from left to right.
pub proof fn lemma_weight_before_grows(records: Seq<SrvRecordView>, i: int, j: int)
    requires
        i <= j,
    ensures
        weight_before(records, i) <= weight_before(records, j),
    decreases j - i,
{
    if i < j {
        lemma_weight_before_grows(records, i, j - 1);
    }
}

/// A draw falls to one record at most.
pub proof fn lemma_weighted_pick_unique(records: Seq<SrvRecordView>, draw: nat, i: int, j: int)
    requires
        is_weighted_pick(records, draw, i),
        is_weighted_pick(records, draw, j),
    ensures
        i == j,
{
    if i < j {
        lemma_weight_before_grows(records, i + 1, j);
    } else if j < i {
        lemma_weight_before_grows(records, j + 1, i);
    }
}

/// A record that a draw below the total falls to is a candidate with a
/// weight of its own: a record of a higher priority never wins, and a
/// candidate without weight never wins against one with weight.
pub proof fn lemma_weighted_pick_is_eligible(records: Seq<SrvRecordView>, draw: nat, i: int)
    requires
        is_weighted_pick(records, draw, i),
    ensures
        is_eligible(records, i),
        records[i].weight > 0,
        forall|j: int| 0 <= j < records.len() ==> records[i].priority <= (#[trigger] records[j]).priority,
{
}

/// The generator of random numbers that belongs to the running thread.
#[verifier::external_type_specification]
#[verifier::external_body]
pub struct ExThreadRng(ThreadRng);

/// `rand::thread_rng` hands out the generator of the running thread.
/// Nothing is claimed of it.
pub assume_specification[ rand::thread_rng ]() -> (rng: ThreadRng)
;

/// Calls `Rng::gen_range` with the range `0..bound`: the number drawn lies
/// in that range. Nothing else is known of it, and two calls may differ.
#[verifier::external_body]
fn draw_below(rng: &mut ThreadRng, bound: u128) -> (draw: u128)
    requires
        bound > 0,
    ensures
        draw < bound,
{
    rng.gen_range(0..bound)
}

/// Calls `SliceRandom::shuffle`: the items are the same after the call, in
/// an order that is not known.
#[verifier::external_body]
fn shuffle(items: &mut Vec<usize>, rng: &mut ThreadRng)
    ensures
        final(items)@.to_multiset() == old(items)@.to_multiset(),
{
    items.shuffle(rng)
}

/// The lowest priority among the records.
fn lowest_priority(records: &Vec<SrvRecord>) -> (lowest: u16)
    requires
        records.len() > 0,
    ensures
        forall|j: int| 0 <= j < records.len() ==> lowest <= (#[trigger] records[j]).priority,
        exists|j: int| 0 <= j < records.len() && (#[trigger] records[j]).priority == lowest,
{
    let mut lowest: u16 = records[0].priority;
    let ghost mut at: int = 0;
    let mut i: usize = 1;
    while i < records.len()
        invariant
            1 <= i <= records.len(),
            0 <= at < i,
            records[at].priority == lowest,
            forall|j: int| 0 <= j < i ==> lowest <= (#[trigger] records[j]).priority,
        decreases records.len() - i,
    {
        if records[i].priority < lowest {
            lowest = records[i].priority;
            proof {
                at = i as int;
            }
        }
        i += 1;
    }
    lowest
}

/// With the lowest priority known, the candidates are the records that have it.
proof fn lemma_candidates_have_lowest(records: Seq<SrvRecord>, lowest: u16, i: int)
    requires
        forall|j: int| 0 <= j < records.len() ==> lowest <= (#[trigger] records[j]).priority,
        exists|j: int| 0 <= j < records.len() && (#[trigger] records[j]).priority == lowest,
        0 <= i < records.len(),
    ensures
        is_candidate(record_views(records), i) <==> records[i].priority == lowest,
{
    let views = record_views(records);
    let at = choose|j: int| 0 <= j < records.len() && (#[trigger] records[j]).priority == lowest;
    assert(views[at].priority == lowest);
    if records[i].priority == lowest {
        assert forall|j: int| 0 <= j < views.len() implies views[i].priority <= (
        #[trigger] views[j]).priority by {
            assert(views[j].priority == records[j].priority);
        }
    }
}

/// The weights of the candidates, added up.
fn sum_weights(records: &Vec<SrvRecord>, lowest: u16) -> (total: u128)
    requires
        forall|j: int| 0 <= j < records.len() ==> lowest <= (#[trigger] records[j]).priority,
        exists|j: int| 0 <= j < records.len() && (#[trigger] records[j]).priority == lowest,
    ensures
        total == total_weight(record_views(records@)),
{
    let ghost views = record_views(records@);
    let mut total: u128 = 0;
    let mut i: usize = 0;
    while i < records.len()
        invariant
            i <= records.len(),
            views == record_views(records@),
            total == weight_before(views, i as int),
            total <= i * 0xffff,
            forall|j: int| 0 <= j < records.len() ==> lowest <= (#[trigger] records[j]).priority,
            exists|j: int| 0 <= j < records.len() && (#[trigger] records[j]).priority == lowest,
        decreases records.len() - i,
    {
        proof {
            lemma_candidates_have_lowest(records@, lowest, i as int);
        }
        if records[i].priority == lowest {
            total += records[i].weight as u128;
        }
        i += 1;
    }
    total
}

/// The record that the draw `draw` falls to: the candidates stand in the
/// order of the records, each as wide as its weight.
pub fn pick_weighted(records: &Vec<SrvRecord>, draw: u128) -> (chosen: usize)
    requires
        draw < total_weight(record_views(records@)),
    ensures
        is_weighted_pick(record_views(records@), draw as nat, chosen as int),
{
    let ghost views = record_views(records@);
    let lowest = lowest_priority(records);
    let mut before: u128 = 0;
    let mut i: usize = 0;
    while i < records.len()
        invariant
            i <= records.len(),
            views == record_views(records@),
            before == weight_before(views, i as int),
            before <= draw,
            draw < total_weight(views),
            forall|j: int| 0 <= j < records.len() ==> lowest <= (#[trigger] records[j]).priority,
            exists|j: int| 0 <= j < records.len() && (#[trigger] records[j]).priority == lowest,
        decreases records.len() - i,
    {
        proof {
            lemma_candidates_have_lowest(records@, lowest, i as int);
        }
        if records[i].priority == lowest {
            let weight = records[i].weight as u128;
            if draw - before < weight {
                return i;
            }
            before += weight;
        }
        i += 1;
    }
    proof {
        assert(false);
    }
    0
}

/// The positions of the candidates, in the order of the records.
fn candidate_positions(records: &Vec<SrvRecord>, lowest: u16) -> (positions: Vec<usize>)
    requires
        forall|j: int| 0 <= j < records.len() ==> lowest <= (#[trigger] records[j]).priority,
        exists|j: int| 0 <= j < records.len() && (#[trigger] records[j]).priority == lowest,
    ensures
        positions.len() > 0,
        forall|k: int|
            0 <= k < positions.len() ==> is_candidate(
                record_views(records@),
                (#[trigger] positions[k]) as int,
            ),
        forall|i: int|
            #[trigger] is_candidate(record_views(records@), i) ==> positions@.contains(i as usize),
        forall|a: int, b: int|
            0 <= a < b < positions.len() ==> (#[trigger] positions[a]) < (#[trigger] positions[b]),
{
    let ghost views = record_views(records@);
    let mut positions: Vec<usize> = Vec::new();
    let mut i: usize = 0;
    while i < records.len()
        invariant
            i <= records.len(),
            views == record_views(records@),
            forall|k: int|
                0 <= k < positions.len() ==> (#[trigger] positions[k]) < i && is_candidate(
                    views,
                    positions[k] as int,
                ),
            forall|j: int|
                0 <= j < i && #[trigger] is_candidate(views, j) ==> positions@.contains(j as usize),
            forall|a: int, b: int|
                0 <= a < b < positions.len() ==> (#[trigger] positions[a]) < (
                #[trigger] positions[b]),
            forall|j: int| 0 <= j < records.len() ==> lowest <= (#[trigger] records[j]).priority,
            exists|j: int| 0 <= j < records.len() && (#[trigger] records[j]).priority == lowest,
        decreases records.len() - i,
    {
        proof {
            lemma_candidates_have_lowest(records@, lowest, i as int);
        }
        let ghost before = positions@;
        if records[i].priority == lowest {
            positions.push(i);
            assert(positions@[before.len() as int] == i);
        }
        proof {
            assert forall|j: int|
                0 <= j < i + 1 && #[trigger] is_candidate(views, j) implies positions@.contains(
                j as usize,
            ) by {
                if j < i {
                    assert(before.contains(j as usize));
                    let k = choose|k: int| 0 <= k < before.len() && before[k] == j as usize;
                    assert(positions@[k] == j as usize);
                } else {
                    assert(positions@[before.len() as int] == j as usize);
                }
            }
        }
        i += 1;
    }
    proof {
        let at = choose|j: int| 0 <= j < records.len() && (#[trigger] records[j]).priority == lowest;
        lemma_candidates_have_lowest(records@, lowest, at);
        assert(is_candidate(views, at));
        assert(positions@.contains(at as usize));
    }
    positions
}

/// Chooses one of the service records. The records of the lowest priority
/// are the candidates. Where none of them has a weight, each of them may
/// come out; otherwise a number is drawn below the sum of their weights, and
/// the candidate that the draw falls to comes out.
pub fn pick_srv(records: &Vec<SrvRecord>) -> (chosen: Option<usize>)
    ensures
        records.len() == 0 <==> chosen is None,
        chosen matches Some(i) ==> is_eligible(record_views(records@), i as int),
{
    if records.len() == 0 {
        return None;
    }
    let ghost views = record_views(records@);
    let lowest = lowest_priority(records);
    let total = sum_weights(records, lowest);
    let mut rng = rand::thread_rng();
    if total == 0 {
        let mut positions = candidate_positions(records, lowest);
        let ghost before = positions@;
        shuffle(&mut positions, &mut rng);
        proof {
            before.to_multiset_ensures();
            positions@.to_multiset_ensures();
            assert(positions@.len() > 0);
            let first = positions@[0];
            assert(positions@.contains(first));
            assert(positions@.to_multiset().count(first) > 0);
            assert(before.to_multiset().count(first) > 0);
            assert(before.contains(first));
            let k = choose|k: int| 0 <= k < before.len() && before[k] == positions@[0];
            assert(is_candidate(views, before[k] as int));
        }
        Some(positions[0])
    } else {
        let draw = draw_below(&mut rng, total);
        let chosen = pick_weighted(records, draw);
        proof {
            lemma_weighted_pick_is_eligible(views, draw as nat, chosen as int);
        }
        Some(chosen)
    }
}

} // verus!
