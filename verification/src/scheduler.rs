//! Selection of the winning bid of an auction.
use std::collections::HashMap;
use vstd::prelude::*;

use crate::strmap::StrMap;
use crate::tie_breaker::{
    densities_in_range,
    densities_fit, resolve_tie, tie_outcome, TieBreakerCandidate,
};

verus! {

/// How long a bid broadcast waits for each node, in milliseconds; bids that arrive later
/// are left out.
pub const BID_WINDOW_MS: u64 = 250;

/// A request for bids on a workload.
#[derive(Debug)]
pub struct BidRequest {
    pub workload_uuid: String,
    pub cpu_request: i32,
    pub memory_request_bytes: i64,
    pub disk_request_bytes: i64,
}

/// A bid returned by a node for a workload.
#[derive(Debug)]
pub struct BidResponse {
    pub node_id: String,
    pub score: i32,
}

impl Clone for BidResponse {
    fn clone(&self) -> (r: Self)
        ensures
            r == *self,
    {
        BidResponse { node_id: self.node_id.clone(), score: self.score }
    }
}

/// The highest score among the bids, and zero when no bid is positive.
pub open spec fn max_score(bs: Seq<BidResponse>) -> int
    decreases bs.len(),
{
    if bs.len() == 0 {
        0
    } else {
        let m = max_score(bs.drop_last());
        if bs.last().score > m {
            bs.last().score as int
        } else {
            m
        }
    }
}

/// The positive bids whose score is `max`, in their order.
pub open spec fn bids_at(bs: Seq<BidResponse>, max: int) -> Seq<BidResponse>
    decreases bs.len(),
{
    if bs.len() == 0 {
        Seq::<BidResponse>::empty()
    } else {
        let r = bids_at(bs.drop_last(), max);
        if bs.last().score > 0 && bs.last().score == max {
            r.push(bs.last())
        } else {
            r
        }
    }
}

/// The valid bids that share the highest score.
pub open spec fn tied_bids(bs: Seq<BidResponse>) -> Seq<BidResponse> {
    bids_at(bs, max_score(bs))
}

/// The wear recorded for a node, and zero when none is.
pub open spec fn wear_of(wears: Map<Seq<char>, u64>, id: Seq<char>) -> u64 {
    if wears.contains_key(id) {
        wears[id]
    } else {
        0
    }
}

/// The tie-breaker candidates made from the tied bids.
pub open spec fn candidates_of(ts: Seq<BidResponse>, wears: Map<Seq<char>, u64>) -> Seq<
    TieBreakerCandidate,
> {
    Seq::new(
        ts.len(),
        |i: int| TieBreakerCandidate { node_id: ts[i].node_id, ssd_wear: wear_of(wears, ts[i].node_id@) },
    )
}

/// `k` is the first tied bid from the same node as the bid at `w`.
pub open spec fn first_of_node(ts: Seq<BidResponse>, w: int, k: int) -> bool {
    &&& 0 <= k <= w < ts.len()
    &&& ts[k].node_id@ == ts[w].node_id@
    &&& forall|j: int| 0 <= j < k ==> ts[j].node_id@ != ts[w].node_id@
}

proof fn lemma_bids_at_members(bs: Seq<BidResponse>, max: int)
    ensures
        forall|i: int|
            0 <= i < bids_at(bs, max).len() ==> (#[trigger] bids_at(bs, max)[i]).score == max
                && max > 0 && bs.contains(bids_at(bs, max)[i]),
    decreases bs.len(),
{
    if bs.len() > 0 {
        lemma_bids_at_members(bs.drop_last(), max);
        let r = bids_at(bs.drop_last(), max);
        assert forall|i: int| 0 <= i < r.len() implies bs.contains(#[trigger] r[i]) by {
            let j = choose|j: int| 0 <= j < bs.drop_last().len() && bs.drop_last()[j] == r[i];
            assert(bs[j] == r[i]);
        }
        assert(bs[bs.len() - 1] == bs.last());
    }
}

proof fn lemma_max_score(bs: Seq<BidResponse>)
    ensures
        max_score(bs) >= 0,
        forall|i: int| 0 <= i < bs.len() ==> (#[trigger] bs[i]).score <= max_score(bs),
        max_score(bs) > 0 ==> bids_at(bs, max_score(bs)).len() > 0,
    decreases bs.len(),
{
    if bs.len() > 0 {
        let init = bs.drop_last();
        lemma_max_score(init);
        assert forall|i: int| 0 <= i < bs.len() implies (#[trigger] bs[i]).score <= max_score(bs) by {
            if i < bs.len() - 1 {
                assert(bs[i] == init[i]);
            }
        }
        if max_score(bs) > 0 && bs.last().score <= max_score(init) {
            lemma_bids_at_grow(init, max_score(bs));
        }
    }
}

proof fn lemma_bids_at_grow(bs: Seq<BidResponse>, max: int)
    ensures
        forall|x: BidResponse| bids_at(bs, max).len() <= bids_at(bs.push(x), max).len(),
{
    assert forall|x: BidResponse| bids_at(bs, max).len() <= bids_at(bs.push(x), max).len() by {
        assert(bs.push(x).drop_last() =~= bs);
    }
}

/// The bids that share the highest positive score, in order.
fn collect_tied(bids: &[BidResponse]) -> (tied: Vec<BidResponse>)
    ensures
        tied@ == tied_bids(bids@),
{
    let ghost bs = bids@;
    let mut max: i32 = 0;
    let mut i: usize = 0;
    while i < bids.len()
        invariant
            bs == bids@,
            i <= bs.len(),
            max == max_score(bs.take(i as int)),
        decreases bs.len() - i,
    {
        proof {
            assert(bs.take(i + 1).drop_last() =~= bs.take(i as int));
        }
        if bids[i].score > max {
            max = bids[i].score;
        }
        i = i + 1;
    }
    proof {
        assert(bs.take(bs.len() as int) =~= bs);
    }
    let mut tied: Vec<BidResponse> = Vec::new();
    let mut i: usize = 0;
    while i < bids.len()
        invariant
            bs == bids@,
            i <= bs.len(),
            max == max_score(bs),
            tied@ == bids_at(bs.take(i as int), max as int),
        decreases bs.len() - i,
    {
        proof {
            assert(bs.take(i + 1).drop_last() =~= bs.take(i as int));
        }
        if bids[i].score > 0 && bids[i].score == max {
            tied.push(bids[i].clone());
        }
        i = i + 1;
    }
    proof {
        assert(bs.take(bs.len() as int) =~= bs);
    }
    tied
}

/// The tie-breaker candidates of tied bids, each with its node's wear.
fn tied_candidates(tied: &Vec<BidResponse>, ssd_wears: &StrMap<u64>) -> (candidates: Vec<TieBreakerCandidate>)
    requires
        ssd_wears.wf(),
    ensures
        candidates@ == candidates_of(tied@, ssd_wears@),
{
    let ghost ts = tied@;
    let mut candidates: Vec<TieBreakerCandidate> = Vec::new();
    let mut i: usize = 0;
    while i < tied.len()
        invariant
            ts == tied@,
            ssd_wears.wf(),
            i <= ts.len(),
            candidates@ == candidates_of(ts, ssd_wears@).take(i as int),
        decreases ts.len() - i,
    {
        let wear: u64 = match ssd_wears.get(tied[i].node_id.as_str()) {
            Some(w) => *w,
            None => 0,
        };
        candidates.push(TieBreakerCandidate { node_id: tied[i].node_id.clone(), ssd_wear: wear });
        proof {
            assert(candidates@ =~= candidates_of(ts, ssd_wears@).take(i + 1));
        }
        i = i + 1;
    }
    proof {
        assert(candidates@ =~= candidates_of(ts, ssd_wears@));
    }
    candidates
}

/// Whether the densities that selecting a winner among `bids` computes fit in `u32`,
/// so that `select_winner` can be called.
pub fn tie_densities_in_range(
    bids: &[BidResponse],
    ssd_wears: &StrMap<u64>,
    chassis_active_vms: &HashMap<u32, u32>,
) -> (r: bool)
    requires
        ssd_wears.wf(),
    ensures
        r == (tied_bids(bids@).len() > 1 ==> densities_fit(
            candidates_of(tied_bids(bids@), ssd_wears@),
            chassis_active_vms@,
            0,
        )),
{
    let tied = collect_tied(bids);
    if tied.len() <= 1 {
        return true;
    }
    let candidates = tied_candidates(&tied, ssd_wears);
    densities_in_range(candidates.as_slice(), chassis_active_vms)
}

/// Evaluates the collected bids and selects the optimal node.
/// Ignores bids whose score is not positive, takes the highest score, and resolves
/// ties deterministically.
pub fn select_winner(
    bids: &[BidResponse],
    ssd_wears: &StrMap<u64>,
    chassis_active_vms: &HashMap<u32, u32>,
) -> (r: Result<Option<BidResponse>, String>)
    requires
        ssd_wears.wf(),
        tied_bids(bids@).len() > 1 ==> densities_fit(
            candidates_of(tied_bids(bids@), ssd_wears@),
            chassis_active_vms@,
            0,
        ),
    ensures
        ({
            let ts = tied_bids(bids@);
            let cs = candidates_of(ts, ssd_wears@);
            match r {
                Ok(None) => ts.len() == 0,
                Ok(Some(b)) => ts.len() > 0 && (ts.len() == 1 ==> b == ts[0]) && (ts.len() > 1
                    ==> exists|w: int, k: int|
                    tie_outcome(cs, chassis_active_vms@) == Ok::<int, Seq<char>>(w)
                        && first_of_node(ts, w, k) && b == ts[k]),
                Err(e) => ts.len() > 1 && tie_outcome(cs, chassis_active_vms@) == Err::<
                    int,
                    Seq<char>,
                >(e@),
            }
        }),
        r matches Ok(Some(b)) ==> b.score > 0 && b.score == max_score(bids@) && bids@.contains(b)
            && forall|j: int| 0 <= j < bids@.len() ==> (#[trigger] bids@[j]).score <= b.score,
        r matches Ok(None) ==> forall|j: int|
            0 <= j < bids@.len() ==> (#[trigger] bids@[j]).score <= 0,
{
    let ghost bs = bids@;
    let tied = collect_tied(bids);
    let ghost max = max_score(bs);
    let ghost ts = tied@;
    proof {
        lemma_max_score(bs);
        lemma_bids_at_members(bs, max);
    }
    if tied.len() == 0 {
        return Ok(None);
    }
    if tied.len() == 1 {
        return Ok(Some(tied[0].clone()));
    }
    let candidates = tied_candidates(&tied, ssd_wears);
    let winner = match resolve_tie(candidates.as_slice(), chassis_active_vms) {
        Ok(w) => w,
        Err(e) => {
            return Err(e);
        },
    };
    let ghost w = tie_outcome(candidates@, chassis_active_vms@)->Ok_0;
    let mut k: usize = 0;
    while k < tied.len()
        invariant
            ts == tied@,
            ts == tied_bids(bids@),
            ts.len() > 1,
            candidates@ == candidates_of(ts, ssd_wears@),
            tie_outcome(candidates@, chassis_active_vms@) == Ok::<int, Seq<char>>(w),
            0 <= w < ts.len(),
            forall|j: int| 0 <= j < bids@.len() ==> (#[trigger] bids@[j]).score <= max_score(bids@),
            forall|i: int|
                0 <= i < ts.len() ==> (#[trigger] ts[i]).score == max_score(bids@) && max_score(
                    bids@,
                ) > 0 && bids@.contains(ts[i]),
            winner.node_id@ == ts[w].node_id@,
            k <= ts.len(),
            forall|j: int| 0 <= j < k ==> ts[j].node_id@ != ts[w].node_id@,
        decreases ts.len() - k,
    {
        if tied[k].node_id == winner.node_id {
            proof {
                assert(k <= w);
                assert(first_of_node(ts, w, k as int));
            }
            return Ok(Some(tied[k].clone()));
        }
        k = k + 1;
    }
    proof {
        assert(ts[w].node_id@ != ts[w].node_id@);
    }
    Err(String::from_str("Winner node ID did not match any of the tied bids"))
}

} // verus!
