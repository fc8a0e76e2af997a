//! Deterministic resolution of ties between equally scored bids.
use std::collections::HashMap;
use vstd::prelude::*;

use crate::text::{
    chars_of, chars_starts_with, extend_chars, extend_str, int_error_message, int_error_string,
    parse_unsigned, parse_unsigned_chars, starts_with, string_of,
};

verus! {

broadcast use vstd::std_specs::hash::group_hash_axioms;

/// The node-ID prefix of a blade.
pub open spec fn blade_prefix() -> Seq<char> {
    "blade-"@
}

/// What `parse_slot_number` gives for a node ID.
pub open spec fn spec_parse_slot_number(id: Seq<char>) -> Result<u32, Seq<char>> {
    if !starts_with(id, blade_prefix()) {
        Err("Invalid node ID prefix: "@ + id)
    } else {
        match parse_unsigned(id.skip(blade_prefix().len() as int), u32::MAX as nat) {
            Err(k) => Err("Failed to parse slot number from '"@ + id + "': "@ + int_error_message(k)),
            Ok(v) => if v == 0 {
                Err("Invalid slot number 0 in node ID: "@ + id)
            } else {
                Ok(v as u32)
            },
        }
    }
}

/// Helper to parse the slot number from the node ID (format: "blade-XX").
pub fn parse_slot_number(node_id: &str) -> (r: Result<u32, String>)
    ensures
        match r {
            Ok(v) => spec_parse_slot_number(node_id@) == Ok::<u32, Seq<char>>(v),
            Err(e) => spec_parse_slot_number(node_id@) == Err::<u32, Seq<char>>(e@),
        },
{
    let id = chars_of(node_id);
    let prefix = chars_of("blade-");
    if !chars_starts_with(&id, &prefix) {
        let mut msg = chars_of("Invalid node ID prefix: ");
        extend_chars(&mut msg, &id);
        return Err(string_of(&msg));
    }
    let mut num: Vec<char> = Vec::new();
    let mut i: usize = prefix.len();
    while i < id.len()
        invariant
            prefix.len() <= i <= id.len(),
            num@ == id@.subrange(prefix@.len() as int, i as int),
        decreases id.len() - i,
    {
        num.push(id[i]);
        proof {
            assert(id@.subrange(prefix@.len() as int, i as int).push(id@[i as int])
                =~= id@.subrange(prefix@.len() as int, i + 1));
        }
        i = i + 1;
    }
    proof {
        assert(num@ =~= id@.skip(prefix@.len() as int));
    }
    match parse_unsigned_chars(&num, 4294967295u64) {
        Err(k) => {
            let mut msg = chars_of("Failed to parse slot number from '");
            extend_chars(&mut msg, &id);
            extend_str(&mut msg, "': ");
            let ks = int_error_string(k);
            extend_str(&mut msg, ks.as_str());
            Err(string_of(&msg))
        },
        Ok(v) => {
            if v == 0 {
                let mut msg = chars_of("Invalid slot number 0 in node ID: ");
                extend_chars(&mut msg, &id);
                Err(string_of(&msg))
            } else {
                Ok(v as u32)
            }
        },
    }
}

/// Active VMs in the slots next to `slot`, as a number.
pub open spec fn spec_adjacent_density(slot: u32, m: Map<u32, u32>) -> int {
    let prev: int = if slot > 1 && m.contains_key((slot - 1) as u32) {
        m[(slot - 1) as u32] as int
    } else {
        0
    };
    let next: int = if m.contains_key((slot + 1) as u32) {
        m[(slot + 1) as u32] as int
    } else {
        0
    };
    prev + next
}

/// The density of a slot can be computed without overflow.
pub open spec fn density_fits(slot: u32, m: Map<u32, u32>) -> bool {
    slot < u32::MAX && spec_adjacent_density(slot, m) <= u32::MAX
}

/// Helper to compute the total active VMs in adjacent slots.
pub fn get_adjacent_density(slot: u32, chassis_active_vms: &HashMap<u32, u32>) -> (d: u32)
    requires
        density_fits(slot, chassis_active_vms@),
    ensures
        d == spec_adjacent_density(slot, chassis_active_vms@),
{
    let prev: u32 = if slot > 1 {
        match chassis_active_vms.get(&(slot - 1)) {
            Some(v) => *v,
            None => 0,
        }
    } else {
        0
    };
    let next: u32 = match chassis_active_vms.get(&(slot + 1)) {
        Some(v) => *v,
        None => 0,
    };
    prev + next
}

/// Information needed for a candidate node in tie-breaking resolution.
///
/// `ssd_wear` is the SSD wear of the node as an integer that orders as the measured
/// wear fraction does (lower is less worn).
#[derive(Debug)]
pub struct TieBreakerCandidate {
    pub node_id: String,
    pub ssd_wear: u64,
}

impl Clone for TieBreakerCandidate {
    fn clone(&self) -> (r: Self)
        ensures
            r == *self,
    {
        TieBreakerCandidate { node_id: self.node_id.clone(), ssd_wear: self.ssd_wear }
    }
}

/// The order key of a candidate: adjacent density, then wear, then slot (all lower is better).
pub open spec fn key_less(a: (int, int, int), b: (int, int, int)) -> bool {
    ||| a.0 < b.0
    ||| (a.0 == b.0 && a.1 < b.1)
    ||| (a.0 == b.0 && a.1 == b.1 && a.2 < b.2)
}

/// The slot of a candidate whose node ID parses (meaningful only then).
pub open spec fn cand_slot(c: TieBreakerCandidate) -> u32 {
    match spec_parse_slot_number(c.node_id@) {
        Ok(v) => v,
        Err(_) => 0,
    }
}

/// The order key of a candidate.
pub open spec fn cand_key(c: TieBreakerCandidate, m: Map<u32, u32>) -> (int, int, int) {
    (spec_adjacent_density(cand_slot(c), m), c.ssd_wear as int, cand_slot(c) as int)
}

/// The first refusal among the node IDs from position `i` on.
pub open spec fn first_slot_error(cs: Seq<TieBreakerCandidate>, i: int) -> Option<Seq<char>>
    decreases cs.len() - i,
{
    if i < 0 || i >= cs.len() {
        None
    } else {
        match spec_parse_slot_number(cs[i].node_id@) {
            Err(e) => Some(e),
            Ok(_) => first_slot_error(cs, i + 1),
        }
    }
}

/// Every density computed before the first refused node ID fits in `u32`.
pub open spec fn densities_fit(cs: Seq<TieBreakerCandidate>, m: Map<u32, u32>, i: int) -> bool
    decreases cs.len() - i,
{
    if i < 0 || i >= cs.len() {
        true
    } else {
        match spec_parse_slot_number(cs[i].node_id@) {
            Err(_) => true,
            Ok(v) => density_fits(v, m) && densities_fit(cs, m, i + 1),
        }
    }
}

/// Whether the densities that resolving a tie among `candidates` computes fit in `u32`.
pub fn densities_in_range(candidates: &[TieBreakerCandidate], chassis_active_vms: &HashMap<u32, u32>) -> (r:
    bool)
    ensures
        r == densities_fit(candidates@, chassis_active_vms@, 0),
{
    let ghost cs = candidates@;
    let ghost m = chassis_active_vms@;
    let mut i: usize = 0;
    while i < candidates.len()
        invariant
            cs == candidates@,
            m == chassis_active_vms@,
            i <= cs.len(),
            densities_fit(cs, m, 0) == densities_fit(cs, m, i as int),
        decreases cs.len() - i,
    {
        match parse_slot_number(candidates[i].node_id.as_str()) {
            Err(_) => {
                return true;
            },
            Ok(slot) => {
                if slot == u32::MAX {
                    return false;
                }
                let prev: u64 = if slot > 1 {
                    match chassis_active_vms.get(&(slot - 1)) {
                        Some(v) => *v as u64,
                        None => 0,
                    }
                } else {
                    0
                };
                let next: u64 = match chassis_active_vms.get(&(slot + 1)) {
                    Some(v) => *v as u64,
                    None => 0,
                };
                if prev + next > u32::MAX as u64 {
                    return false;
                }
            },
        }
        i = i + 1;
    }
    true
}

/// Candidate `w` has the least key, and no earlier candidate has the same key.
pub open spec fn is_first_best(cs: Seq<TieBreakerCandidate>, m: Map<u32, u32>, w: int) -> bool {
    &&& 0 <= w < cs.len()
    &&& forall|j: int| 0 <= j < cs.len() ==> !key_less(cand_key(cs[j], m), cand_key(cs[w], m))
    &&& forall|j: int|
        0 <= j < w ==> key_less(cand_key(cs[w], m), cand_key(#[trigger] cs[j], m))
}

/// The message for an empty candidate list.
pub open spec fn no_candidates_message() -> Seq<char> {
    "No candidates provided for tie-breaker"@
}

/// What `resolve_tie` decides: the position of the winner, or the refusal.
pub open spec fn tie_outcome(cs: Seq<TieBreakerCandidate>, m: Map<u32, u32>) -> Result<
    int,
    Seq<char>,
> {
    if cs.len() == 0 {
        Err(no_candidates_message())
    } else if cs.len() == 1 {
        Ok(0)
    } else {
        match first_slot_error(cs, 0) {
            Some(e) => Err(e),
            None => Ok(choose|w: int| is_first_best(cs, m, w)),
        }
    }
}

/// Resolves a tie among multiple candidates deterministically.
/// Returns the winning candidate: the first one with the least adjacent slot density,
/// then SSD wear, then slot number.
pub fn resolve_tie(
    candidates: &[TieBreakerCandidate],
    chassis_active_vms: &HashMap<u32, u32>,
) -> (r: Result<TieBreakerCandidate, String>)
    requires
        candidates@.len() > 1 ==> densities_fit(candidates@, chassis_active_vms@, 0),
    ensures
        match (r, tie_outcome(candidates@, chassis_active_vms@)) {
            (Ok(c), Ok(w)) => 0 <= w < candidates@.len() && c == candidates@[w],
            (Err(e), Err(msg)) => e@ == msg,
            _ => false,
        },
        r is Ok && candidates@.len() > 1 ==> exists|w: int|
            is_first_best(candidates@, chassis_active_vms@, w),
{
    let ghost cs = candidates@;
    let ghost m = chassis_active_vms@;
    if candidates.len() == 0 {
        return Err(String::from_str("No candidates provided for tie-breaker"));
    }
    if candidates.len() == 1 {
        return Ok(candidates[0].clone());
    }
    let mut best: usize = 0;
    let mut best_key: (u32, u64, u32) = (0, 0, 0);
    let mut i: usize = 0;
    while i < candidates.len()
        invariant
            cs == candidates@,
            m == chassis_active_vms@,
            cs.len() > 1,
            i <= cs.len(),
            first_slot_error(cs, 0) == first_slot_error(cs, i as int),
            densities_fit(cs, m, 0) ==> densities_fit(cs, m, i as int),
            densities_fit(cs, m, 0),
            forall|j: int| 0 <= j < i ==> spec_parse_slot_number(#[trigger] cs[j].node_id@) is Ok,
            i > 0 ==> best < i,
            i > 0 ==> (best_key.0 as int, best_key.1 as int, best_key.2 as int) == cand_key(
                cs[best as int],
                m,
            ),
            i > 0 ==> forall|j: int|
                0 <= j < i ==> !key_less(cand_key(#[trigger] cs[j], m), cand_key(cs[best as int], m)),
            i > 0 ==> forall|j: int|
                0 <= j < best ==> key_less(cand_key(cs[best as int], m), cand_key(#[trigger] cs[j], m)),
        decreases cs.len() - i,
    {
        let slot = match parse_slot_number(candidates[i].node_id.as_str()) {
            Ok(s) => s,
            Err(e) => {
                return Err(e);
            },
        };
        proof {
            assert(cand_slot(cs[i as int]) == slot);
        }
        let density = get_adjacent_density(slot, chassis_active_vms);
        let key = (density, candidates[i].ssd_wear, slot);
        let better = if i == 0 {
            true
        } else {
            key.0 < best_key.0 || (key.0 == best_key.0 && key.1 < best_key.1) || (key.0
                == best_key.0 && key.1 == best_key.1 && key.2 < best_key.2)
        };
        if better {
            best = i;
            best_key = key;
        }
        i = i + 1;
    }
    proof {
        assert(is_first_best(cs, m, best as int));
        assert(first_slot_error(cs, cs.len() as int) is None);
    }
    Ok(candidates[best].clone())
}

/// Every blade slot reads back from its node ID: `blade-<n>` has slot `n`, for every
/// slot from 1 on.
pub proof fn lemma_slot_number_round_trip(n: u32)
    requires
        n >= 1,
    ensures
        spec_parse_slot_number("blade-"@ + crate::text::decimal(n as nat)) == Ok::<u32, Seq<char>>(n),
{
    reveal_strlit("blade-");
    let id = "blade-"@ + crate::text::decimal(n as nat);
    assert(id.take(6) =~= "blade-"@);
    assert(id.skip(6) =~= crate::text::decimal(n as nat));
    crate::text::lemma_parse_decimal(n as nat, u32::MAX as nat);
}

} // verus!
