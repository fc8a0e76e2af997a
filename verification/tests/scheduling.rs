use std::collections::HashMap;

use aether::aggregator::AetherAggregatorImpl;
use aether::registry::NodeRegistry;
use aether::token::TokenManager;
use aether::scheduler::{select_winner, BidResponse};
use aether::strmap::StrMap;
use aether::tie_breaker::{get_adjacent_density, parse_slot_number, resolve_tie, TieBreakerCandidate};
use aether::scheduler::tie_densities_in_range;
use aether::tie_breaker::densities_in_range;
use aether::bidder::admits_request;

fn candidate(node_id: &str, ssd_wear: u64) -> TieBreakerCandidate {
    TieBreakerCandidate { node_id: node_id.to_string(), ssd_wear }
}

#[test]
fn test_parse_slot_number_valid() {
    assert_eq!(parse_slot_number("blade-1").unwrap(), 1);
    assert_eq!(parse_slot_number("blade-01").unwrap(), 1);
    assert_eq!(parse_slot_number("blade-16").unwrap(), 16);
}

#[test]
fn test_parse_slot_number_invalid() {
    assert!(parse_slot_number("blade-0").is_err());
    assert!(parse_slot_number("blade-abc").is_err());
    assert!(parse_slot_number("node-01").is_err());
}

// SSD wear fractions 0.05, 0.10 and 0.15 are given as thousandths: 50, 100, 150.
#[test]
fn test_resolve_tie_by_adjacent_density() {
    let candidates = vec![candidate("blade-01", 100), candidate("blade-02", 100)];
    let mut chassis_active_vms = HashMap::new();
    chassis_active_vms.insert(2u32, 5u32);
    chassis_active_vms.insert(3u32, 1u32);
    let winner = resolve_tie(&candidates, &chassis_active_vms).unwrap();
    assert_eq!(winner.node_id, "blade-02");
}

#[test]
fn test_resolve_tie_by_ssd_wear() {
    let candidates = vec![candidate("blade-01", 150), candidate("blade-02", 50)];
    let chassis_active_vms = HashMap::new();
    let winner = resolve_tie(&candidates, &chassis_active_vms).unwrap();
    assert_eq!(winner.node_id, "blade-02");
}

#[test]
fn test_resolve_tie_by_slot_number_fallback() {
    let candidates = vec![candidate("blade-05", 100), candidate("blade-02", 100)];
    let chassis_active_vms = HashMap::new();
    let winner = resolve_tie(&candidates, &chassis_active_vms).unwrap();
    assert_eq!(winner.node_id, "blade-02");
}

#[test]
fn resolve_tie_without_candidates_is_an_error() {
    let chassis_active_vms = HashMap::new();
    let err = resolve_tie(&[], &chassis_active_vms).unwrap_err();
    assert_eq!(err, "No candidates provided for tie-breaker");
}

#[test]
fn resolve_tie_single_candidate_wins_without_slot() {
    let chassis_active_vms = HashMap::new();
    let winner = resolve_tie(&[candidate("storage-x", 7)], &chassis_active_vms).unwrap();
    assert_eq!(winner.node_id, "storage-x");
    assert_eq!(winner.ssd_wear, 7);
}

#[test]
fn resolve_tie_rejects_bad_node_id_among_several() {
    let chassis_active_vms = HashMap::new();
    let res = resolve_tie(&[candidate("blade-01", 1), candidate("node-x", 1)], &chassis_active_vms);
    assert!(res.is_err());
}

#[test]
fn adjacent_density_sums_neighbours() {
    let mut m = HashMap::new();
    m.insert(1u32, 4u32);
    m.insert(3u32, 2u32);
    m.insert(2u32, 100u32);
    // Slot 2's neighbours are 1 and 3; its own VMs do not count.
    assert_eq!(get_adjacent_density(2, &m), 6);
    // Slot 1 has only slot 2 as a neighbour.
    assert_eq!(get_adjacent_density(1, &m), 100);
}

#[test]
fn select_winner_takes_highest_positive_score() {
    let bids = vec![
        BidResponse { node_id: "blade-01".to_string(), score: 10 },
        BidResponse { node_id: "blade-02".to_string(), score: 900 },
        BidResponse { node_id: "blade-03".to_string(), score: -1 },
    ];
    let wears: StrMap<u64> = StrMap::new();
    let winner = select_winner(&bids, &wears, &HashMap::new()).unwrap().unwrap();
    assert_eq!(winner.node_id, "blade-02");
    assert_eq!(winner.score, 900);
}

#[test]
fn select_winner_without_positive_bids_is_none() {
    let bids = vec![
        BidResponse { node_id: "blade-01".to_string(), score: 0 },
        BidResponse { node_id: "blade-02".to_string(), score: -1 },
    ];
    let wears: StrMap<u64> = StrMap::new();
    assert!(select_winner(&bids, &wears, &HashMap::new()).unwrap().is_none());
}

#[test]
fn select_winner_breaks_ties_by_wear() {
    let bids = vec![
        BidResponse { node_id: "blade-04".to_string(), score: 500 },
        BidResponse { node_id: "blade-06".to_string(), score: 500 },
    ];
    let mut wears: StrMap<u64> = StrMap::new();
    wears.insert("blade-04".to_string(), 300);
    wears.insert("blade-06".to_string(), 100);
    let winner = select_winner(&bids, &wears, &HashMap::new()).unwrap().unwrap();
    assert_eq!(winner.node_id, "blade-06");
}

const GRPC: &str = "https://127.0.0.1:50052";

#[test]
fn test_node_registration_and_renewal() {
    let mut registry = NodeRegistry::new();
    let node_id = "blade-01".to_string();
    let token = "token_123".to_string();
    registry.register(node_id.clone(), GRPC.to_string(), "COMPUTE".to_string(), token.clone());
    let active = registry.get_active_nodes();
    assert_eq!(active.len(), 1);
    assert_eq!(active[0].node_id, node_id);
    assert!(registry.renew_heartbeat(&node_id, &token).is_ok());
    assert!(registry.renew_heartbeat(&node_id, "wrong_token").is_err());
    assert!(registry.renew_heartbeat("blade-02", &token).is_err());
}

#[test]
fn test_node_pruning() {
    let mut registry = NodeRegistry::new();
    let node_id = "blade-01".to_string();
    registry.register(node_id.clone(), GRPC.to_string(), "COMPUTE".to_string(), "token_123".to_string());
    // A zero threshold prunes once any time has passed since registration.
    let start = std::time::Instant::now();
    while start.elapsed() < std::time::Duration::from_millis(5) {}
    let pruned = registry.prune_inactive_nodes(0);
    assert_eq!(pruned.len(), 1);
    assert_eq!(pruned[0], node_id);
    assert_eq!(registry.get_active_nodes().len(), 0);
}

#[test]
fn test_node_deregistration() {
    let mut registry = NodeRegistry::new();
    let node_id = "blade-01".to_string();
    registry.register(node_id.clone(), GRPC.to_string(), "COMPUTE".to_string(), "token_123".to_string());
    assert_eq!(registry.get_active_nodes().len(), 1);
    let removed = registry.deregister(&node_id);
    assert!(removed.is_some());
    assert_eq!(removed.unwrap().node_id, node_id);
    assert_eq!(registry.get_active_nodes().len(), 0);
    assert!(registry.deregister("blade-02").is_none());
}

#[test]
fn renew_error_messages() {
    let mut registry = NodeRegistry::new();
    registry.register_at("blade-01".to_string(), GRPC.to_string(), "COMPUTE".to_string(), "tok".to_string(), 1000);
    assert_eq!(registry.renew_heartbeat_at("blade-01", "bad", 2000).unwrap_err(), "Token verification failed");
    assert_eq!(registry.renew_heartbeat_at("blade-09", "tok", 2000).unwrap_err(), "Node is not registered");
    assert!(registry.renew_heartbeat_at("blade-01", "tok", 2000).is_ok());
}

#[test]
fn renewed_node_survives_pruning_within_threshold() {
    let mut registry = NodeRegistry::new();
    registry.register_at("blade-01".to_string(), GRPC.to_string(), "COMPUTE".to_string(), "a".to_string(), 1000);
    registry.register_at("blade-02".to_string(), GRPC.to_string(), "COMPUTE".to_string(), "b".to_string(), 1000);
    registry.renew_heartbeat_at("blade-02", "b", 5000).unwrap();
    let pruned = registry.prune_inactive_nodes_at(3000, 7000);
    assert_eq!(pruned, vec!["blade-01".to_string()]);
    let active = registry.get_active_nodes();
    assert_eq!(active.len(), 1);
    assert_eq!(active[0].node_id, "blade-02");
    assert_eq!(active[0].last_seen_heartbeat, 5000);
}

#[test]
fn density_bounds_are_checked() {
    let mut m = HashMap::new();
    m.insert(1u32, u32::MAX);
    m.insert(3u32, 1u32);
    assert!(!densities_in_range(&[candidate("blade-02", 0)], &m));
    assert!(densities_in_range(&[candidate("blade-04", 0)], &m));
    // A candidate without a slot stops the check, as it stops the tie-breaker.
    assert!(densities_in_range(&[candidate("node-x", 0), candidate("blade-02", 0)], &m));
    let bids = vec![
        BidResponse { node_id: "blade-02".to_string(), score: 7 },
        BidResponse { node_id: "blade-05".to_string(), score: 7 },
    ];
    let wears: StrMap<u64> = StrMap::new();
    assert!(!tie_densities_in_range(&bids, &wears, &m));
    let one = vec![BidResponse { node_id: "blade-02".to_string(), score: 7 }];
    assert!(tie_densities_in_range(&one, &wears, &m));
}

#[test]
fn capacity_precheck_of_bids() {
    const GIB: i64 = 1024 * 1024 * 1024;
    let mem_available = 5 * GIB as u64;
    let disk_available = 50 * GIB as u64;
    // Requests that fit pass; 8 GiB of memory or 60 GiB of disk do not.
    assert!(admits_request(2, 2 * GIB, 10 * GIB, mem_available, disk_available, 4));
    assert!(!admits_request(2, 8 * GIB, 10 * GIB, mem_available, disk_available, 4));
    assert!(!admits_request(2, GIB, 60 * GIB, mem_available, disk_available, 4));
    assert!(!admits_request(0, GIB, GIB, mem_available, disk_available, 4));
    assert!(!admits_request(2, -1, GIB, mem_available, disk_available, 4));
    assert!(!admits_request(2, GIB, GIB, mem_available, disk_available, 0));
}

fn bids_850() -> Vec<BidResponse> {
    ["blade-01", "blade-02", "blade-03"]
        .iter()
        .map(|n| BidResponse { node_id: n.to_string(), score: 850 })
        .collect()
}

fn wears(entries: &[(&str, u64)]) -> StrMap<u64> {
    let mut m: StrMap<u64> = StrMap::new();
    for (k, v) in entries {
        m.insert(k.to_string(), *v);
    }
    m
}

// Wear fractions are given as thousandths (0.05 is 50).
#[test]
fn test_deterministic_scheduling_selection() {
    let bids = bids_850();
    assert_eq!(bids.len(), 3);
    let winner = select_winner(&bids, &wears(&[("blade-01", 150), ("blade-02", 50), ("blade-03", 100)]), &HashMap::new())
        .unwrap()
        .unwrap();
    assert_eq!(winner.node_id, "blade-02");
    let mut chassis_s2 = HashMap::new();
    chassis_s2.insert(2u32, 10u32);
    let winner_s2 =
        select_winner(&bids, &wears(&[("blade-01", 50), ("blade-02", 300), ("blade-03", 100)]), &chassis_s2)
            .unwrap()
            .unwrap();
    assert_eq!(winner_s2.node_id, "blade-02");
    let winner_s3 =
        select_winner(&bids, &wears(&[("blade-01", 500), ("blade-02", 100), ("blade-03", 100)]), &HashMap::new())
            .unwrap()
            .unwrap();
    assert_eq!(winner_s3.node_id, "blade-02");
}

#[test]
fn test_scheduler_empty_registry() {
    let registry = NodeRegistry::new();
    assert_eq!(registry.get_active_nodes().len(), 0);
    let no_bids: Vec<BidResponse> = Vec::new();
    assert!(select_winner(&no_bids, &StrMap::new(), &HashMap::new()).unwrap().is_none());
}

// Seconds for tokens, milliseconds for leases; the pruner runs with a 15 s threshold.
#[test]
fn test_heartbeat_timeout_pruning() {
    let mut agg = AetherAggregatorImpl::new(
        NodeRegistry::new(),
        TokenManager::new(b"supersecretkeyforauthsupersecretkeyforauth".to_vec()),
    );
    let token = agg.register_node_at(
        "test-node-1".to_string(),
        "https://127.0.0.1:50080".to_string(),
        "COMPUTE".to_string(),
        1_000,
        1_000_000,
    );
    assert_eq!(agg.registry.get_active_nodes().len(), 1);
    agg.registry.prune_inactive_nodes_at(15_000, 1_003_000);
    assert!(agg.send_heartbeat_at("test-node-1", &token, 1_006, 1_006_000).is_ok());
    agg.registry.prune_inactive_nodes_at(15_000, 1_006_000);
    assert_eq!(agg.registry.get_active_nodes().len(), 1);
    agg.registry.prune_inactive_nodes_at(15_000, 1_018_000);
    assert_eq!(agg.registry.get_active_nodes().len(), 1);
    agg.registry.prune_inactive_nodes_at(15_000, 1_021_000);
    assert_eq!(agg.registry.get_active_nodes().len(), 1);
    agg.registry.prune_inactive_nodes_at(15_000, 1_022_000);
    assert_eq!(agg.registry.get_active_nodes().len(), 0);
}
