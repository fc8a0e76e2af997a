use std::time::{SystemTime, UNIX_EPOCH};

use aether::aggregator::{AetherAggregatorImpl, AggregatorState, HeartbeatError};
use aether::migration::socket::{
    validate_attestation_line, validate_attestation_token, validate_attestation_token_at, MigrationSocketManager,
};
use aether::registry::NodeRegistry;
use aether::token::TokenManager;
use hmac::digest::KeyInit;
use hmac::{Hmac, Mac};

const SECRET: &[u8] = b"supersecretkeyforauthsupersecretkeyforauth";

fn sign(secret: &[u8], payload: &str) -> String {
    let mut mac = <Hmac<sha2::Sha256> as KeyInit>::new_from_slice(secret).unwrap();
    mac.update(payload.as_bytes());
    hex::encode(mac.finalize().into_bytes())
}

#[test]
fn test_token_lifecycle() {
    let mut manager = TokenManager::new(SECRET.to_vec());
    let node_id = "blade-01";
    let token = manager.generate_token(node_id).unwrap();
    assert!(manager.validate_token(&token, node_id).is_ok());
    assert_eq!(manager.validate_token(&token, node_id).unwrap_err(), "Replayed token detected");
}

#[test]
fn test_token_mismatched_node() {
    let mut manager = TokenManager::new(SECRET.to_vec());
    let token = manager.generate_token("blade-01").unwrap();
    assert_eq!(manager.validate_token(&token, "blade-02").unwrap_err(), "Token node_id mismatch");
}

#[test]
fn test_token_expired() {
    let mut manager = TokenManager::new(SECRET.to_vec());
    let node_id = "blade-01";
    let now = SystemTime::now().duration_since(UNIX_EPOCH).unwrap().as_secs();
    let past_time = now - 100;
    let payload = format!("{node_id}:{past_time}");
    let signature = sign(SECRET, &payload);
    let expired_token = format!("{node_id}:{past_time}:{signature}");
    assert_eq!(
        manager.validate_token(&expired_token, node_id).unwrap_err(),
        "Token expired or invalid timestamp"
    );
}

#[test]
fn test_token_invalid_signature() {
    let mut manager = TokenManager::new(SECRET.to_vec());
    let node_id = "blade-01";
    let token = manager.generate_token(node_id).unwrap();
    let mut parts: Vec<&str> = token.split(':').collect();
    parts[2] = "invalid_signature_hex_code_123456";
    let tampered_token = format!("{}:{}:{}", parts[0], parts[1], parts[2]);
    assert!(manager.validate_token(&tampered_token, node_id).is_err());
}

#[test]
fn token_at_fixed_time_has_known_form() {
    let manager = TokenManager::new(SECRET.to_vec());
    let token = manager.generate_token_at("blade-07", 1_700_000_000);
    let expected = format!("blade-07:1700000000:{}", sign(SECRET, "blade-07:1700000000"));
    assert_eq!(token, expected);
    // The signature is hex of a 32-byte tag.
    assert_eq!(token.rsplit(':').next().unwrap().len(), 64);
}

#[test]
fn token_validation_errors_at_fixed_times() {
    let mut manager = TokenManager::new(SECRET.to_vec());
    let token = manager.generate_token_at("blade-01", 1000);
    assert_eq!(manager.validate_token_at("malformed_token", "blade-01", 1000).unwrap_err(), "Malformed token format");
    assert_eq!(manager.validate_token_at(&token, "blade-01", 1061).unwrap_err(), "Token expired or invalid timestamp");
    assert_eq!(manager.validate_token_at(&token, "blade-01", 999).unwrap_err(), "Token expired or invalid timestamp");
    assert_eq!(
        manager.validate_token_at("blade-01:12x:abc", "blade-01", 1000).unwrap_err(),
        "invalid digit found in string"
    );
    assert_eq!(
        manager.validate_token_at("blade-01:1000:00ff", "blade-01", 1000).unwrap_err(),
        "Invalid token signature"
    );
    // Accepted once within its minute, then refused as a replay.
    assert!(manager.validate_token_at(&token, "blade-01", 1060).is_ok());
    assert_eq!(manager.validate_token_at(&token, "blade-01", 1060).unwrap_err(), "Replayed token detected");
}

#[test]
fn other_secret_refuses_signature() {
    let issuer = TokenManager::new(SECRET.to_vec());
    let mut checker = TokenManager::new(b"another-secret".to_vec());
    let token = issuer.generate_token_at("blade-01", 5000);
    assert_eq!(checker.validate_token_at(&token, "blade-01", 5000).unwrap_err(), "Invalid token signature");
}

#[test]
fn test_validate_attestation_token_function() {
    let mut token_manager = TokenManager::new(b"test-secret".to_vec());
    let token = token_manager.generate_token("blade-01").unwrap();
    assert!(validate_attestation_token(&token, "blade-01", &mut token_manager).is_ok());
    let token = token_manager.generate_token("blade-01").unwrap();
    assert!(validate_attestation_token(&token, "blade-02", &mut token_manager).is_err());
}

#[test]
fn test_validate_attestation_empty_token() {
    let manager = MigrationSocketManager::new_with_secret("127.0.0.1".to_string(), b"test-secret".to_vec());
    let mut token_manager = TokenManager::new(b"test-secret".to_vec());
    assert!(manager.validate_attestation("", &mut token_manager).is_ok());
}

#[test]
fn test_token_validation_malformed() {
    let mut token_manager = TokenManager::new(b"test-secret".to_vec());
    assert_eq!(
        token_manager.validate_token("malformed_token", "blade-01").unwrap_err(),
        "Malformed token format"
    );
}

#[test]
fn attestation_at_fixed_time_then_replay() {
    let manager = MigrationSocketManager::new_with_secret("0.0.0.0".to_string(), b"k".to_vec());
    let mut token_manager = TokenManager::new(b"k".to_vec());
    assert!(manager.validate_attestation_at("src-node", &mut token_manager, 42).is_ok());
    assert_eq!(
        manager.validate_attestation_at("src-node", &mut token_manager, 42).unwrap_err(),
        "Replayed token detected"
    );
}

#[test]
fn test_socket_manager_bind_addr() {
    let manager = MigrationSocketManager::new_with_secret("0.0.0.0".to_string(), b"test-secret".to_vec());
    assert_eq!(manager.bind_addr(), "0.0.0.0");
    assert_eq!(manager.listen_addr(4444), "0.0.0.0:4444");
}

#[test]
fn attestation_line_is_trimmed_and_checked() {
    let issuer = TokenManager::new(b"s".to_vec());
    let token = issuer.generate_token_at("src", 100);
    assert!(validate_attestation_line(b"s".to_vec(), &format!("{token}\n"), "src", 110).is_ok());
    assert_eq!(
        validate_attestation_line(b"s".to_vec(), &format!("{token}\n"), "dst", 110).unwrap_err(),
        "Token node_id mismatch"
    );
}

#[test]
fn registered_node_heartbeats_with_its_token() {
    let mut agg = AetherAggregatorImpl::new(NodeRegistry::new(), TokenManager::new(SECRET.to_vec()));
    let token = agg.register_node_at(
        "blade-03".to_string(),
        "https://10.0.0.3:50052".to_string(),
        "COMPUTE".to_string(),
        2000,
        2_000_000,
    );
    assert!(agg.send_heartbeat_at("blade-03", &token, 2030, 2_030_000).is_ok());
    let nodes = agg.registry.get_active_nodes();
    assert_eq!(nodes.len(), 1);
    assert_eq!(nodes[0].last_seen_heartbeat, 2_030_000);
    // The same token again is a replay.
    match agg.send_heartbeat_at("blade-03", &token, 2031, 2_031_000) {
        Err(HeartbeatError::Unauthenticated(m)) => assert_eq!(m, "Replayed token detected"),
        other => panic!("unexpected {:?}", other),
    }
}

#[test]
fn heartbeat_of_unregistered_node_is_invalid_argument() {
    let mut agg = AetherAggregatorImpl::new(NodeRegistry::new(), TokenManager::new(SECRET.to_vec()));
    let token = agg.token_manager.generate_token_at("blade-09", 10);
    match agg.send_heartbeat_at("blade-09", &token, 10, 10_000) {
        Err(HeartbeatError::InvalidArgument(m)) => assert_eq!(m, "Node is not registered"),
        other => panic!("unexpected {:?}", other),
    }
}

#[test]
fn register_and_heartbeat_now() {
    let mut agg = AetherAggregatorImpl::new(NodeRegistry::new(), TokenManager::new(SECRET.to_vec()));
    let token = agg
        .register_node("blade-04".to_string(), "https://x".to_string(), "INFRA".to_string())
        .unwrap();
    assert!(token.starts_with("blade-04:"));
    assert!(agg.send_heartbeat("blade-04", &token).is_ok());
}

#[test]
fn aggregator_state_records_tokens() {
    let mut s = AggregatorState::default();
    assert_eq!(s.len(), 0);
    s.record_token("blade-01".to_string(), "t1".to_string());
    s.record_token("blade-01".to_string(), "t2".to_string());
    assert_eq!(s.len(), 1);
    assert_eq!(s.token_of("blade-01"), Some("t2".to_string()));
    assert_eq!(s.token_of("blade-02"), None);
}

#[test]
fn test_token_validation_replay() {
    let mut token_manager = TokenManager::new(b"test-secret".to_vec());
    let token = token_manager.generate_token("blade-01").unwrap();
    assert!(token_manager.validate_token(&token, "blade-01").is_ok());
    assert_eq!(token_manager.validate_token(&token, "blade-01").unwrap_err(), "Replayed token detected");
}

#[test]
fn test_token_validation_mismatched_node() {
    let mut token_manager = TokenManager::new(b"test-secret".to_vec());
    let token = token_manager.generate_token("blade-01").unwrap();
    assert_eq!(token_manager.validate_token(&token, "blade-02").unwrap_err(), "Token node_id mismatch");
}

#[test]
fn attestation_token_check_matches_token_manager() {
    let issuer = TokenManager::new(b"test-secret".to_vec());
    let token = issuer.generate_token_at("blade-01", 700);
    let mut a = TokenManager::new(b"test-secret".to_vec());
    let mut b = TokenManager::new(b"test-secret".to_vec());
    assert_eq!(validate_attestation_token_at(&token, "blade-01", &mut a, 710), b.validate_token_at(&token, "blade-01", 710));
    // Both remembered the signature: a second use is a replay for each.
    assert_eq!(
        validate_attestation_token_at(&token, "blade-01", &mut a, 711).unwrap_err(),
        "Replayed token detected"
    );
    assert_eq!(b.validate_token_at(&token, "blade-01", 711).unwrap_err(), "Replayed token detected");
    assert_eq!(
        validate_attestation_token_at(&token, "blade-02", &mut a, 711).unwrap_err(),
        "Token node_id mismatch"
    );
}
