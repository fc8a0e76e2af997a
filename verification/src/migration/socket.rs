//! Migration sockets: destination URIs and the attestation that guards a listener.
use vstd::prelude::*;

use crate::clock::unix_time_secs;
use crate::text::{
    chars_of, chars_trim, decimal, extend_str, lacks, parse_unsigned, push_decimal, split_on,
    string_of, trim,
};
use crate::token::{
    lemma_fresh_token_accepted, seen_after, spec_payload, spec_signature, spec_token,
    validate_outcome, TokenManager,
};

verus! {

/// The URI that QEMU migrates to: `tls:host:port` or `tcp:host:port`.
pub open spec fn spec_migration_uri(host: Seq<char>, port: u16, use_tls: bool) -> Seq<char> {
    (if use_tls {
        "tls:"@
    } else {
        "tcp:"@
    }) + host + seq![':'] + decimal(port as nat)
}

/// Helper to generate the migration URI for QEMU.
pub fn get_migration_uri(host: &str, port: u16, use_tls: bool) -> (uri: String)
    ensures
        uri@ == spec_migration_uri(host@, port, use_tls),
{
    let mut v = if use_tls {
        chars_of("tls:")
    } else {
        chars_of("tcp:")
    };
    extend_str(&mut v, host);
    v.push(':');
    push_decimal(&mut v, port as u64);
    string_of(&v)
}

/// Validates an attestation token against the expected node ID.
/// Uses the shared TokenManager for HMAC-SHA256 verification with replay protection.
pub fn validate_attestation_token(
    token: &str,
    expected_node_id: &str,
    token_manager: &mut TokenManager,
) -> (r: Result<(), String>)
    requires
        old(token_manager).wf(),
    ensures
        final(token_manager).wf(),
        final(token_manager).secret() == old(token_manager).secret(),
        r is Ok ==> exists|now: u64| #[trigger]
            validate_outcome(
                old(token_manager).secret(),
                old(token_manager).seen(),
                token@,
                expected_node_id@,
                now,
            ) is Ok && final(token_manager).seen() == seen_after(
                old(token_manager).seen(),
                split_on(token@, ':')[2],
                validate_outcome(
                    old(token_manager).secret(),
                    old(token_manager).seen(),
                    token@,
                    expected_node_id@,
                    now,
                )->Ok_0,
                now,
            ),
        split_on(token@, ':').len() != 3 ==> (r matches Err(e) && e@
            == "Malformed token format"@),
        split_on(token@, ':').len() == 3 && split_on(token@, ':')[0]
            != expected_node_id@ ==> (r matches Err(e) && e@ == "Token node_id mismatch"@),
        r is Err ==> final(token_manager).seen() == old(token_manager).seen(),
{
    token_manager.validate_token(token, expected_node_id)
}

/// Validates an attestation token at time `now`: the same answer, and the same effect on
/// the token manager's replay memory, as `TokenManager::validate_token_at` at that time.
pub fn validate_attestation_token_at(
    token: &str,
    expected_node_id: &str,
    token_manager: &mut TokenManager,
    now: u64,
) -> (r: Result<(), String>)
    requires
        old(token_manager).wf(),
    ensures
        final(token_manager).wf(),
        final(token_manager).secret() == old(token_manager).secret(),
        match validate_outcome(
            old(token_manager).secret(),
            old(token_manager).seen(),
            token@,
            expected_node_id@,
            now,
        ) {
            Ok(ts) => r is Ok && final(token_manager).seen() == seen_after(
                old(token_manager).seen(),
                split_on(token@, ':')[2],
                ts,
                now,
            ),
            Err(msg) => r matches Err(e) && e@ == msg && final(token_manager).seen() == old(
                token_manager,
            ).seen(),
        },
{
    token_manager.validate_token_at(token, expected_node_id, now)
}

/// What checking a source node's attestation at `now` answers: the token generated for
/// the node at `now` is validated at `now`.
pub open spec fn attestation_outcome(
    secret: Seq<u8>,
    seen: Map<Seq<char>, u64>,
    node_id: Seq<char>,
    now: u64,
) -> Result<u64, Seq<char>> {
    validate_outcome(secret, seen, spec_token(secret, node_id, now), node_id, now)
}

/// The node's attestation at `now` was accepted and its signature remembered: `after`
/// is the replay memory that results.
pub open spec fn attested_at(
    secret: Seq<u8>,
    before: Map<Seq<char>, u64>,
    after: Map<Seq<char>, u64>,
    node_id: Seq<char>,
    now: u64,
) -> bool {
    match attestation_outcome(secret, before, node_id, now) {
        Ok(ts) => after == seen_after(before, split_on(spec_token(secret, node_id, now), ':')[2], ts, now),
        Err(_) => false,
    }
}

/// Manages migration socket lifecycle for both source and destination nodes.
pub struct MigrationSocketManager {
    /// Bind address for incoming migrations.
    pub bind_addr: String,
    /// HMAC secret for validating attestation tokens from source nodes.
    pub attestation_secret: Vec<u8>,
    /// Path to CA certificate PEM for mTLS (empty for plain TCP).
    pub ca_cert_path: String,
    /// Path to server certificate PEM for mTLS (empty for plain TCP).
    pub server_cert_path: String,
    /// Path to server private key PEM for mTLS (empty for plain TCP).
    pub server_key_path: String,
}

impl MigrationSocketManager {
    /// Creates a new MigrationSocketManager with attestation support.
    pub fn new(
        bind_addr: String,
        attestation_secret: Vec<u8>,
        ca_cert_path: String,
        server_cert_path: String,
        server_key_path: String,
    ) -> (m: Self)
        ensures
            m.bind_addr == bind_addr,
            m.attestation_secret == attestation_secret,
            m.ca_cert_path == ca_cert_path,
            m.server_cert_path == server_cert_path,
            m.server_key_path == server_key_path,
    {
        MigrationSocketManager {
            bind_addr,
            attestation_secret,
            ca_cert_path,
            server_cert_path,
            server_key_path,
        }
    }

    /// Creates a new manager with the given secret and no TLS material.
    pub fn new_with_secret(bind_addr: String, secret: Vec<u8>) -> (m: Self)
        ensures
            m.bind_addr == bind_addr,
            m.attestation_secret == secret,
            m.ca_cert_path@ == Seq::<char>::empty(),
            m.server_cert_path@ == Seq::<char>::empty(),
            m.server_key_path@ == Seq::<char>::empty(),
    {
        MigrationSocketManager::new(bind_addr, secret, String::new(), String::new(), String::new())
    }

    /// Returns the bind address.
    pub fn bind_addr(&self) -> (a: &str)
        ensures
            a@ == self.bind_addr@,
    {
        self.bind_addr.as_str()
    }

    /// The address a listener binds: `bind_addr:port`.
    pub fn listen_addr(&self, port: u16) -> (a: String)
        ensures
            a@ == self.bind_addr@ + seq![':'] + decimal(port as nat),
    {
        let mut v = chars_of(self.bind_addr.as_str());
        v.push(':');
        push_decimal(&mut v, port as u64);
        string_of(&v)
    }

    /// Validates the source node's attestation at time `now`: a token generated for the
    /// node is validated by the token manager (signature, 60s window, replay memory).
    /// A node whose ID holds no `:` and whose fresh signature was not seen is accepted.
    pub fn validate_attestation_at(
        &self,
        node_id: &str,
        token_manager: &mut TokenManager,
        now: u64,
    ) -> (r: Result<(), String>)
        requires
            old(token_manager).wf(),
        ensures
            final(token_manager).wf(),
            final(token_manager).secret() == old(token_manager).secret(),
            match attestation_outcome(
                old(token_manager).secret(),
                old(token_manager).seen(),
                node_id@,
                now,
            ) {
                Ok(ts) => r is Ok && final(token_manager).seen() == seen_after(
                    old(token_manager).seen(),
                    split_on(spec_token(old(token_manager).secret(), node_id@, now), ':')[2],
                    ts,
                    now,
                ),
                Err(msg) => r matches Err(e) && e@ == msg && final(token_manager).seen() == old(
                    token_manager,
                ).seen(),
            },
            lacks(node_id@, ':') && !old(token_manager).seen().contains_key(
                spec_signature(old(token_manager).secret(), spec_payload(node_id@, decimal(now as nat))),
            ) ==> r is Ok,
    {
        let token = token_manager.generate_token_at(node_id, now);
        proof {
            if lacks(node_id@, ':') && !token_manager.seen().contains_key(
                spec_signature(token_manager.secret(), spec_payload(node_id@, decimal(now as nat))),
            ) {
                lemma_fresh_token_accepted(token_manager.secret(), token_manager.seen(), node_id@, now, now);
            }
        }
        token_manager.validate_token_at(token.as_str(), node_id, now)
    }

    /// Validates the source node's attestation at the current time.
    pub fn validate_attestation(&self, node_id: &str, token_manager: &mut TokenManager) -> (r: Result<
        (),
        String,
    >)
        requires
            old(token_manager).wf(),
        ensures
            final(token_manager).wf(),
            final(token_manager).secret() == old(token_manager).secret(),
            r is Ok ==> exists|now: u64| #[trigger]
                attested_at(
                    old(token_manager).secret(),
                    old(token_manager).seen(),
                    final(token_manager).seen(),
                    node_id@,
                    now,
                ),
            r is Err ==> final(token_manager).seen() == old(token_manager).seen(),
    {
        match unix_time_secs() {
            Ok(now) => {
                let r = self.validate_attestation_at(node_id, token_manager, now);
                proof {
                    if r is Ok {
                        assert(attested_at(
                            old(token_manager).secret(),
                            old(token_manager).seen(),
                            token_manager.seen(),
                            node_id@,
                            now,
                        ));
                    }
                }
                r
            },
            Err(e) => Err(e),
        }
    }
}

/// Validates the first line read from a migration connection: the line, trimmed, is
/// the source's token, checked for `expected_node_id` at `now` by a token manager with
/// the listener's secret and no replay memory.
pub fn validate_attestation_line(
    secret: Vec<u8>,
    line: &str,
    expected_node_id: &str,
    now: u64,
) -> (r: Result<(), String>)
    ensures
        match validate_outcome(secret@, Map::empty(), trim(line@), expected_node_id@, now) {
            Ok(_) => r is Ok,
            Err(msg) => r matches Err(e) && e@ == msg,
        },
{
    let lv = chars_of(line);
    let t = chars_trim(&lv);
    let token = string_of(&t);
    let mut tm = TokenManager::new(secret);
    tm.validate_token_at(token.as_str(), expected_node_id, now)
}

/// A migration URI reads back as its parts: split at `:` it is the scheme (`tls` exactly
/// when TLS is asked for, else `tcp`), the host and the port, and the port parses back to
/// the number given (hosts hold no `:`).
pub proof fn lemma_migration_uri_parts(host: Seq<char>, port: u16, use_tls: bool)
    requires
        lacks(host, ':'),
    ensures
        split_on(spec_migration_uri(host, port, use_tls), ':') == seq![
            if use_tls {
                "tls"@
            } else {
                "tcp"@
            },
            host,
            decimal(port as nat),
        ],
        parse_unsigned(decimal(port as nat), 65535) == Ok::<nat, crate::text::IntErrorKind>(
            port as nat,
        ),
        use_tls ==> spec_migration_uri(host, port, use_tls) != spec_migration_uri(host, port, false),
{
    reveal_strlit("tls:");
    reveal_strlit("tcp:");
    reveal_strlit("tls");
    reveal_strlit("tcp");
    let scheme: Seq<char> = if use_tls {
        "tls"@
    } else {
        "tcp"@
    };
    let d = decimal(port as nat);
    crate::text::lemma_decimal_lacks(port as nat, ':');
    assert(spec_migration_uri(host, port, use_tls) =~= scheme + seq![':'] + (host + seq![':'] + d));
    crate::text::lemma_split_join(scheme, ':', host + seq![':'] + d);
    crate::text::lemma_split_join(host, ':', d);
    crate::text::lemma_split_single(d, ':');
    assert(seq![scheme] + (seq![host] + seq![d]) =~= seq![scheme, host, d]);
    crate::text::lemma_parse_decimal(port as nat, 65535);
    if use_tls {
        assert(spec_migration_uri(host, port, true)[1] != spec_migration_uri(host, port, false)[1]);
    }
}

} // verus!
