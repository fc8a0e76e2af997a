//! The aggregator's node-facing service: registration issues a token, and heartbeats
//! carrying a valid token renew a node's lease.
use vstd::prelude::*;

use crate::clock::{clock_millis, unix_time_secs};
use crate::strmap::StrMap;
use crate::registry::{registered_info, renew_outcome, with_heartbeat, NodeInfo, NodeRegistry};
use crate::text::{lacks, split_on};
use crate::token::{
    lemma_fresh_token_accepted, seen_after, spec_payload, spec_signature, spec_token,
    validate_outcome, TokenManager,
};

verus! {

/// `after` is `before` with the node registered, at some time, with these details.
pub open spec fn registered_some_time(
    before: Map<Seq<char>, NodeInfo>,
    after: Map<Seq<char>, NodeInfo>,
    node_id: String,
    grpc_endpoint: String,
    pool: String,
    token: String,
) -> bool {
    exists|ms: u64|
        after == before.insert(node_id@, #[trigger] registered_info(node_id, grpc_endpoint, pool, token, ms))
}

/// The token validated at `s` (seconds) for the node, and its signature was remembered:
/// `after` is the replay memory that results.
pub open spec fn token_accepted_at(
    secret: Seq<u8>,
    before: Map<Seq<char>, u64>,
    after: Map<Seq<char>, u64>,
    node_id: Seq<char>,
    token: Seq<char>,
    s: u64,
) -> bool {
    match validate_outcome(secret, before, token, node_id, s) {
        Ok(ts) => after == seen_after(before, split_on(token, ':')[2], ts, s),
        Err(_) => false,
    }
}

/// A heartbeat taken at `s` (token time) and `ms` (lease time): the token was accepted
/// and the node's lease renewed at `ms`.
pub open spec fn heartbeat_taken_at(
    secret: Seq<u8>,
    seen_before: Map<Seq<char>, u64>,
    seen_after_call: Map<Seq<char>, u64>,
    registry_before: Map<Seq<char>, NodeInfo>,
    registry_after: Map<Seq<char>, NodeInfo>,
    node_id: Seq<char>,
    token: Seq<char>,
    s: u64,
    ms: u64,
) -> bool {
    token_accepted_at(secret, seen_before, seen_after_call, node_id, token, s) && registry_after
        == with_heartbeat(registry_before, node_id, ms)
}

/// Why a heartbeat was refused, with its gRPC status class.
#[derive(Debug)]
pub enum HeartbeatError {
    /// The token did not validate.
    Unauthenticated(String),
    /// The registry refused the renewal.
    InvalidArgument(String),
}

/// The aggregator's registry of nodes and the token manager that authenticates them.
pub struct AetherAggregatorImpl {
    /// Registered nodes and their leases.
    pub registry: NodeRegistry,
    /// Issues and checks node tokens.
    pub token_manager: TokenManager,
}

impl AetherAggregatorImpl {
    /// The parts are well formed.
    pub open spec fn wf(&self) -> bool {
        self.registry.wf() && self.token_manager.wf()
    }

    /// Creates the service over a registry and a token manager.
    pub fn new(registry: NodeRegistry, token_manager: TokenManager) -> (s: Self)
        ensures
            s.registry == registry,
            s.token_manager == token_manager,
    {
        AetherAggregatorImpl { registry, token_manager }
    }

    /// Registers a node at `now_secs` (token time) and `now_ms` (lease time): issues its
    /// token and records the node with it.
    pub fn register_node_at(
        &mut self,
        node_id: String,
        grpc_endpoint: String,
        pool: String,
        now_secs: u64,
        now_ms: u64,
    ) -> (token: String)
        requires
            old(self).wf(),
        ensures
            final(self).wf(),
            token@ == spec_token(old(self).token_manager.secret(), node_id@, now_secs),
            final(self).token_manager == old(self).token_manager,
            final(self).registry@ == old(self).registry@.insert(
                node_id@,
                registered_info(node_id, grpc_endpoint, pool, token, now_ms),
            ),
    {
        let token = self.token_manager.generate_token_at(node_id.as_str(), now_secs);
        self.registry.register_at(node_id, grpc_endpoint, pool, token.clone(), now_ms);
        token
    }

    /// Registers a node now: issues its token and records the node with it.
    pub fn register_node(&mut self, node_id: String, grpc_endpoint: String, pool: String) -> (r:
        Result<String, String>)
        requires
            old(self).wf(),
        ensures
            final(self).wf(),
            final(self).token_manager == old(self).token_manager,
            match r {
                Ok(token) => (exists|s: u64|
                    token@ == #[trigger] spec_token(old(self).token_manager.secret(), node_id@, s))
                    && registered_some_time(
                    old(self).registry@,
                    final(self).registry@,
                    node_id,
                    grpc_endpoint,
                    pool,
                    token,
                ),
                Err(_) => final(self).registry@ == old(self).registry@,
            },
    {
        match unix_time_secs() {
            Ok(s) => {
                let ms = clock_millis();
                let ghost id0 = node_id;
                let ghost ep0 = grpc_endpoint;
                let ghost pool0 = pool;
                let token = self.register_node_at(node_id, grpc_endpoint, pool, s, ms);
                proof {
                    assert(token@ == spec_token(old(self).token_manager.secret(), id0@, s));
                    assert(self.registry@ == old(self).registry@.insert(
                        id0@,
                        registered_info(id0, ep0, pool0, token, ms),
                    ));
                    assert(registered_some_time(old(self).registry@, self.registry@, id0, ep0, pool0, token));
                }
                Ok(token)
            },
            Err(e) => Err(e),
        }
    }

    /// Handles a heartbeat at `now_secs` (token time) and `now_ms` (lease time): the token
    /// must validate for the node, and then the registry renews the node's lease.
    pub fn send_heartbeat_at(
        &mut self,
        node_id: &str,
        token: &str,
        now_secs: u64,
        now_ms: u64,
    ) -> (r: Result<(), HeartbeatError>)
        requires
            old(self).wf(),
        ensures
            final(self).wf(),
            final(self).token_manager.secret() == old(self).token_manager.secret(),
            match validate_outcome(
                old(self).token_manager.secret(),
                old(self).token_manager.seen(),
                token@,
                node_id@,
                now_secs,
            ) {
                Err(msg) => (r matches Err(HeartbeatError::Unauthenticated(m)) && m@ == msg)
                    && final(self).token_manager.seen() == old(self).token_manager.seen()
                    && final(self).registry@ == old(self).registry@,
                Ok(ts) => final(self).token_manager.seen() == seen_after(
                    old(self).token_manager.seen(),
                    split_on(token@, ':')[2],
                    ts,
                    now_secs,
                ) && match renew_outcome(old(self).registry@, node_id@, token@) {
                    Ok(()) => r is Ok && final(self).registry@ == with_heartbeat(
                        old(self).registry@,
                        node_id@,
                        now_ms,
                    ),
                    Err(msg) => (r matches Err(HeartbeatError::InvalidArgument(m)) && m@ == msg)
                        && final(self).registry@ == old(self).registry@,
                },
            },
    {
        match self.token_manager.validate_token_at(token, node_id, now_secs) {
            Err(e) => Err(HeartbeatError::Unauthenticated(e)),
            Ok(()) => match self.registry.renew_heartbeat_at(node_id, token, now_ms) {
                Ok(()) => Ok(()),
                Err(e) => Err(HeartbeatError::InvalidArgument(e)),
            },
        }
    }

    /// Handles a heartbeat now.
    pub fn send_heartbeat(&mut self, node_id: &str, token: &str) -> (r: Result<(), HeartbeatError>)
        requires
            old(self).wf(),
        ensures
            final(self).wf(),
            final(self).token_manager.secret() == old(self).token_manager.secret(),
            match r {
                Ok(()) => renew_outcome(old(self).registry@, node_id@, token@) is Ok && exists|
                    s: u64,
                    ms: u64,
                | #[trigger]
                    heartbeat_taken_at(
                        old(self).token_manager.secret(),
                        old(self).token_manager.seen(),
                        final(self).token_manager.seen(),
                        old(self).registry@,
                        final(self).registry@,
                        node_id@,
                        token@,
                        s,
                        ms,
                    ),
                Err(HeartbeatError::Unauthenticated(_)) => final(self).token_manager.seen() == old(
                    self,
                ).token_manager.seen() && final(self).registry@ == old(self).registry@,
                Err(HeartbeatError::InvalidArgument(m)) => renew_outcome(
                    old(self).registry@,
                    node_id@,
                    token@,
                ) == Err::<(), Seq<char>>(m@) && final(self).registry@ == old(self).registry@
                    && exists|s: u64| #[trigger]
                    token_accepted_at(
                        old(self).token_manager.secret(),
                        old(self).token_manager.seen(),
                        final(self).token_manager.seen(),
                        node_id@,
                        token@,
                        s,
                    ),
            },
    {
        match unix_time_secs() {
            Ok(s) => {
                let ms = clock_millis();
                let r = self.send_heartbeat_at(node_id, token, s, ms);
                proof {
                    if r is Ok || r matches Err(HeartbeatError::InvalidArgument(_)) {
                        assert(token_accepted_at(
                            old(self).token_manager.secret(),
                            old(self).token_manager.seen(),
                            self.token_manager.seen(),
                            node_id@,
                            token@,
                            s,
                        ));
                    }
                    if r is Ok {
                        assert(heartbeat_taken_at(
                            old(self).token_manager.secret(),
                            old(self).token_manager.seen(),
                            self.token_manager.seen(),
                            old(self).registry@,
                            self.registry@,
                            node_id@,
                            token@,
                            s,
                            ms,
                        ));
                    }
                }
                r
            },
            Err(e) => Err(HeartbeatError::Unauthenticated(e)),
        }
    }
}

/// A node that registers at time `t` (seconds) can renew its lease with the token it was
/// given at any time within the following minute, provided that token's signature has not
/// been used already (node IDs hold no `:`).
pub proof fn lemma_registered_node_heartbeat(
    secret: Seq<u8>,
    seen: Map<Seq<char>, u64>,
    registry: Map<Seq<char>, NodeInfo>,
    node_id: String,
    grpc_endpoint: String,
    pool: String,
    token: String,
    t: u64,
    t_ms: u64,
    now: u64,
)
    requires
        lacks(node_id@, ':'),
        token@ == spec_token(secret, node_id@, t),
        t <= now <= t + 60,
        !seen.contains_key(spec_signature(secret, spec_payload(node_id@, crate::text::decimal(t as nat)))),
    ensures
        validate_outcome(secret, seen, token@, node_id@, now) == Ok::<u64, Seq<char>>(t),
        renew_outcome(
            registry.insert(node_id@, registered_info(node_id, grpc_endpoint, pool, token, t_ms)),
            node_id@,
            token@,
        ) is Ok,
{
    lemma_fresh_token_accepted(secret, seen, node_id@, t, now);
}

/// The tokens issued to registered nodes, by node ID.
pub struct AggregatorState {
    nodes: StrMap<String>,
}

impl AggregatorState {
    /// The token of each registered node.
    pub closed spec fn tokens(&self) -> Map<Seq<char>, Seq<char>> {
        self.nodes@.map_values(|t: String| t@)
    }

    /// The table is well formed.
    pub closed spec fn wf(&self) -> bool {
        self.nodes.wf()
    }

    /// Records the token issued to a node (replacing an earlier one).
    pub fn record_token(&mut self, node_id: String, token: String)
        requires
            old(self).wf(),
        ensures
            final(self).wf(),
            final(self).tokens() == old(self).tokens().insert(node_id@, token@),
    {
        let ghost (k, t) = (node_id@, token@);
        self.nodes.insert(node_id, token);
        proof {
            assert(self.tokens() =~= old(self).tokens().insert(k, t));
        }
    }

    /// The token issued to a node, if it registered.
    pub fn token_of(&self, node_id: &str) -> (r: Option<String>)
        requires
            self.wf(),
        ensures
            match r {
                Some(t) => self.tokens().contains_key(node_id@) && t@ == self.tokens()[node_id@],
                None => !self.tokens().contains_key(node_id@),
            },
    {
        match self.nodes.get(node_id) {
            Some(t) => Some(t.clone()),
            None => None,
        }
    }

    /// The number of registered nodes.
    pub fn len(&self) -> (n: usize)
        requires
            self.wf(),
        ensures
            n == self.tokens().dom().len(),
    {
        proof {
            assert(self.tokens().dom() =~= self.nodes@.dom());
        }
        self.nodes.len()
    }
}

impl Default for AggregatorState {
    fn default() -> (s: Self)
        ensures
            s.wf(),
            s.tokens() == Map::<Seq<char>, Seq<char>>::empty(),
    {
        let s = AggregatorState { nodes: StrMap::new() };
        proof {
            assert(s.tokens() =~= Map::<Seq<char>, Seq<char>>::empty());
        }
        s
    }
}

} // verus!
