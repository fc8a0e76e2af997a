//! Registry of the node daemons that announced themselves, with heartbeat leases.
use vstd::prelude::*;

use crate::clock::clock_millis;
use crate::strmap::{entries_map, keys_unique, lemma_entries_lookup, StrMap};

verus! {

/// Metadata stored for each active registered node daemon.
#[derive(Debug)]
pub struct NodeInfo {
    /// Unique identifier for the blade node.
    pub node_id: String,
    /// Private control plane gRPC endpoint (mTLS).
    pub grpc_endpoint: String,
    /// Pool profile allocation: "COMPUTE" or "INFRA".
    pub pool: String,
    /// Ephemeral attestation token for heartbeat and commands.
    pub token: String,
    /// Time of the last received heartbeat, in milliseconds of the registry's clock.
    pub last_seen_heartbeat: u64,
}

impl Clone for NodeInfo {
    fn clone(&self) -> (r: Self)
        ensures
            r == *self,
    {
        NodeInfo {
            node_id: self.node_id.clone(),
            grpc_endpoint: self.grpc_endpoint.clone(),
            pool: self.pool.clone(),
            token: self.token.clone(),
            last_seen_heartbeat: self.last_seen_heartbeat,
        }
    }
}

/// In-memory registry mapping node IDs to their active metadata.
pub struct NodeRegistry {
    nodes: StrMap<NodeInfo>,
}

/// A node whose last heartbeat is more than `threshold` before `now` has expired.
pub open spec fn expired(info: NodeInfo, threshold: u64, now: u64) -> bool {
    (if now >= info.last_seen_heartbeat {
        now - info.last_seen_heartbeat
    } else {
        0
    }) > threshold
}

/// The registry after pruning at `now`: the nodes that have not expired.
pub open spec fn unexpired(m: Map<Seq<char>, NodeInfo>, threshold: u64, now: u64) -> Map<
    Seq<char>,
    NodeInfo,
> {
    Map::new(|k: Seq<char>| m.contains_key(k) && !expired(m[k], threshold, now), |k: Seq<char>| m[k])
}

/// What renewing a lease answers.
pub open spec fn renew_outcome(m: Map<Seq<char>, NodeInfo>, id: Seq<char>, token: Seq<char>) -> Result<
    (),
    Seq<char>,
> {
    if !m.contains_key(id) {
        Err("Node is not registered"@)
    } else if m[id].token@ != token {
        Err("Token verification failed"@)
    } else {
        Ok(())
    }
}

/// The information kept for a node registered at `now`.
pub open spec fn registered_info(
    id: String,
    endpoint: String,
    pool: String,
    token: String,
    now: u64,
) -> NodeInfo {
    NodeInfo { node_id: id, grpc_endpoint: endpoint, pool: pool, token: token, last_seen_heartbeat: now }
}

/// The registry with the lease of `id` renewed at `t`.
pub open spec fn with_heartbeat(m: Map<Seq<char>, NodeInfo>, id: Seq<char>, t: u64) -> Map<
    Seq<char>,
    NodeInfo,
> {
    m.insert(id, NodeInfo { last_seen_heartbeat: t, ..m[id] })
}

/// Some name in the list is `k`.
pub open spec fn in_names(v: Seq<String>, k: Seq<char>) -> bool {
    exists|p: int| 0 <= p < v.len() && v[p]@ == k
}

/// No name occurs twice in the list.
pub open spec fn names_distinct(v: Seq<String>) -> bool {
    forall|p: int, q: int| 0 <= p < v.len() && 0 <= q < v.len() && p != q ==> v[p]@ != v[q]@
}

/// Among the first `i` entries, `k` is filed with a node that has (or has not) expired.
pub open spec fn seen_with(
    es: Seq<(Seq<char>, NodeInfo)>,
    i: int,
    k: Seq<char>,
    threshold: u64,
    now: u64,
    exp: bool,
) -> bool {
    exists|j: int| 0 <= j < i && es[j].0 == k && expired(es[j].1, threshold, now) == exp
}

proof fn lemma_seen_step(es: Seq<(Seq<char>, NodeInfo)>, i: int, threshold: u64, now: u64)
    requires
        keys_unique(es),
        0 <= i < es.len(),
    ensures
        forall|k: Seq<char>, exp: bool|
            #[trigger] seen_with(es, i + 1, k, threshold, now, exp) <==> (seen_with(
                es,
                i,
                k,
                threshold,
                now,
                exp,
            ) || (k == es[i].0 && expired(es[i].1, threshold, now) == exp)),
        forall|exp: bool| !seen_with(es, i, es[i].0, threshold, now, exp),
{
    assert forall|k: Seq<char>, exp: bool|
        #[trigger] seen_with(es, i + 1, k, threshold, now, exp) <==> (seen_with(
            es,
            i,
            k,
            threshold,
            now,
            exp,
        ) || (k == es[i].0 && expired(es[i].1, threshold, now) == exp)) by {
        if seen_with(es, i + 1, k, threshold, now, exp) {
            let j = choose|j: int|
                0 <= j < i + 1 && es[j].0 == k && expired(es[j].1, threshold, now) == exp;
            if j < i {
                assert(seen_with(es, i, k, threshold, now, exp));
            }
        }
        if seen_with(es, i, k, threshold, now, exp) {
            let j = choose|j: int|
                0 <= j < i && es[j].0 == k && expired(es[j].1, threshold, now) == exp;
            assert(0 <= j < i + 1);
        }
        if k == es[i].0 && expired(es[i].1, threshold, now) == exp {
            assert(0 <= i < i + 1 && es[i].0 == k);
        }
    }
}

proof fn lemma_seen_all(es: Seq<(Seq<char>, NodeInfo)>, k: Seq<char>, threshold: u64, now: u64)
    requires
        keys_unique(es),
    ensures
        seen_with(es, es.len() as int, k, threshold, now, false) <==> (entries_map(es).contains_key(k)
            && !expired(entries_map(es)[k], threshold, now)),
        seen_with(es, es.len() as int, k, threshold, now, true) <==> (entries_map(es).contains_key(k)
            && expired(entries_map(es)[k], threshold, now)),
{
    if entries_map(es).contains_key(k) {
        let j = choose|j: int| crate::strmap::key_at(es, k, j);
        lemma_entries_lookup(es, j);
    }
    if exists|exp: bool| seen_with(es, es.len() as int, k, threshold, now, exp) {
        let exp = choose|exp: bool| seen_with(es, es.len() as int, k, threshold, now, exp);
        let j = choose|j: int|
            0 <= j < es.len() && es[j].0 == k && expired(es[j].1, threshold, now) == exp;
        lemma_entries_lookup(es, j);
    }
}

proof fn lemma_names_push(v: Seq<String>, x: String)
    requires
        names_distinct(v),
        !in_names(v, x@),
    ensures
        names_distinct(v.push(x)),
        forall|k: Seq<char>| #[trigger] in_names(v.push(x), k) <==> (in_names(v, k) || k == x@),
{
    let w = v.push(x);
    assert forall|k: Seq<char>| #[trigger] in_names(w, k) <==> (in_names(v, k) || k == x@) by {
        if in_names(w, k) {
            let p = choose|p: int| 0 <= p < w.len() && w[p]@ == k;
            if p < v.len() {
                assert(v[p] == w[p]);
            }
        }
        if in_names(v, k) {
            let p = choose|p: int| 0 <= p < v.len() && v[p]@ == k;
            assert(w[p] == v[p]);
        }
        if k == x@ {
            assert(w[v.len() as int] == x);
        }
    }
    assert forall|p: int, q: int| 0 <= p < w.len() && 0 <= q < w.len() && p != q implies w[p]@
        != w[q]@ by {
        if p < v.len() && q < v.len() {
            assert(w[p] == v[p] && w[q] == v[q]);
        } else if p < v.len() {
            assert(w[p] == v[p]);
            assert(in_names(v, w[p]@));
        } else if q < v.len() {
            assert(w[q] == v[q]);
            assert(in_names(v, w[q]@));
        }
    }
}

impl NodeRegistry {
    /// The node map, keyed by node ID.
    pub closed spec fn nodes_map(&self) -> Map<Seq<char>, NodeInfo> {
        self.nodes@
    }

    /// The map is well formed and each node is filed under its own ID.
    pub closed spec fn wf(&self) -> bool {
        &&& self.nodes.wf()
        &&& forall|i: int|
            0 <= i < self.nodes.entries().len() ==> (#[trigger] self.nodes.entries()[i]).1.node_id@
                == self.nodes.entries()[i].0
    }

    /// Each node is filed under its own ID.
    pub proof fn lemma_keys(&self)
        requires
            self.wf(),
        ensures
            forall|k: Seq<char>|
                #[trigger] self@.contains_key(k) ==> self@[k].node_id@ == k,
    {
        assert forall|k: Seq<char>| #[trigger] self@.contains_key(k) implies self@[k].node_id@ == k by {
            let es = self.nodes.entries();
            let i = choose|i: int| crate::strmap::key_at(es, k, i);
            lemma_entries_lookup(es, i);
        }
    }
}

impl View for NodeRegistry {
    type V = Map<Seq<char>, NodeInfo>;

    open spec fn view(&self) -> Map<Seq<char>, NodeInfo> {
        self.nodes_map()
    }
}

impl NodeRegistry {
    /// Creates a new empty NodeRegistry.
    pub fn new() -> (r: Self)
        ensures
            r.wf(),
            r@ == Map::<Seq<char>, NodeInfo>::empty(),
    {
        NodeRegistry { nodes: StrMap::new() }
    }

    /// Registers or updates a blade node, with its lease starting at `now`.
    pub fn register_at(
        &mut self,
        node_id: String,
        grpc_endpoint: String,
        pool: String,
        token: String,
        now: u64,
    )
        requires
            old(self).wf(),
        ensures
            final(self).wf(),
            final(self)@ == old(self)@.insert(
                node_id@,
                registered_info(node_id, grpc_endpoint, pool, token, now),
            ),
    {
        let ghost es = self.nodes.entries();
        let info = NodeInfo {
            node_id: node_id.clone(),
            grpc_endpoint,
            pool,
            token,
            last_seen_heartbeat: now,
        };
        self.nodes.insert(node_id, info);
        proof {
            let es2 = self.nodes.entries();
            assert forall|i: int| 0 <= i < es2.len() implies (#[trigger] es2[i]).1.node_id@
                == es2[i].0 by {
                if i < es.len() && es2[i].0 != node_id@ {
                    lemma_entries_lookup(es2, i);
                    lemma_entries_lookup(es, i);
                } else {
                    lemma_entries_lookup(es2, i);
                }
            }
        }
    }

    /// Registers or updates a blade node, with its lease starting now.
    pub fn register(&mut self, node_id: String, grpc_endpoint: String, pool: String, token: String)
        requires
            old(self).wf(),
        ensures
            final(self).wf(),
            exists|t: u64|
                final(self)@ == old(self)@.insert(
                    node_id@,
                    registered_info(node_id, grpc_endpoint, pool, token, t),
                ),
    {
        let now = clock_millis();
        self.register_at(node_id, grpc_endpoint, pool, token, now);
    }

    /// Renews the heartbeat lease of a node at `now`, verifying its token.
    pub fn renew_heartbeat_at(&mut self, node_id: &str, token: &str, now: u64) -> (r: Result<(), String>)
        requires
            old(self).wf(),
        ensures
            final(self).wf(),
            match r {
                Ok(()) => renew_outcome(old(self)@, node_id@, token@) is Ok && final(self)@
                    == with_heartbeat(old(self)@, node_id@, now),
                Err(e) => renew_outcome(old(self)@, node_id@, token@) == Err::<(), Seq<char>>(e@)
                    && final(self)@ == old(self)@,
            },
    {
        match self.nodes.find(node_id) {
            None => Err(String::from_str("Node is not registered")),
            Some(i) => {
                let t = token.to_owned();
                if self.nodes.value_at(i).token == t {
                    let (k, info) = self.nodes.remove_at(i);
                    let renewed = NodeInfo { last_seen_heartbeat: now, ..info };
                    let ghost es = self.nodes.entries();
                    proof {
                        assert(!self.nodes@.contains_key(k@));
                    }
                    self.nodes.push_new(k, renewed);
                    proof {
                        let es2 = self.nodes.entries();
                        assert forall|j: int| 0 <= j < es2.len() implies (#[trigger] es2[j]).1.node_id@
                            == es2[j].0 by {
                            if j < es.len() {
                                assert(es2[j] == es[j]);
                                assert(es[j] == old(self).nodes.entries().remove(i as int)[j]);
                            }
                        }
                        assert(self.nodes@ =~= old(self).nodes@.insert(
                            node_id@,
                            NodeInfo { last_seen_heartbeat: now, ..old(self)@[node_id@] },
                        ));
                    }
                    Ok(())
                } else {
                    Err(String::from_str("Token verification failed"))
                }
            },
        }
    }

    /// Renews the heartbeat lease of a node now, verifying its token.
    pub fn renew_heartbeat(&mut self, node_id: &str, token: &str) -> (r: Result<(), String>)
        requires
            old(self).wf(),
        ensures
            final(self).wf(),
            match r {
                Ok(()) => renew_outcome(old(self)@, node_id@, token@) is Ok && exists|t: u64|
                    final(self)@ == #[trigger] with_heartbeat(old(self)@, node_id@, t),
                Err(e) => renew_outcome(old(self)@, node_id@, token@) == Err::<(), Seq<char>>(e@)
                    && final(self)@ == old(self)@,
            },
    {
        let now = clock_millis();
        self.renew_heartbeat_at(node_id, token, now)
    }

    /// Deregisters and removes a node from the registry.
    pub fn deregister(&mut self, node_id: &str) -> (r: Option<NodeInfo>)
        requires
            old(self).wf(),
        ensures
            final(self).wf(),
            final(self)@ == old(self)@.remove(node_id@),
            match r {
                Some(info) => old(self)@.contains_key(node_id@) && info == old(self)@[node_id@],
                None => !old(self)@.contains_key(node_id@),
            },
    {
        let ghost es = self.nodes.entries();
        let r = self.nodes.remove(node_id);
        proof {
            let es2 = self.nodes.entries();
            assert forall|j: int| 0 <= j < es2.len() implies (#[trigger] es2[j]).1.node_id@
                == es2[j].0 by {
                lemma_entries_lookup(es2, j);
                assert(old(self).nodes@.contains_key(es2[j].0));
                let k = choose|k: int| crate::strmap::key_at(es, es2[j].0, k);
                lemma_entries_lookup(es, k);
            }
        }
        r
    }

    /// Prunes the nodes that have not reported a heartbeat within `threshold` milliseconds
    /// before `now`. Returns the pruned node IDs.
    pub fn prune_inactive_nodes_at(&mut self, threshold: u64, now: u64) -> (pruned: Vec<String>)
        requires
            old(self).wf(),
        ensures
            final(self).wf(),
            final(self)@ == unexpired(old(self)@, threshold, now),
            forall|k: Seq<char>|
                #![trigger in_names(pruned@, k)]
                old(self)@.contains_key(k) && expired(old(self)@[k], threshold, now) <==> in_names(
                    pruned@,
                    k,
                ),
            names_distinct(pruned@),
    {
        let ghost es = self.nodes.entries();
        let ghost old_map = self.nodes@;
        proof {
            assert(self.wf());
        }
        let mut kept: StrMap<NodeInfo> = StrMap::new();
        let mut pruned: Vec<String> = Vec::new();
        let mut i: usize = 0;
        let n = self.nodes.len();
        while i < n
            invariant
                es == self.nodes.entries(),
                old_map == self.nodes@,
                self.nodes.wf(),
                n == es.len(),
                forall|j: int| 0 <= j < es.len() ==> (#[trigger] es[j]).1.node_id@ == es[j].0,
                i <= n,
                kept.wf(),
                forall|j: int|
                    0 <= j < kept.entries().len() ==> (#[trigger] kept.entries()[j]).1.node_id@
                        == kept.entries()[j].0,
                forall|k: Seq<char>|
                    #![trigger kept@.contains_key(k)]
                    #![trigger seen_with(es, i as int, k, threshold, now, false)]
                    kept@.contains_key(k) <==> seen_with(es, i as int, k, threshold, now, false),
                forall|k: Seq<char>| #[trigger] kept@.contains_key(k) ==> kept@[k] == old_map[k],
                forall|k: Seq<char>|
                    #![trigger in_names(pruned@, k)]
                    #![trigger seen_with(es, i as int, k, threshold, now, true)]
                    seen_with(es, i as int, k, threshold, now, true) <==> in_names(pruned@, k),
                names_distinct(pruned@),
            decreases n - i,
        {
            let info = self.nodes.value_at(i);
            let key = self.nodes.key_at(i);
            let ghost ki = es[i as int].0;
            proof {
                lemma_entries_lookup(es, i as int);
                lemma_seen_step(es, i as int, threshold, now);
            }
            let age: u64 = if now >= info.last_seen_heartbeat {
                now - info.last_seen_heartbeat
            } else {
                0
            };
            if age > threshold {
                let ghost old_pruned = pruned@;
                proof {
                    assert(!seen_with(es, i as int, ki, threshold, now, true));
                    assert(!in_names(old_pruned, ki));
                }
                pruned.push(key.clone());
                proof {
                    lemma_names_push(old_pruned, pruned@[old_pruned.len() as int]);
                    assert(pruned@ =~= old_pruned.push(pruned@[old_pruned.len() as int]));
                }
            } else {
                proof {
                    assert(!seen_with(es, i as int, ki, threshold, now, false));
                }
                let ghost kes = kept.entries();
                let ghost old_kept = kept@;
                kept.push_new(key.clone(), info.clone());
                proof {
                    assert(kept@ == old_kept.insert(ki, es[i as int].1));
                    assert(old_map[ki] == es[i as int].1);
                    assert forall|k: Seq<char>| #[trigger] kept@.contains_key(k) implies kept@[k]
                        == old_map[k] by {
                        if k != ki {
                            assert(old_kept.contains_key(k));
                        }
                    }
                    let kes2 = kept.entries();
                    assert forall|j: int| 0 <= j < kes2.len() implies (#[trigger] kes2[j]).1.node_id@
                        == kes2[j].0 by {
                        if j < kes.len() {
                            assert(kes2[j] == kes[j]);
                        }
                    }
                }
            }
            i = i + 1;
        }
        proof {
            assert forall|k: Seq<char>|
                kept@.contains_key(k) <==> unexpired(old_map, threshold, now).contains_key(k) by {
                lemma_seen_all(es, k, threshold, now);
            }
            assert(kept@ =~= unexpired(old_map, threshold, now));
            assert forall|k: Seq<char>|
                #![trigger in_names(pruned@, k)]
                old_map.contains_key(k) && expired(old_map[k], threshold, now) <==> in_names(
                    pruned@,
                    k,
                ) by {
                lemma_seen_all(es, k, threshold, now);
            }
        }
        self.nodes = kept;
        pruned
    }

    /// Prunes the nodes that have not reported a heartbeat within `threshold` milliseconds.
    /// Returns the pruned node IDs.
    pub fn prune_inactive_nodes(&mut self, threshold: u64) -> (pruned: Vec<String>)
        requires
            old(self).wf(),
        ensures
            final(self).wf(),
            names_distinct(pruned@),
            exists|now: u64|
                final(self)@ == #[trigger] unexpired(old(self)@, threshold, now) && forall|
                    k: Seq<char>,
                |
                    #![trigger in_names(pruned@, k)]
                    old(self)@.contains_key(k) && expired(old(self)@[k], threshold, now)
                        <==> in_names(pruned@, k),
    {
        let now = clock_millis();
        self.prune_inactive_nodes_at(threshold, now)
    }

    /// Returns a list of currently active nodes.
    pub fn get_active_nodes(&self) -> (nodes: Vec<NodeInfo>)
        requires
            self.wf(),
        ensures
            nodes@.len() == self@.dom().len(),
            forall|i: int|
                0 <= i < nodes@.len() ==> self@.contains_key((#[trigger] nodes@[i]).node_id@)
                    && self@[nodes@[i].node_id@] == nodes@[i],
            forall|k: Seq<char>|
                #[trigger] self@.contains_key(k) ==> exists|i: int|
                    0 <= i < nodes@.len() && nodes@[i].node_id@ == k,
            forall|i: int, j: int|
                0 <= i < nodes@.len() && 0 <= j < nodes@.len() && i != j ==> nodes@[i].node_id@
                    != nodes@[j].node_id@,
    {
        let ghost es = self.nodes.entries();
        let n = self.nodes.len();
        let mut out: Vec<NodeInfo> = Vec::new();
        let mut i: usize = 0;
        while i < n
            invariant
                es == self.nodes.entries(),
                self.wf(),
                n == es.len(),
                i <= n,
                out@.len() == i,
                forall|j: int| 0 <= j < i ==> #[trigger] out@[j] == es[j].1,
            decreases n - i,
        {
            out.push(self.nodes.value_at(i).clone());
            i = i + 1;
        }
        proof {
            assert forall|j: int| 0 <= j < out@.len() implies self@.contains_key(
                (#[trigger] out@[j]).node_id@,
            ) && self@[out@[j].node_id@] == out@[j] by {
                lemma_entries_lookup(es, j);
            }
            assert forall|k: Seq<char>| #[trigger] self@.contains_key(k) implies exists|j: int|
                0 <= j < out@.len() && out@[j].node_id@ == k by {
                let j = choose|j: int| crate::strmap::key_at(es, k, j);
                assert(out@[j].node_id@ == k);
            }
        }
        out
    }
}

/// A node can renew its lease with the token it registered with.
pub proof fn lemma_register_then_renew(
    m: Map<Seq<char>, NodeInfo>,
    node_id: String,
    grpc_endpoint: String,
    pool: String,
    token: String,
    t: u64,
)
    ensures
        renew_outcome(
            m.insert(node_id@, registered_info(node_id, grpc_endpoint, pool, token, t)),
            node_id@,
            token@,
        ) is Ok,
{
}

/// A renewal with a token other than the registered one is refused.
pub proof fn lemma_wrong_token_rejected(m: Map<Seq<char>, NodeInfo>, id: Seq<char>, token: Seq<char>)
    requires
        m.contains_key(id),
        m[id].token@ != token,
    ensures
        renew_outcome(m, id, token) == Err::<(), Seq<char>>("Token verification failed"@),
{
}

/// A deregistered node cannot renew its lease.
pub proof fn lemma_deregistered_not_renewable(
    m: Map<Seq<char>, NodeInfo>,
    id: Seq<char>,
    token: Seq<char>,
)
    ensures
        renew_outcome(m.remove(id), id, token) == Err::<(), Seq<char>>("Node is not registered"@),
{
}

/// A node whose lease was renewed at `t` survives every pruning within `threshold` after
/// `t`, and nodes are pruned only once expired.
pub proof fn lemma_renewed_node_survives_prune(
    m: Map<Seq<char>, NodeInfo>,
    id: Seq<char>,
    t: u64,
    threshold: u64,
    now: u64,
)
    requires
        m.contains_key(id),
        now <= t + threshold,
    ensures
        unexpired(with_heartbeat(m, id, t), threshold, now).contains_key(id),
        forall|k: Seq<char>|
            #[trigger] m.contains_key(k) && !unexpired(m, threshold, now).contains_key(k) ==> expired(
                m[k],
                threshold,
                now,
            ),
{
}

} // verus!
