//! A simulated HPE OneView appliance: sessions, ethernet networks, server profiles and
//! tasks, as its REST handlers keep them.
use vstd::prelude::*;

use crate::ids::new_uuid;
use crate::strmap::{lemma_entries_find, lemma_entries_lookup, StrMap};
use crate::text::{
    chars_of, chars_starts_with, concat2, decimal, extend_str, parse_unsigned,
    parse_unsigned_chars, push_decimal, starts_with, str_eq, string_of,
};

verus! {

/// Represents an HPE OneView Ethernet Network resource.
#[derive(Debug)]
pub struct EthernetNetwork {
    pub resource_type: String,
    pub name: String,
    pub vlan_id: u16,
    pub uri: String,
    pub network_type: String,
}

impl Clone for EthernetNetwork {
    fn clone(&self) -> (r: Self)
        ensures
            r == *self,
    {
        EthernetNetwork {
            resource_type: self.resource_type.clone(),
            name: self.name.clone(),
            vlan_id: self.vlan_id,
            uri: self.uri.clone(),
            network_type: self.network_type.clone(),
        }
    }
}

/// Represents a server connection in an HPE OneView Server Profile.
#[derive(Debug)]
pub struct Connection {
    pub id: u32,
    pub name: String,
    pub network_uri: Option<String>,
}

/// A copy of an optional string.
pub fn clone_opt_string(s: &Option<String>) -> (r: Option<String>)
    ensures
        r == *s,
{
    match s {
        Some(x) => Some(x.clone()),
        None => None,
    }
}

impl Clone for Connection {
    fn clone(&self) -> (r: Self)
        ensures
            r == *self,
    {
        Connection {
            id: self.id,
            name: self.name.clone(),
            network_uri: clone_opt_string(&self.network_uri),
        }
    }
}

/// A copy of a list of connections.
pub fn clone_connections(v: &Vec<Connection>) -> (r: Vec<Connection>)
    ensures
        r@ == v@,
{
    let mut r: Vec<Connection> = Vec::new();
    let mut i: usize = 0;
    while i < v.len()
        invariant
            i <= v.len(),
            r@ == v@.take(i as int),
        decreases v.len() - i,
    {
        r.push(v[i].clone());
        proof {
            assert(v@.take(i as int).push(v@[i as int]) =~= v@.take(i + 1));
        }
        i = i + 1;
    }
    proof {
        assert(v@.take(v.len() as int) =~= v@);
    }
    r
}

/// Represents an HPE OneView Server Profile resource.
#[derive(Debug)]
pub struct ServerProfile {
    pub resource_type: String,
    pub name: String,
    pub uri: String,
    pub server_hardware_uri: String,
    pub connections: Vec<Connection>,
}

impl Clone for ServerProfile {
    fn clone(&self) -> (r: Self)
        ensures
            r.resource_type == self.resource_type,
            r.name == self.name,
            r.uri == self.uri,
            r.server_hardware_uri == self.server_hardware_uri,
            r.connections@ == self.connections@,
    {
        ServerProfile {
            resource_type: self.resource_type.clone(),
            name: self.name.clone(),
            uri: self.uri.clone(),
            server_hardware_uri: self.server_hardware_uri.clone(),
            connections: clone_connections(&self.connections),
        }
    }
}

/// Represents an asynchronous HPE OneView Task resource.
#[derive(Debug)]
pub struct Task {
    pub resource_type: String,
    pub uri: String,
    pub task_state: String,
}

impl Clone for Task {
    fn clone(&self) -> (r: Self)
        ensures
            r == *self,
    {
        Task {
            resource_type: self.resource_type.clone(),
            uri: self.uri.clone(),
            task_state: self.task_state.clone(),
        }
    }
}

/// Expected JSON login request body.
#[derive(Debug)]
pub struct LoginRequest {
    pub user_name: String,
    pub password: Option<String>,
}

/// Filter options for querying ethernet networks.
#[derive(Debug)]
pub struct NetworkFilter {
    pub filter: Option<String>,
}

/// Expected JSON network creation body.
#[derive(Debug)]
pub struct CreateNetworkRequest {
    pub name: String,
    pub vlan_id: u16,
    pub network_type: Option<String>,
}

/// A profile is the same profile as another: same fields and connections.
pub open spec fn same_profile(a: ServerProfile, b: ServerProfile) -> bool {
    a.resource_type == b.resource_type && a.name == b.name && a.uri == b.uri
        && a.server_hardware_uri == b.server_hardware_uri && a.connections@ == b.connections@
}

/// The credentials the appliance accepts.
pub open spec fn valid_login(req: LoginRequest) -> bool {
    req.user_name@ == "admin"@ && (req.password matches Some(p) && p@ == "password"@)
}

/// `s` without its quote characters (`"` and `'`).
pub open spec fn without_quotes(s: Seq<char>) -> Seq<char>
    decreases s.len(),
{
    if s.len() == 0 {
        s
    } else if s.last() == '"' || s.last() == '\'' {
        without_quotes(s.drop_last())
    } else {
        without_quotes(s.drop_last()).push(s.last())
    }
}

/// The VLAN a network filter selects: `vlanId=<n>`, quotes ignored, with `n` a `u16`;
/// any other filter selects every network.
pub open spec fn filter_vlan(filter: Option<Seq<char>>) -> Option<u16> {
    match filter {
        None => None,
        Some(f) => {
            let c = without_quotes(f);
            if starts_with(c, "vlanId="@) && parse_unsigned(c.skip(7), 65535) is Ok {
                Some(parse_unsigned(c.skip(7), 65535)->Ok_0 as u16)
            } else {
                None
            }
        },
    }
}

/// A network passes the filter's VLAN.
pub open spec fn passes(vlan: Option<u16>, n: EthernetNetwork) -> bool {
    match vlan {
        None => true,
        Some(v) => n.vlan_id == v,
    }
}

/// The networks a filter's VLAN lets through.
pub open spec fn passes_filter(vlan: Option<u16>) -> spec_fn(EthernetNetwork) -> bool {
    |n: EthernetNetwork| passes(vlan, n)
}

/// Filtering the first `i + 1` items adds the item at `i` if it passes.
proof fn lemma_filter_take<A>(s: Seq<A>, pred: spec_fn(A) -> bool, i: int)
    requires
        0 <= i < s.len(),
    ensures
        s.take(i + 1).filter(pred) == if pred(s[i]) {
            s.take(i).filter(pred).push(s[i])
        } else {
            s.take(i).filter(pred)
        },
{
    reveal(Seq::filter);
    assert(s.take(i + 1).drop_last() =~= s.take(i));
    assert(s.take(i + 1).last() == s[i]);
}

/// The URI of a server profile.
pub open spec fn profile_uri(id: Seq<char>) -> Seq<char> {
    "/rest/server-profiles/"@ + id
}

/// The URI of a task.
pub open spec fn task_uri(id: Seq<char>) -> Seq<char> {
    "/rest/tasks/"@ + id
}

/// The URI of the network of a VLAN.
pub open spec fn network_uri(vlan: u16) -> Seq<char> {
    "/rest/ethernet-networks/vlan-"@ + decimal(vlan as nat)
}

/// The paths that need no session.
pub open spec fn open_path(path: Seq<char>) -> bool {
    path == "/health"@ || path == "/"@ || path == "/rest/login-sessions"@
}

/// Removes the quote characters of a filter.
fn strip_quotes(s: &str) -> (r: Vec<char>)
    ensures
        r@ == without_quotes(s@),
{
    let v = chars_of(s);
    let mut r: Vec<char> = Vec::new();
    let mut i: usize = 0;
    while i < v.len()
        invariant
            i <= v.len(),
            v@ == s@,
            r@ == without_quotes(s@.take(i as int)),
        decreases v.len() - i,
    {
        proof {
            assert(s@.take(i + 1).drop_last() =~= s@.take(i as int));
            assert(s@.take(i + 1).last() == s@[i as int]);
        }
        let c = v[i];
        if c != '"' && c != '\'' {
            r.push(c);
        }
        i = i + 1;
    }
    proof {
        assert(s@.take(v.len() as int) =~= s@);
    }
    r
}

/// Reads the VLAN a network filter selects.
pub fn parse_network_filter(filter: Option<&str>) -> (r: Option<u16>)
    ensures
        r == filter_vlan(match filter {
            Some(f) => Some(f@),
            None => None,
        }),
{
    match filter {
        None => None,
        Some(f) => {
            let c = strip_quotes(f);
            let prefix = chars_of("vlanId=");
            proof {
                reveal_strlit("vlanId=");
            }
            if !chars_starts_with(&c, &prefix) {
                return None;
            }
            let mut rest: Vec<char> = Vec::new();
            let mut i: usize = 7;
            while i < c.len()
                invariant
                    7 <= i <= c.len(),
                    rest@ == c@.subrange(7, i as int),
                decreases c.len() - i,
            {
                rest.push(c[i]);
                proof {
                    assert(c@.subrange(7, i + 1) =~= c@.subrange(7, i as int).push(c@[i as int]));
                }
                i = i + 1;
            }
            proof {
                assert(rest@ =~= c@.skip(7));
            }
            match parse_unsigned_chars(&rest, 65535) {
                Ok(v) => Some(v as u16),
                Err(_) => None,
            }
        },
    }
}

/// The server profile the appliance starts with for a blade slot: connections
/// `FlexNIC-1a` (id 1) and `FlexNIC-1b` (id 2), both without a network.
pub fn seeded_profile(slot: u8) -> (p: ServerProfile)
    ensures
        p.resource_type@ == "ServerProfileV12"@,
        p.name@ == "Blade-Profile-Slot-"@ + decimal(slot as nat),
        p.uri@ == "/rest/server-profiles/profile-slot-"@ + decimal(slot as nat),
        p.server_hardware_uri@ == "/rest/server-hardware/slot-"@ + decimal(slot as nat),
        p.connections@.len() == 2,
        p.connections@[0].id == 1 && p.connections@[0].name@ == "FlexNIC-1a"@
            && p.connections@[0].network_uri is None,
        p.connections@[1].id == 2 && p.connections@[1].name@ == "FlexNIC-1b"@
            && p.connections@[1].network_uri is None,
{
    let mut name = chars_of("Blade-Profile-Slot-");
    push_decimal(&mut name, slot as u64);
    let mut uri = chars_of("/rest/server-profiles/profile-slot-");
    push_decimal(&mut uri, slot as u64);
    let mut hw = chars_of("/rest/server-hardware/slot-");
    push_decimal(&mut hw, slot as u64);
    let mut connections: Vec<Connection> = Vec::new();
    connections.push(Connection { id: 1, name: String::from_str("FlexNIC-1a"), network_uri: None });
    connections.push(Connection { id: 2, name: String::from_str("FlexNIC-1b"), network_uri: None });
    ServerProfile {
        resource_type: String::from_str("ServerProfileV12"),
        name: string_of(&name),
        uri: string_of(&uri),
        server_hardware_uri: string_of(&hw),
        connections,
    }
}

/// Inner state structure tracking sessions, networks, profiles, and tasks.
pub struct InnerState {
    /// Session tokens handed out.
    pub sessions: StrMap<()>,
    /// Networks by URI.
    pub networks: StrMap<EthernetNetwork>,
    /// Server profiles by URI.
    pub server_profiles: StrMap<ServerProfile>,
    /// Tasks by URI.
    pub tasks: StrMap<Task>,
}

impl InnerState {
    /// The tables are well formed.
    pub open spec fn wf(&self) -> bool {
        self.sessions.wf() && self.networks.wf() && self.server_profiles.wf() && self.tasks.wf()
    }

    /// No sessions, networks, profiles or tasks.
    pub fn new() -> (s: Self)
        ensures
            s.wf(),
            s.sessions@ == Map::<Seq<char>, ()>::empty(),
            s.networks@ == Map::<Seq<char>, EthernetNetwork>::empty(),
            s.server_profiles@ == Map::<Seq<char>, ServerProfile>::empty(),
            s.tasks@ == Map::<Seq<char>, Task>::empty(),
    {
        InnerState {
            sessions: StrMap::new(),
            networks: StrMap::new(),
            server_profiles: StrMap::new(),
            tasks: StrMap::new(),
        }
    }

    /// The appliance as it starts: the profiles of blade slots 1 to 8, nothing else.
    pub fn seeded() -> (s: Self)
        ensures
            s.wf(),
            s.sessions@ == Map::<Seq<char>, ()>::empty(),
            s.networks@ == Map::<Seq<char>, EthernetNetwork>::empty(),
            s.tasks@ == Map::<Seq<char>, Task>::empty(),
            forall|slot: u8|
                1 <= slot <= 8 ==> #[trigger] s.server_profiles@.contains_key(
                    "/rest/server-profiles/profile-slot-"@ + decimal(slot as nat),
                ),
            s.server_profiles@.dom().len() == 8,
    {
        let mut s = InnerState::new();
        let mut slot: u8 = 1;
        while slot <= 8
            invariant
                1 <= slot <= 9,
                s.wf(),
                s.sessions@ == Map::<Seq<char>, ()>::empty(),
                s.networks@ == Map::<Seq<char>, EthernetNetwork>::empty(),
                s.tasks@ == Map::<Seq<char>, Task>::empty(),
                forall|t: u8|
                    1 <= t < slot ==> #[trigger] s.server_profiles@.contains_key(
                        "/rest/server-profiles/profile-slot-"@ + decimal(t as nat),
                    ),
                s.server_profiles@.dom().finite(),
                s.server_profiles@.dom().len() == slot - 1,
                forall|k: Seq<char>| #[trigger]
                    s.server_profiles@.contains_key(k) ==> exists|t: u8|
                        1 <= t < slot && k == "/rest/server-profiles/profile-slot-"@ + decimal(
                            t as nat,
                        ),
            decreases 9 - slot,
        {
            let p = seeded_profile(slot);
            let key = p.uri.clone();
            proof {
                if s.server_profiles@.contains_key(key@) {
                    let t = choose|t: u8|
                        1 <= t < slot && key@ == "/rest/server-profiles/profile-slot-"@ + decimal(
                            t as nat,
                        );
                    lemma_slot_uri_injective(t, slot);
                }
            }
            s.server_profiles.insert(key, p);
            proof {
                assert forall|k: Seq<char>| #[trigger]
                    s.server_profiles@.contains_key(k) implies exists|t: u8|
                        1 <= t < slot + 1 && k == "/rest/server-profiles/profile-slot-"@ + decimal(
                            t as nat,
                        ) by {
                    if k != key@ {
                        let t = choose|t: u8|
                            1 <= t < slot && k == "/rest/server-profiles/profile-slot-"@ + decimal(
                                t as nat,
                            );
                        assert(1 <= t < slot + 1);
                    }
                }
            }
            slot = slot + 1;
        }
        s
    }

    /// Opens a session whose token ends with `suffix` for valid credentials:
    /// `session-token-<suffix>`; `None` for others.
    pub fn login_with_suffix(&mut self, req: &LoginRequest, suffix: &str) -> (r: Option<String>)
        requires
            old(self).wf(),
        ensures
            final(self).wf(),
            final(self).networks@ == old(self).networks@,
            final(self).server_profiles@ == old(self).server_profiles@,
            final(self).tasks@ == old(self).tasks@,
            valid_login(*req) ==> (r matches Some(t) && t@ == "session-token-"@ + suffix@
                && final(self).sessions@ == old(self).sessions@.insert(t@, ())),
            !valid_login(*req) ==> r is None && final(self).sessions@ == old(self).sessions@,
    {
        let ok = str_eq(req.user_name.as_str(), "admin") && match &req.password {
            Some(p) => str_eq(p.as_str(), "password"),
            None => false,
        };
        if !ok {
            return None;
        }
        let token = concat2("session-token-", suffix);
        self.sessions.insert(token.clone(), ());
        Some(token)
    }

    /// Opens a session for valid credentials, with a fresh random token.
    pub fn login(&mut self, req: &LoginRequest) -> (r: Option<String>)
        requires
            old(self).wf(),
        ensures
            final(self).wf(),
            final(self).networks@ == old(self).networks@,
            final(self).server_profiles@ == old(self).server_profiles@,
            final(self).tasks@ == old(self).tasks@,
            valid_login(*req) ==> (r matches Some(t) && final(self).sessions@ == old(
                self,
            ).sessions@.insert(t@, ()) && exists|u: Seq<char>|
                u.len() == 36 && t@ == #[trigger] ("session-token-"@ + u)),
            !valid_login(*req) ==> r is None && final(self).sessions@ == old(self).sessions@,
    {
        let suffix = new_uuid();
        self.login_with_suffix(req, suffix.as_str())
    }

    /// A request may pass: its path needs no session, or its `auth` token is a session.
    pub fn is_authorized(&self, path: &str, token: Option<&str>) -> (r: bool)
        requires
            self.wf(),
        ensures
            r == (open_path(path@) || (token matches Some(t) && self.sessions@.contains_key(t@))),
    {
        if str_eq(path, "/health") || str_eq(path, "/") || str_eq(path, "/rest/login-sessions") {
            return true;
        }
        match token {
            Some(t) => self.sessions.contains_key(t),
            None => false,
        }
    }

    /// The networks, in the order they were created, that pass the filter.
    pub fn list_networks(&self, filter: Option<&str>) -> (v: Vec<EthernetNetwork>)
        requires
            self.wf(),
        ensures
            v@ == self.networks.values().filter(passes_filter(filter_vlan(
                match filter {
                    Some(f) => Some(f@),
                    None => None,
                },
            ))),
    {
        let vlan = parse_network_filter(filter);
        let ghost pred = passes_filter(vlan);
        let ghost vals = self.networks.values();
        let n = self.networks.len();
        let mut out: Vec<EthernetNetwork> = Vec::new();
        let mut i: usize = 0;
        proof {
            reveal(Seq::filter);
            assert(vals.take(0) =~= Seq::<EthernetNetwork>::empty());
            assert(vals.take(0).filter(pred) =~= Seq::<EthernetNetwork>::empty());
        }
        while i < n
            invariant
                i <= n,
                n == vals.len(),
                vals == self.networks.values(),
                pred == passes_filter(vlan),
                self.wf(),
                out@ == vals.take(i as int).filter(pred),
            decreases n - i,
        {
            let net = self.networks.value_at(i);
            proof {
                lemma_filter_take(vals, pred, i as int);
            }
            let keep = match vlan {
                None => true,
                Some(v) => net.vlan_id == v,
            };
            proof {
                assert(*net == vals[i as int]);
                assert(passes(vlan, vals[i as int]) == keep);
                assert(pred(vals[i as int]) == passes(vlan, vals[i as int]));
            }
            if keep {
                out.push(net.clone());
            }
            i = i + 1;
        }
        proof {
            assert(vals.take(n as int) =~= vals);
        }
        out
    }

    /// Creates the network of a VLAN, unless one exists for it (the error message).
    pub fn create_network(&mut self, req: &CreateNetworkRequest) -> (r: Result<
        EthernetNetwork,
        String,
    >)
        requires
            old(self).wf(),
        ensures
            final(self).wf(),
            final(self).sessions@ == old(self).sessions@,
            final(self).server_profiles@ == old(self).server_profiles@,
            final(self).tasks@ == old(self).tasks@,
            (exists|k: Seq<char>| #[trigger]
                old(self).networks@.contains_key(k) && old(self).networks@[k].vlan_id
                    == req.vlan_id) ==> (r matches Err(m) && m@ == "Network with VLAN ID "@
                + decimal(req.vlan_id as nat) + " already exists."@ && final(self).networks@ == old(
                self,
            ).networks@),
            !(exists|k: Seq<char>| #[trigger]
                old(self).networks@.contains_key(k) && old(self).networks@[k].vlan_id
                    == req.vlan_id) ==> (r matches Ok(n) && n.resource_type@ == "ethernet-networkV4"@
                && n.name == req.name && n.vlan_id == req.vlan_id && n.uri@ == network_uri(
                req.vlan_id,
            ) && n.network_type@ == (match req.network_type {
                Some(t) => t@,
                None => "Tagged"@,
            }) && final(self).networks@ == old(self).networks@.insert(n.uri@, n)),
    {
        let n = self.networks.len();
        let ghost es = self.networks.entries();
        let mut i: usize = 0;
        while i < n
            invariant
                i <= n,
                n == es.len(),
                es == self.networks.entries(),
                self.wf(),
                forall|j: int| 0 <= j < i ==> es[j].1.vlan_id != req.vlan_id,
            decreases n - i,
        {
            if self.networks.value_at(i).vlan_id == req.vlan_id {
                proof {
                    lemma_entries_lookup(es, i as int);
                }
                let mut m = chars_of("Network with VLAN ID ");
                push_decimal(&mut m, req.vlan_id as u64);
                extend_str(&mut m, " already exists.");
                return Err(string_of(&m));
            }
            i = i + 1;
        }
        proof {
            assert forall|k: Seq<char>| #[trigger]
                self.networks@.contains_key(k) implies self.networks@[k].vlan_id != req.vlan_id by {
                let j = lemma_entries_find(es, k);
                lemma_entries_lookup(es, j);
            }
        }
        let mut u = chars_of("/rest/ethernet-networks/vlan-");
        push_decimal(&mut u, req.vlan_id as u64);
        let uri = string_of(&u);
        let network_type = match &req.network_type {
            Some(t) => t.clone(),
            None => String::from_str("Tagged"),
        };
        let net = EthernetNetwork {
            resource_type: String::from_str("ethernet-networkV4"),
            name: req.name.clone(),
            vlan_id: req.vlan_id,
            uri: uri.clone(),
            network_type,
        };
        self.networks.insert(uri, net.clone());
        Ok(net)
    }

    /// The server profiles, in the order they were added.
    pub fn list_server_profiles(&self) -> (v: Vec<ServerProfile>)
        requires
            self.wf(),
        ensures
            v@.len() == self.server_profiles.values().len(),
            forall|i: int|
                0 <= i < v@.len() ==> same_profile(#[trigger] v@[i], self.server_profiles.values()[i]),
    {
        let n = self.server_profiles.len();
        let mut out: Vec<ServerProfile> = Vec::new();
        let mut i: usize = 0;
        while i < n
            invariant
                i <= n,
                n == self.server_profiles.values().len(),
                out@.len() == i,
                forall|j: int|
                    0 <= j < i ==> same_profile(#[trigger] out@[j], self.server_profiles.values()[j]),
            decreases n - i,
        {
            out.push(self.server_profiles.value_at(i).clone());
            i = i + 1;
        }
        out
    }

    /// The server profile with ID `id`, or the not-found message.
    pub fn get_server_profile(&self, id: &str) -> (r: Result<ServerProfile, String>)
        requires
            self.wf(),
        ensures
            match r {
                Ok(p) => self.server_profiles@.contains_key(profile_uri(id@)) && same_profile(
                    p,
                    self.server_profiles@[profile_uri(id@)],
                ),
                Err(m) => !self.server_profiles@.contains_key(profile_uri(id@)) && m@
                    == "Server profile not found: "@ + profile_uri(id@),
            },
    {
        let uri = concat2("/rest/server-profiles/", id);
        match self.server_profiles.get(uri.as_str()) {
            Some(p) => Ok(p.clone()),
            None => Err(concat2("Server profile not found: ", uri.as_str())),
        }
    }

    /// Replaces the server profile with ID `id` and records a completed task
    /// `/rest/tasks/task-<suffix>` for the update; the not-found message if there is no
    /// such profile.
    pub fn update_server_profile_with_task(
        &mut self,
        id: &str,
        payload: ServerProfile,
        suffix: &str,
    ) -> (r: Result<Task, String>)
        requires
            old(self).wf(),
        ensures
            final(self).wf(),
            final(self).sessions@ == old(self).sessions@,
            final(self).networks@ == old(self).networks@,
            old(self).server_profiles@.contains_key(profile_uri(id@)) ==> (r matches Ok(t)
                && t.resource_type@ == "Task"@ && t.uri@ == task_uri("task-"@ + suffix@)
                && t.task_state@ == "Completed"@ && final(self).server_profiles@ == old(
                self,
            ).server_profiles@.insert(profile_uri(id@), payload) && final(self).tasks@ == old(
                self,
            ).tasks@.insert(t.uri@, t)),
            !old(self).server_profiles@.contains_key(profile_uri(id@)) ==> (r matches Err(m) && m@
                == "Server profile not found: "@ + profile_uri(id@) && final(self).server_profiles@
                == old(self).server_profiles@ && final(self).tasks@ == old(self).tasks@),
    {
        let uri = concat2("/rest/server-profiles/", id);
        if !self.server_profiles.contains_key(uri.as_str()) {
            return Err(concat2("Server profile not found: ", uri.as_str()));
        }
        self.server_profiles.insert(uri, payload);
        let mut t = chars_of("/rest/tasks/task-");
        extend_str(&mut t, suffix);
        let turi = string_of(&t);
        proof {
            reveal_strlit("/rest/tasks/task-");
            reveal_strlit("/rest/tasks/");
            reveal_strlit("task-");
            assert(turi@ =~= task_uri("task-"@ + suffix@));
        }
        let task = Task {
            resource_type: String::from_str("Task"),
            uri: turi.clone(),
            task_state: String::from_str("Completed"),
        };
        self.tasks.insert(turi, task.clone());
        Ok(task)
    }

    /// Replaces the server profile with ID `id` and records a completed task for the
    /// update, under a fresh random ID.
    pub fn update_server_profile(&mut self, id: &str, payload: ServerProfile) -> (r: Result<
        Task,
        String,
    >)
        requires
            old(self).wf(),
        ensures
            final(self).wf(),
            final(self).sessions@ == old(self).sessions@,
            final(self).networks@ == old(self).networks@,
            old(self).server_profiles@.contains_key(profile_uri(id@)) ==> (r matches Ok(t)
                && t.resource_type@ == "Task"@ && (exists|u: Seq<char>|
                u.len() == 36 && t.uri@ == #[trigger] task_uri("task-"@ + u))
                && t.task_state@ == "Completed"@ && final(self).server_profiles@ == old(
                self,
            ).server_profiles@.insert(profile_uri(id@), payload) && final(self).tasks@ == old(
                self,
            ).tasks@.insert(t.uri@, t)),
            !old(self).server_profiles@.contains_key(profile_uri(id@)) ==> (r matches Err(m) && m@
                == "Server profile not found: "@ + profile_uri(id@) && final(self).server_profiles@
                == old(self).server_profiles@ && final(self).tasks@ == old(self).tasks@),
    {
        let suffix = new_uuid();
        self.update_server_profile_with_task(id, payload, suffix.as_str())
    }

    /// The task with ID `id`, or the not-found message.
    pub fn get_task(&self, id: &str) -> (r: Result<Task, String>)
        requires
            self.wf(),
        ensures
            match r {
                Ok(t) => self.tasks@.contains_key(task_uri(id@)) && t == self.tasks@[task_uri(
                    id@,
                )],
                Err(m) => !self.tasks@.contains_key(task_uri(id@)) && m@ == "Task not found: "@
                    + task_uri(id@),
            },
    {
        let uri = concat2("/rest/tasks/", id);
        match self.tasks.get(uri.as_str()) {
            Some(t) => Ok(t.clone()),
            None => Err(concat2("Task not found: ", uri.as_str())),
        }
    }
}

/// Distinct slots have distinct profile URIs.
proof fn lemma_slot_uri_injective(a: u8, b: u8)
    requires
        a != b,
    ensures
        "/rest/server-profiles/profile-slot-"@ + decimal(a as nat) != "/rest/server-profiles/profile-slot-"@
            + decimal(b as nat),
{
    let p = "/rest/server-profiles/profile-slot-"@;
    if p + decimal(a as nat) == p + decimal(b as nat) {
        assert((p + decimal(a as nat)).skip(p.len() as int) =~= decimal(a as nat));
        assert((p + decimal(b as nat)).skip(p.len() as int) =~= decimal(b as nat));
        crate::text::lemma_decimal_injective(a as nat, b as nat);
    }
}

/// The generic check that guards the mock routes: the path needs no session, or an
/// `auth` header with a non-empty token is present.
pub fn auth_passes(path: &str, token: Option<&str>) -> (r: bool)
    ensures
        r == (open_path(path@) || (token matches Some(t) && t@.len() > 0)),
{
    if str_eq(path, "/health") || str_eq(path, "/") || str_eq(path, "/rest/login-sessions") {
        return true;
    }
    match token {
        Some(t) => !t.is_empty(),
        None => false,
    }
}

/// Once a network exists for a VLAN, creating another for that VLAN is refused.
pub proof fn lemma_duplicate_vlan_rejected(
    networks: Map<Seq<char>, EthernetNetwork>,
    net: EthernetNetwork,
    vlan_id: u16,
)
    requires
        net.vlan_id == vlan_id,
    ensures
        exists|k: Seq<char>| #[trigger]
            networks.insert(net.uri@, net).contains_key(k) && networks.insert(net.uri@, net)[k].vlan_id
                == vlan_id,
{
    assert(networks.insert(net.uri@, net).contains_key(net.uri@));
}

/// A token handed out by a login opens every path until the appliance forgets it.
pub proof fn lemma_login_authorizes(sessions: Map<Seq<char>, ()>, token: Seq<char>, path: Seq<char>)
    ensures
        open_path(path) || sessions.insert(token, ()).contains_key(token),
{
}

proof fn lemma_without_quotes_plain(s: Seq<char>)
    requires
        crate::text::lacks(s, '"'),
        crate::text::lacks(s, '\''),
    ensures
        without_quotes(s) == s,
    decreases s.len(),
{
    if s.len() > 0 {
        lemma_without_quotes_plain(s.drop_last());
        assert(s.drop_last().push(s.last()) =~= s);
    }
}

/// The filter `vlanId=<n>` selects exactly the networks of VLAN `n`, also with its
/// value quoted, for every VLAN ID.
pub proof fn lemma_filter_selects_vlan(vlan: u16)
    ensures
        filter_vlan(Some("vlanId="@ + decimal(vlan as nat))) == Some(vlan),
        filter_vlan(Some("vlanId=\""@ + decimal(vlan as nat) + "\""@)) == Some(vlan),
{
    reveal_strlit("vlanId=");
    reveal_strlit("vlanId=\"");
    reveal_strlit("\"");
    let d = decimal(vlan as nat);
    crate::text::lemma_decimal_lacks(vlan as nat, '"');
    crate::text::lemma_decimal_lacks(vlan as nat, '\'');
    let s = "vlanId="@ + d;
    assert(crate::text::lacks(s, '"'));
    assert(crate::text::lacks(s, '\''));
    lemma_without_quotes_plain(s);
    assert(s.take(7) =~= "vlanId="@);
    assert(s.skip(7) =~= d);
    crate::text::lemma_parse_decimal(vlan as nat, 65535);
    let q = "vlanId=\""@ + d + "\""@;
    assert(q.drop_last() =~= "vlanId=\""@ + d);
    assert(q.last() == '"');
    assert(without_quotes(q) == without_quotes("vlanId=\""@ + d));
    assert("vlanId=\""@ + d =~= "vlanId="@ + seq!['"'] + d);
    lemma_without_quotes_concat("vlanId="@, seq!['"'], d);
    assert(without_quotes(q) == s);
}

proof fn lemma_without_quotes_concat(a: Seq<char>, quote: Seq<char>, d: Seq<char>)
    requires
        crate::text::lacks(a, '"'),
        crate::text::lacks(a, '\''),
        crate::text::lacks(d, '"'),
        crate::text::lacks(d, '\''),
        quote == seq!['"'],
    ensures
        without_quotes(a + quote + d) == a + d,
    decreases d.len(),
{
    if d.len() == 0 {
        assert(a + quote + d =~= a.push('"'));
        assert((a + quote + d).drop_last() =~= a);
        lemma_without_quotes_plain(a);
    } else {
        assert((a + quote + d).drop_last() =~= a + quote + d.drop_last());
        lemma_without_quotes_concat(a, quote, d.drop_last());
        assert(a + d.drop_last() + seq![d.last()] =~= a + d);
    }
}

/// A created network's URI names its VLAN: after `/rest/ethernet-networks/vlan-` it parses
/// back to the VLAN ID, so distinct VLANs get distinct URIs.
pub proof fn lemma_network_uri_vlan(vlan: u16, other: u16)
    ensures
        parse_unsigned(network_uri(vlan).skip(29), 65535) == Ok::<nat, crate::text::IntErrorKind>(
            vlan as nat,
        ),
        vlan != other ==> network_uri(vlan) != network_uri(other),
{
    reveal_strlit("/rest/ethernet-networks/vlan-");
    assert(network_uri(vlan).skip(29) =~= decimal(vlan as nat));
    crate::text::lemma_parse_decimal(vlan as nat, 65535);
    if vlan != other {
        assert(network_uri(other).skip(29) =~= decimal(other as nat));
        crate::text::lemma_decimal_injective(vlan as nat, other as nat);
    }
}

} // verus!
