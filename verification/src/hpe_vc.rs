//! HPE Virtual Connect through the OneView REST API: session handling, request paths,
//! the answers that end a call, and the server-profile edits that bind a tenant VLAN to
//! a blade slot's primary connection.
use vstd::prelude::*;

use crate::hpe_oneview::{clone_connections, Connection, ServerProfile};
use crate::text::{chars_of, concat2, decimal, extend_str, push_decimal, str_eq, string_of};
use vstd::utf8::encode_utf8;

verus! {

/// Why a call to OneView failed.
#[derive(Debug)]
pub enum NetworkError {
    /// Login refused.
    Authentication(String),
    /// The HTTP exchange failed (the transport's message).
    Http(String),
    /// OneView answered with an error status.
    Api { code: String, message: String },
    /// A resource is missing.
    NotFound(String),
    /// A body could not be read as JSON (the parser's message).
    Json(String),
    /// Anything else.
    Other(String),
}

/// The text of an error.
pub open spec fn error_text(e: NetworkError) -> Seq<char> {
    match e {
        NetworkError::Authentication(m) => "Authentication failed: "@ + m@,
        NetworkError::Http(m) => "HTTP request failed: "@ + m@,
        NetworkError::Api { code, message } => "API error code "@ + code@ + ": "@ + message@,
        NetworkError::NotFound(m) => "Resource not found: "@ + m@,
        NetworkError::Json(m) => "JSON processing error: "@ + m@,
        NetworkError::Other(m) => "Unexpected error: "@ + m@,
    }
}

impl NetworkError {
    /// The text of this error.
    pub fn message(&self) -> (s: String)
        ensures
            s@ == error_text(*self),
    {
        match self {
            NetworkError::Authentication(m) => concat2("Authentication failed: ", m.as_str()),
            NetworkError::Http(m) => concat2("HTTP request failed: ", m.as_str()),
            NetworkError::Api { code, message } => {
                let mut v = chars_of("API error code ");
                extend_str(&mut v, code.as_str());
                extend_str(&mut v, ": ");
                extend_str(&mut v, message.as_str());
                string_of(&v)
            },
            NetworkError::NotFound(m) => concat2("Resource not found: ", m.as_str()),
            NetworkError::Json(m) => concat2("JSON processing error: ", m.as_str()),
            NetworkError::Other(m) => concat2("Unexpected error: ", m.as_str()),
        }
    }
}

/// Bytes that a URL component keeps as they are: ASCII letters and digits, `-`, `.`,
/// `_`, `~`.
pub open spec fn url_safe(b: u8) -> bool {
    (48 <= b <= 57) || (65 <= b <= 90) || (97 <= b <= 122) || b == 45 || b == 46 || b == 95
        || b == 126
}

/// An upper-case hexadecimal digit.
pub open spec fn hex_upper(d: u8) -> char {
    if d < 10 {
        (48 + d) as char
    } else {
        (55 + d) as char
    }
}

/// Percent-encoding of bytes: safe bytes stay, every other byte becomes `%XX`.
pub open spec fn spec_url_encode(bs: Seq<u8>) -> Seq<char>
    decreases bs.len(),
{
    if bs.len() == 0 {
        Seq::empty()
    } else {
        let b = bs.last();
        spec_url_encode(bs.drop_last()) + if url_safe(b) {
            seq![b as char]
        } else {
            seq!['%', hex_upper(b / 16), hex_upper(b % 16)]
        }
    }
}

/// Percent-encodes the UTF-8 bytes of `s` (`urlencoding::encode`): every byte but ASCII
/// letters, digits, `-`, `.`, `_` and `~` becomes `%` and two upper-case hex digits.
#[verifier::external_body]
fn url_encode(s: &str) -> (r: String)
    ensures
        r@ == spec_url_encode(encode_utf8(s@)),
{
    urlencoding::encode(s).into_owned()
}

/// The path that searches the networks for a VLAN.
pub fn network_filter_path(vlan_id: u16) -> (p: String)
    ensures
        p@ == "/rest/ethernet-networks?filter="@ + spec_url_encode(
            encode_utf8("vlanId="@ + decimal(vlan_id as nat)),
        ),
{
    let mut f = chars_of("vlanId=");
    push_decimal(&mut f, vlan_id as u64);
    let filter = string_of(&f);
    let enc = url_encode(filter.as_str());
    concat2("/rest/ethernet-networks?filter=", enc.as_str())
}

/// The name given to the network created for a tenant VLAN.
pub fn tenant_network_name(vlan_id: u16) -> (n: String)
    ensures
        n@ == "Tenant-VLAN-"@ + decimal(vlan_id as nat),
{
    let mut v = chars_of("Tenant-VLAN-");
    push_decimal(&mut v, vlan_id as u64);
    string_of(&v)
}

/// The server profile of a blade slot.
pub open spec fn spec_profile_path(slot: u8) -> Seq<char> {
    "/rest/server-profiles/profile-slot-"@ + decimal(slot as nat)
}

/// The server profile path of a blade slot.
pub fn profile_path(slot: u8) -> (p: String)
    ensures
        p@ == spec_profile_path(slot),
{
    let mut v = chars_of("/rest/server-profiles/profile-slot-");
    push_decimal(&mut v, slot as u64);
    string_of(&v)
}

/// An HTTP status in the success class.
pub open spec fn is_success(status: u16) -> bool {
    200 <= status <= 299
}

/// The error of a refused login: its status (as displayed) and body.
pub fn login_failure(status: &str, body: &str) -> (e: NetworkError)
    ensures
        e matches NetworkError::Authentication(m) && m@ == "Login returned status "@ + status@
            + ": "@ + body@,
{
    let mut v = chars_of("Login returned status ");
    extend_str(&mut v, status);
    extend_str(&mut v, ": ");
    extend_str(&mut v, body);
    NetworkError::Authentication(string_of(&v))
}

/// A request answered `401 Unauthorized` is sent again, with a new session, while a retry
/// is left.
pub fn should_retry(status: u16, retries_left: u32) -> (r: bool)
    ensures
        r == (status == 401 && retries_left > 0),
{
    status == 401 && retries_left > 0
}

/// What a task's state says: `Completed` ends the wait, `Error`, `Failed` and
/// `Terminated` fail it, anything else means poll again (`None`).
pub fn task_state_outcome(state: &str) -> (r: Option<Result<(), NetworkError>>)
    ensures
        state@ == "Completed"@ ==> r matches Some(Ok(())),
        (state@ == "Error"@ || state@ == "Failed"@ || state@ == "Terminated"@) ==> (r matches Some(
            Err(NetworkError::Other(m)),
        ) && m@ == "OneView task failed: "@ + state@),
        !(state@ == "Completed"@ || state@ == "Error"@ || state@ == "Failed"@ || state@
            == "Terminated"@) ==> r is None,
{
    proof {
        reveal_strlit("Completed");
        reveal_strlit("Error");
        reveal_strlit("Failed");
        reveal_strlit("Terminated");
        assert("Error"@.len() != "Completed"@.len());
        assert("Failed"@.len() != "Completed"@.len());
        assert("Terminated"@[0] != "Completed"@[0]);
    }
    if str_eq(state, "Completed") {
        Some(Ok(()))
    } else if str_eq(state, "Error") || str_eq(state, "Failed") || str_eq(state, "Terminated") {
        Some(Err(NetworkError::Other(concat2("OneView task failed: ", state))))
    } else {
        None
    }
}

/// The error for a task whose status could not be fetched.
pub fn task_fetch_failure(status: &str) -> (e: NetworkError)
    ensures
        e matches NetworkError::Other(m) && m@ == "Failed to fetch task status. Status: "@
            + status@,
{
    NetworkError::Other(concat2("Failed to fetch task status. Status: ", status))
}

/// The error for a task still running after the last poll.
pub fn task_timeout(task_uri: &str) -> (e: NetworkError)
    ensures
        e matches NetworkError::Other(m) && m@ == "Timeout waiting for OneView task "@ + task_uri@
            + " to complete"@,
{
    let mut v = chars_of("Timeout waiting for OneView task ");
    extend_str(&mut v, task_uri);
    extend_str(&mut v, " to complete");
    NetworkError::Other(string_of(&v))
}

/// The error for an answer with an error status: its code (as displayed) and a message.
pub fn api_error(code: &str, message: &str) -> (e: NetworkError)
    ensures
        e matches NetworkError::Api { code: c, message: m } && c@ == code@ && m@ == message@,
{
    NetworkError::Api { code: code.to_owned(), message: message.to_owned() }
}

/// What the answer to fetching a slot's server profile means: `404` is a missing
/// profile, another non-success status an API error.
pub fn profile_fetch_outcome(status: u16, status_text: &str, slot: u8) -> (r: Result<
    (),
    NetworkError,
>)
    ensures
        status == 404 ==> (r matches Err(NetworkError::NotFound(m)) && m@
            == "Server profile for slot "@ + decimal(slot as nat) + " not found at "@
            + spec_profile_path(slot)),
        status != 404 && !is_success(status) ==> (r matches Err(
            NetworkError::Api { code: c, message: m },
        ) && c@ == status_text@ && m@ == "Failed to fetch server profile"@),
        is_success(status) ==> r is Ok,
{
    if status == 404 {
        let mut v = chars_of("Server profile for slot ");
        push_decimal(&mut v, slot as u64);
        extend_str(&mut v, " not found at ");
        let p = profile_path(slot);
        extend_str(&mut v, p.as_str());
        return Err(NetworkError::NotFound(string_of(&v)));
    }
    if !(200 <= status && status <= 299) {
        return Err(api_error(status_text, "Failed to fetch server profile"));
    }
    Ok(())
}

/// What the answer to updating a server profile means: `202 Accepted` carries a task to
/// poll (`Ok(true)`), another success status is done (`Ok(false)`), anything else is an
/// API error.
pub fn profile_update_outcome(status: u16, status_text: &str) -> (r: Result<bool, NetworkError>)
    ensures
        status == 202 ==> r == Ok::<bool, NetworkError>(true),
        status != 202 && is_success(status) ==> r == Ok::<bool, NetworkError>(false),
        !is_success(status) ==> (r matches Err(NetworkError::Api { code: c, message: m }) && c@
            == status_text@ && m@ == "Failed to update server profile"@),
{
    if status == 202 {
        Ok(true)
    } else if 200 <= status && status <= 299 {
        Ok(false)
    } else {
        Err(api_error(status_text, "Failed to update server profile"))
    }
}

/// The primary connection: named `FlexNIC-1a`, or with ID 1.
pub open spec fn is_primary(c: Connection) -> bool {
    c.name@ == "FlexNIC-1a"@ || c.id == 1
}

/// The position of the first primary connection at or after `i`.
pub open spec fn primary_from(cs: Seq<Connection>, i: int) -> Option<int>
    decreases cs.len() - i,
{
    if i < 0 || i >= cs.len() {
        None
    } else if is_primary(cs[i]) {
        Some(i)
    } else {
        primary_from(cs, i + 1)
    }
}

/// The position of the first primary connection.
pub open spec fn primary_index(cs: Seq<Connection>) -> Option<int> {
    primary_from(cs, 0)
}

/// `after` is `before` with the network of the connection at `i` set to `uri` (`Some`) or
/// cleared (`None`).
pub open spec fn set_network_at(
    before: Seq<Connection>,
    after: Seq<Connection>,
    i: int,
    uri: Option<Seq<char>>,
) -> bool {
    &&& after.len() == before.len()
    &&& 0 <= i < before.len()
    &&& forall|j: int| 0 <= j < before.len() && j != i ==> #[trigger] after[j] == before[j]
    &&& after[i].id == before[i].id
    &&& after[i].name == before[i].name
    &&& match uri {
        Some(u) => after[i].network_uri matches Some(s) && s@ == u,
        None => after[i].network_uri is None,
    }
}

proof fn lemma_primary_from(cs: Seq<Connection>, i: int)
    requires
        0 <= i <= cs.len(),
        forall|j: int| 0 <= j < i ==> !is_primary(#[trigger] cs[j]),
    ensures
        primary_index(cs) == primary_from(cs, i),
    decreases i,
{
    if i > 0 {
        lemma_primary_from(cs, i - 1);
    }
}

/// Finds the primary connection.
fn find_primary(cs: &Vec<Connection>) -> (r: Option<usize>)
    ensures
        match r {
            Some(i) => i < cs@.len() && primary_index(cs@) == Some(i as int),
            None => primary_index(cs@) is None,
        },
{
    let mut i: usize = 0;
    while i < cs.len()
        invariant
            i <= cs.len(),
            forall|j: int| 0 <= j < i ==> !is_primary(#[trigger] cs@[j]),
        decreases cs.len() - i,
    {
        proof {
            reveal_strlit("FlexNIC-1a");
        }
        if str_eq(cs[i].name.as_str(), "FlexNIC-1a") || cs[i].id == 1 {
            proof {
                lemma_primary_from(cs@, i as int);
            }
            return Some(i);
        }
        i = i + 1;
    }
    proof {
        lemma_primary_from(cs@, i as int);
    }
    None
}

/// Points the primary connection of a profile at a network. Tells whether there was a
/// primary connection; the profile is unchanged when there was none.
pub fn assign_primary_network(profile: &mut ServerProfile, network_uri: &str) -> (modified: bool)
    ensures
        final(profile).resource_type == old(profile).resource_type,
        final(profile).name == old(profile).name,
        final(profile).uri == old(profile).uri,
        final(profile).server_hardware_uri == old(profile).server_hardware_uri,
        match primary_index(old(profile).connections@) {
            Some(i) => modified && set_network_at(
                old(profile).connections@,
                final(profile).connections@,
                i,
                Some(network_uri@),
            ),
            None => !modified && final(profile).connections@ == old(profile).connections@,
        },
{
    match find_primary(&profile.connections) {
        None => false,
        Some(i) => {
            let old_c = clone_connections(&profile.connections);
            let c = Connection {
                id: old_c[i].id,
                name: old_c[i].name.clone(),
                network_uri: Some(network_uri.to_owned()),
            };
            profile.connections.set(i, c);
            true
        },
    }
}

/// Clears the network of the primary connection of a profile. Tells whether that changed
/// the profile: a primary connection with a network.
pub fn clear_primary_network(profile: &mut ServerProfile) -> (modified: bool)
    ensures
        final(profile).resource_type == old(profile).resource_type,
        final(profile).name == old(profile).name,
        final(profile).uri == old(profile).uri,
        final(profile).server_hardware_uri == old(profile).server_hardware_uri,
        match primary_index(old(profile).connections@) {
            Some(i) => if old(profile).connections@[i].network_uri is Some {
                modified && set_network_at(
                    old(profile).connections@,
                    final(profile).connections@,
                    i,
                    None,
                )
            } else {
                !modified && final(profile).connections@ == old(profile).connections@
            },
            None => !modified && final(profile).connections@ == old(profile).connections@,
        },
{
    match find_primary(&profile.connections) {
        None => false,
        Some(i) => {
            if profile.connections[i].network_uri.is_none() {
                return false;
            }
            let old_c = clone_connections(&profile.connections);
            let c = Connection { id: old_c[i].id, name: old_c[i].name.clone(), network_uri: None };
            profile.connections.set(i, c);
            true
        },
    }
}

/// Binds a slot's profile to a network: the primary connection is pointed at it, or the
/// error says the profile has none.
pub fn provision_profile(profile: &mut ServerProfile, network_uri: &str, slot: u8) -> (r: Result<
    (),
    NetworkError,
>)
    ensures
        final(profile).resource_type == old(profile).resource_type,
        final(profile).name == old(profile).name,
        final(profile).uri == old(profile).uri,
        final(profile).server_hardware_uri == old(profile).server_hardware_uri,
        match primary_index(old(profile).connections@) {
            Some(i) => r is Ok && set_network_at(
                old(profile).connections@,
                final(profile).connections@,
                i,
                Some(network_uri@),
            ),
            None => (r matches Err(NetworkError::Other(m)) && m@
                == "Could not find primary connection (FlexNIC-1a) in server profile for slot "@
                + decimal(slot as nat)) && final(profile).connections@ == old(profile).connections@,
        },
{
    if assign_primary_network(profile, network_uri) {
        Ok(())
    } else {
        let mut v = chars_of(
            "Could not find primary connection (FlexNIC-1a) in server profile for slot ",
        );
        push_decimal(&mut v, slot as u64);
        Err(NetworkError::Other(string_of(&v)))
    }
}

/// Clearing the network that provisioning set gives back the profile's connections with
/// the primary one unbound: every other connection, and the primary one's ID and name,
/// are as before. When the primary connection had no network before, the connections
/// are exactly as before.
pub proof fn lemma_teardown_undoes_provision(
    c0: Seq<Connection>,
    c1: Seq<Connection>,
    c2: Seq<Connection>,
    uri: Seq<char>,
)
    requires
        primary_index(c0) matches Some(i) && set_network_at(c0, c1, i, Some(uri)),
        primary_index(c1) matches Some(i) && set_network_at(c1, c2, i, None),
    ensures
        primary_index(c0) matches Some(i) && set_network_at(c0, c2, i, None),
        primary_index(c0) matches Some(i) && c0[i].network_uri is None ==> c2 =~= c0,
{
    let i = primary_index(c0)->Some_0;
    lemma_primary_same(c0, c1, i);
    if c0[i].network_uri is None {
        assert forall|j: int| 0 <= j < c0.len() implies c2[j] == c0[j] by {
            if j != i {
                assert(c2[j] == c1[j]);
            }
        }
    }
}

/// Changing the network of a connection keeps which connection is primary.
pub proof fn lemma_primary_same(c0: Seq<Connection>, c1: Seq<Connection>, i: int)
    requires
        primary_index(c0) == Some(i),
        exists|u: Option<Seq<char>>| set_network_at(c0, c1, i, u),
    ensures
        primary_index(c1) == Some(i),
{
    let u = choose|u: Option<Seq<char>>| set_network_at(c0, c1, i, u);
    lemma_primary_index_shape(c0, i);
    assert forall|j: int| 0 <= j < i implies !is_primary(#[trigger] c1[j]) by {
        assert(c1[j] == c0[j]);
    }
    assert(is_primary(c1[i]));
    lemma_primary_from(c1, i);
}

/// The first primary connection is primary, and none before it is.
pub proof fn lemma_primary_index_shape(cs: Seq<Connection>, i: int)
    requires
        primary_index(cs) == Some(i),
    ensures
        0 <= i < cs.len(),
        is_primary(cs[i]),
        forall|j: int| 0 <= j < i ==> !is_primary(#[trigger] cs[j]),
{
    lemma_primary_from_shape(cs, 0, i);
}

proof fn lemma_primary_from_shape(cs: Seq<Connection>, k: int, i: int)
    requires
        0 <= k,
        primary_from(cs, k) == Some(i),
    ensures
        k <= i < cs.len(),
        is_primary(cs[i]),
        forall|j: int| k <= j < i ==> !is_primary(#[trigger] cs[j]),
    decreases cs.len() - k,
{
    if k < cs.len() && !is_primary(cs[k]) {
        lemma_primary_from_shape(cs, k + 1, i);
    }
}

/// Provisioning twice with the same network gives the connections of provisioning once.
pub proof fn lemma_provision_idempotent(
    c0: Seq<Connection>,
    c1: Seq<Connection>,
    c2: Seq<Connection>,
    uri: Seq<char>,
)
    requires
        primary_index(c0) matches Some(i) && set_network_at(c0, c1, i, Some(uri)),
        primary_index(c1) matches Some(i) && set_network_at(c1, c2, i, Some(uri)),
    ensures
        primary_index(c0) matches Some(i) && set_network_at(c0, c2, i, Some(uri)),
{
    let i = primary_index(c0)->Some_0;
    lemma_primary_same(c0, c1, i);
}

/// The session state of a Virtual Connect client.
pub struct VcSession {
    /// Base URL of the OneView appliance.
    pub endpoint: String,
    /// Login user name.
    pub username: String,
    /// Login password.
    pub password: String,
    /// Value of the `X-API-Version` header.
    pub api_version: String,
    /// The session token, once logged in.
    pub session_token: Option<String>,
    /// Polling interval for asynchronous tasks, in milliseconds.
    pub poll_interval_ms: u64,
    /// Number of attempts for polling asynchronous tasks.
    pub poll_attempts: usize,
}

impl VcSession {
    /// A session not yet logged in, with API version 600 and tasks polled every 5 s up
    /// to 60 times.
    pub fn new(endpoint: String, username: String, password: String) -> (s: Self)
        ensures
            s.endpoint == endpoint,
            s.username == username,
            s.password == password,
            s.api_version@ == "600"@,
            s.session_token is None,
            s.poll_interval_ms == 5000,
            s.poll_attempts == 60,
    {
        VcSession {
            endpoint,
            username,
            password,
            api_version: String::from_str("600"),
            session_token: None,
            poll_interval_ms: 5000,
            poll_attempts: 60,
        }
    }

    /// Sets the session token (also to pre-seed one).
    pub fn preseed_session_token(&mut self, token: String)
        ensures
            final(self).session_token == Some(token),
            final(self).endpoint == old(self).endpoint,
            final(self).username == old(self).username,
            final(self).password == old(self).password,
            final(self).api_version == old(self).api_version,
            final(self).poll_interval_ms == old(self).poll_interval_ms,
            final(self).poll_attempts == old(self).poll_attempts,
    {
        self.session_token = Some(token);
    }

    /// Forgets the session token, so the next request logs in again.
    pub fn clear_token(&mut self)
        ensures
            final(self).session_token is None,
            final(self).endpoint == old(self).endpoint,
            final(self).username == old(self).username,
            final(self).password == old(self).password,
            final(self).api_version == old(self).api_version,
            final(self).poll_interval_ms == old(self).poll_interval_ms,
            final(self).poll_attempts == old(self).poll_attempts,
    {
        self.session_token = None;
    }

    /// The cached session token.
    pub fn cached_token(&self) -> (t: Option<String>)
        ensures
            t == self.session_token,
    {
        crate::hpe_oneview::clone_opt_string(&self.session_token)
    }

    /// The URL of a path on the appliance.
    pub fn url(&self, path: &str) -> (u: String)
        ensures
            u@ == self.endpoint@ + path@,
    {
        concat2(self.endpoint.as_str(), path)
    }

    /// The URL that opens a session.
    pub fn login_url(&self) -> (u: String)
        ensures
            u@ == self.endpoint@ + "/rest/login-sessions"@,
    {
        self.url("/rest/login-sessions")
    }
}

/// A slot's server profile path names the slot: after `/rest/server-profiles/profile-slot-`
/// it parses back to the slot number, so distinct slots have distinct profiles.
pub proof fn lemma_profile_path_slot(slot: u8, other: u8)
    ensures
        crate::text::parse_unsigned(spec_profile_path(slot).skip(35), 255) == Ok::<
            nat,
            crate::text::IntErrorKind,
        >(slot as nat),
        slot != other ==> spec_profile_path(slot) != spec_profile_path(other),
{
    reveal_strlit("/rest/server-profiles/profile-slot-");
    assert(spec_profile_path(slot).skip(35) =~= decimal(slot as nat));
    crate::text::lemma_parse_decimal(slot as nat, 255);
    if slot != other {
        assert(spec_profile_path(other).skip(35) =~= decimal(other as nat));
        crate::text::lemma_decimal_injective(slot as nat, other as nat);
    }
}

} // verus!
