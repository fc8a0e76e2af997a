//! Signed, single-use attestation tokens of the form `node_id:timestamp:signature`.
use hmac::digest::KeyInit;
use hmac::{Hmac, Mac};
use vstd::prelude::*;
use vstd::utf8::encode_utf8;

use crate::clock::unix_time_secs;
use crate::strmap::{at_least, StrMap};
use crate::text::{
    lacks, lemma_decimal_lacks, lemma_parse_decimal, lemma_split_join, lemma_split_single,
    chars_eq, chars_of, chars_split, decimal, extend_chars, int_error_message, int_error_string,
    parse_unsigned, parse_unsigned_chars, push_decimal, split_on, string_of, views,
};

verus! {

/// HMAC-SHA256 of `msg` under `key`, as computed by the `hmac` and `sha2` crates.
pub uninterp spec fn spec_hmac_sha256(key: Seq<u8>, msg: Seq<u8>) -> Seq<u8>;

/// The HMAC-SHA256 tag of `msg` under `key` (`Hmac::<Sha256>::new_from_slice`, `update`,
/// `finalize`). The contract claims that the tag is a function of key and message alone
/// and is 32 bytes long; `new_from_slice` accepts keys of every length.
#[verifier::external_body]
fn hmac_sha256(key: &[u8], msg: &[u8]) -> (tag: Vec<u8>)
    ensures
        tag@ == spec_hmac_sha256(key@, msg@),
        tag@.len() == 32,
{
    match <Hmac<sha2::Sha256> as KeyInit>::new_from_slice(key) {
        Ok(mut mac) => {
            mac.update(msg);
            mac.finalize().into_bytes().to_vec()
        },
        Err(_) => Vec::new(),
    }
}

/// The lowercase hexadecimal digit for a value below sixteen.
pub open spec fn hex_char(d: nat) -> char {
    if d < 10 {
        (d + 48) as char
    } else {
        (d + 87) as char
    }
}

/// Lowercase hexadecimal encoding, two digits per byte, high digit first.
pub open spec fn spec_hex(b: Seq<u8>) -> Seq<char>
    decreases b.len(),
{
    if b.len() == 0 {
        Seq::<char>::empty()
    } else {
        spec_hex(b.drop_last()) + seq![hex_char((b.last() / 16) as nat), hex_char((b.last() % 16) as nat)]
    }
}

/// `hex::encode`: the contract states the lowercase encoding that the crate documents.
#[verifier::external_body]
fn hex_encode(bytes: &[u8]) -> (s: String)
    ensures
        s@ == spec_hex(bytes@),
{
    hex::encode(bytes)
}

/// The signed part of a token.
pub open spec fn spec_payload(node_id: Seq<char>, ts: Seq<char>) -> Seq<char> {
    node_id + seq![':'] + ts
}

/// The signature of a payload under a secret.
pub open spec fn spec_signature(secret: Seq<u8>, payload: Seq<char>) -> Seq<char> {
    spec_hex(spec_hmac_sha256(secret, encode_utf8(payload)))
}

/// The token generated for `node_id` at `now`.
pub open spec fn spec_token(secret: Seq<u8>, node_id: Seq<char>, now: u64) -> Seq<char> {
    spec_payload(node_id, decimal(now as nat)) + seq![':'] + spec_signature(
        secret,
        spec_payload(node_id, decimal(now as nat)),
    )
}

/// The signatures seen after accepting one with timestamp `ts` at `now`: older than a
/// minute before `now` are forgotten.
pub open spec fn seen_after(seen: Map<Seq<char>, u64>, sig: Seq<char>, ts: u64, now: u64) -> Map<
    Seq<char>,
    u64,
> {
    at_least(seen.insert(sig, ts), if now >= 60 { (now - 60) as u64 } else { 0 })
}

/// What validating `token` for `expected` at `now` answers, given the secret and the
/// signatures already seen.
pub open spec fn validate_outcome(
    secret: Seq<u8>,
    seen: Map<Seq<char>, u64>,
    token: Seq<char>,
    expected: Seq<char>,
    now: u64,
) -> Result<u64, Seq<char>> {
    let parts = split_on(token, ':');
    if parts.len() != 3 {
        Err("Malformed token format"@)
    } else if parts[0] != expected {
        Err("Token node_id mismatch"@)
    } else {
        match parse_unsigned(parts[1], u64::MAX as nat) {
            Err(k) => Err(int_error_message(k)),
            Ok(ts) => if now < ts || now - ts > 60 {
                Err("Token expired or invalid timestamp"@)
            } else if parts[2] != spec_signature(secret, spec_payload(parts[0], parts[1])) {
                Err("Invalid token signature"@)
            } else if seen.contains_key(parts[2]) {
                Err("Replayed token detected"@)
            } else {
                Ok(ts as u64)
            },
        }
    }
}

/// Manager responsible for generating, validating, and tracking token lifecycles to prevent replay attacks.
pub struct TokenManager {
    secret: Vec<u8>,
    // Signatures already accepted, with their timestamps, to enforce single use.
    seen_signatures: StrMap<u64>,
}

impl TokenManager {
    /// The HMAC secret.
    pub closed spec fn secret(&self) -> Seq<u8> {
        self.secret@
    }

    /// The accepted signatures still remembered, with their timestamps.
    pub closed spec fn seen(&self) -> Map<Seq<char>, u64> {
        self.seen_signatures@
    }

    /// The replay memory is well formed.
    pub closed spec fn wf(&self) -> bool {
        self.seen_signatures.wf()
    }

    /// Creates a new TokenManager with the specified HMAC secret.
    pub fn new(secret: Vec<u8>) -> (m: Self)
        ensures
            m.wf(),
            m.secret() == secret@,
            m.seen() == Map::<Seq<char>, u64>::empty(),
    {
        TokenManager { secret, seen_signatures: StrMap::new() }
    }

    fn sign(&self, payload: &String) -> (sig: String)
        ensures
            sig@ == spec_signature(self.secret(), payload@),
            sig@.len() == 64,
    {
        let bytes = payload.as_str().as_bytes();
        let tag = hmac_sha256(self.secret.as_slice(), bytes);
        proof {
            lemma_hex_len(tag@);
        }
        hex_encode(tag.as_slice())
    }

    /// Generates the signed token for `node_id` at time `now` (seconds since the Unix
    /// epoch): "node_id:timestamp:signature".
    pub fn generate_token_at(&self, node_id: &str, now: u64) -> (t: String)
        ensures
            t@ == spec_token(self.secret(), node_id@, now),
            spec_signature(self.secret(), spec_payload(node_id@, decimal(now as nat))).len() == 64,
    {
        let mut payload = chars_of(node_id);
        payload.push(':');
        push_decimal(&mut payload, now);
        let payload_s = string_of(&payload);
        proof {
            assert(payload@ =~= spec_payload(node_id@, decimal(now as nat)));
        }
        let sig = self.sign(&payload_s);
        let sig_chars = chars_of(sig.as_str());
        let mut out = payload;
        out.push(':');
        extend_chars(&mut out, &sig_chars);
        string_of(&out)
    }

    /// Generates a signed token for a given node_id at the current time.
    /// Returns a string formatted as "node_id:timestamp:signature".
    pub fn generate_token(&self, node_id: &str) -> (r: Result<String, String>)
        ensures
            r matches Ok(t) ==> exists|now: u64|
                t@ == #[trigger] spec_token(self.secret(), node_id@, now) && spec_signature(
                    self.secret(),
                    spec_payload(node_id@, decimal(now as nat)),
                ).len() == 64,
    {
        match unix_time_secs() {
            Ok(now) => Ok(self.generate_token_at(node_id, now)),
            Err(e) => Err(e),
        }
    }

    /// Validates a token at time `now`: verifies its node ID, checks the 60s expiration and the
    /// signature, and detects replays. An accepted signature is remembered; signatures whose
    /// timestamps are more than 60s before `now` are forgotten.
    pub fn validate_token_at(&mut self, token: &str, expected_node_id: &str, now: u64) -> (r: Result<(), String>)
        requires
            old(self).wf(),
        ensures
            final(self).wf(),
            final(self).secret() == old(self).secret(),
            match validate_outcome(old(self).secret(), old(self).seen(), token@, expected_node_id@, now) {
                Ok(ts) => r is Ok && final(self).seen() == seen_after(
                    old(self).seen(),
                    split_on(token@, ':')[2],
                    ts,
                    now,
                ),
                Err(msg) => r matches Err(e) && e@ == msg && final(self).seen() == old(self).seen(),
            },
    {
        let tv = chars_of(token);
        let parts = chars_split(&tv, ':');
        proof {
            assert(views(parts@).len() == parts@.len());
        }
        if parts.len() != 3 {
            return Err(String::from_str("Malformed token format"));
        }
        proof {
            assert(views(parts@)[0] == parts@[0]@);
            assert(views(parts@)[1] == parts@[1]@);
            assert(views(parts@)[2] == parts@[2]@);
        }
        let expected = chars_of(expected_node_id);
        if !chars_eq(&parts[0], &expected) {
            return Err(String::from_str("Token node_id mismatch"));
        }
        let ts = match parse_unsigned_chars(&parts[1], u64::MAX) {
            Ok(v) => v,
            Err(k) => {
                return Err(int_error_string(k));
            },
        };
        if now < ts || now - ts > 60 {
            return Err(String::from_str("Token expired or invalid timestamp"));
        }
        let mut payload: Vec<char> = Vec::new();
        extend_chars(&mut payload, &parts[0]);
        payload.push(':');
        extend_chars(&mut payload, &parts[1]);
        proof {
            assert(payload@ =~= spec_payload(parts@[0]@, parts@[1]@));
        }
        let payload_s = string_of(&payload);
        let expected_sig = self.sign(&payload_s);
        let expected_sig_chars = chars_of(expected_sig.as_str());
        if !chars_eq(&parts[2], &expected_sig_chars) {
            return Err(String::from_str("Invalid token signature"));
        }
        let sig = string_of(&parts[2]);
        if self.seen_signatures.contains_key(sig.as_str()) {
            return Err(String::from_str("Replayed token detected"));
        }
        self.seen_signatures.insert(sig, ts);
        let cutoff: u64 = if now >= 60 {
            now - 60
        } else {
            0
        };
        self.seen_signatures.retain_at_least(cutoff);
        Ok(())
    }

    /// Validates a token signature, verifies node ID, checks 60s expiration, and detects replay attacks.
    pub fn validate_token(&mut self, token: &str, expected_node_id: &str) -> (r: Result<(), String>)
        requires
            old(self).wf(),
        ensures
            final(self).wf(),
            final(self).secret() == old(self).secret(),
            r is Ok ==> exists|now: u64| #[trigger]
                validate_outcome(old(self).secret(), old(self).seen(), token@, expected_node_id@, now)
                    is Ok && final(self).seen() == seen_after(
                    old(self).seen(),
                    split_on(token@, ':')[2],
                    validate_outcome(old(self).secret(), old(self).seen(), token@, expected_node_id@, now)->Ok_0,
                    now,
                ),
            split_on(token@, ':').len() != 3 ==> (r matches Err(e) && e@ == "Malformed token format"@),
            split_on(token@, ':').len() == 3 && split_on(token@, ':')[0] != expected_node_id@
                ==> (r matches Err(e) && e@ == "Token node_id mismatch"@),
            r is Err ==> final(self).seen() == old(self).seen(),
    {
        let tv = chars_of(token);
        let parts = chars_split(&tv, ':');
        proof {
            assert(views(parts@).len() == parts@.len());
        }
        if parts.len() != 3 {
            return Err(String::from_str("Malformed token format"));
        }
        proof {
            assert(views(parts@)[0] == parts@[0]@);
        }
        let expected = chars_of(expected_node_id);
        if !chars_eq(&parts[0], &expected) {
            return Err(String::from_str("Token node_id mismatch"));
        }
        let now = match unix_time_secs() {
            Ok(n) => n,
            Err(e) => {
                return Err(e);
            },
        };
        self.validate_token_at(token, expected_node_id, now)
    }
}

/// Hex encoding writes two digits per byte.
pub proof fn lemma_hex_len(b: Seq<u8>)
    ensures
        spec_hex(b).len() == 2 * b.len(),
    decreases b.len(),
{
    if b.len() > 0 {
        lemma_hex_len(b.drop_last());
    }
}

proof fn lemma_hex_lacks_colon(b: Seq<u8>)
    ensures
        lacks(spec_hex(b), ':'),
    decreases b.len(),
{
    if b.len() > 0 {
        lemma_hex_lacks_colon(b.drop_last());
        let hi = (b.last() / 16) as nat;
        let lo = (b.last() % 16) as nat;
        assert(hex_char(hi) != ':' && hex_char(lo) != ':') by {
            if hi < 10 {
                assert(((hi + 48) as char) as int == hi + 48);
            } else {
                assert(((hi + 87) as char) as int == hi + 87);
            }
            if lo < 10 {
                assert(((lo + 48) as char) as int == lo + 48);
            } else {
                assert(((lo + 87) as char) as int == lo + 87);
            }
        }
        let h = spec_hex(b);
        assert forall|i: int| 0 <= i < h.len() implies h[i] != ':' by {
            if i < spec_hex(b.drop_last()).len() {
                assert(h[i] == spec_hex(b.drop_last())[i]);
            }
        }
    }
}

/// The pieces of a generated token: node ID, timestamp, signature.
proof fn lemma_token_parts(secret: Seq<u8>, node_id: Seq<char>, t: u64)
    requires
        lacks(node_id, ':'),
    ensures
        split_on(spec_token(secret, node_id, t), ':') == seq![
            node_id,
            decimal(t as nat),
            spec_signature(secret, spec_payload(node_id, decimal(t as nat))),
        ],
{
    let d = decimal(t as nat);
    let sig = spec_signature(secret, spec_payload(node_id, d));
    lemma_decimal_lacks(t as nat, ':');
    lemma_hex_lacks_colon(spec_hmac_sha256(secret, encode_utf8(spec_payload(node_id, d))));
    assert(spec_token(secret, node_id, t) =~= node_id + seq![':'] + (d + seq![':'] + sig));
    lemma_split_join(node_id, ':', d + seq![':'] + sig);
    lemma_split_join(d, ':', sig);
    lemma_split_single(sig, ':');
    assert(seq![node_id] + (seq![d] + seq![sig]) =~= seq![node_id, d, sig]);
}

/// A token generated for a node at time `t` is accepted, for that node, at every time
/// within the following minute, unless its signature was already accepted (node IDs
/// hold no `:`).
pub proof fn lemma_fresh_token_accepted(
    secret: Seq<u8>,
    seen: Map<Seq<char>, u64>,
    node_id: Seq<char>,
    t: u64,
    now: u64,
)
    requires
        lacks(node_id, ':'),
        t <= now <= t + 60,
        !seen.contains_key(spec_signature(secret, spec_payload(node_id, decimal(t as nat)))),
    ensures
        validate_outcome(secret, seen, spec_token(secret, node_id, t), node_id, now) == Ok::<
            u64,
            Seq<char>,
        >(t),
{
    lemma_token_parts(secret, node_id, t);
    lemma_parse_decimal(t as nat, u64::MAX as nat);
}

/// An accepted token is refused as a replay when presented again within its minute.
pub proof fn lemma_replay_rejected(
    secret: Seq<u8>,
    seen: Map<Seq<char>, u64>,
    node_id: Seq<char>,
    t: u64,
    now: u64,
    later: u64,
)
    requires
        lacks(node_id, ':'),
        t <= now <= t + 60,
        t <= later <= t + 60,
        !seen.contains_key(spec_signature(secret, spec_payload(node_id, decimal(t as nat)))),
    ensures
        validate_outcome(
            secret,
            seen_after(
                seen,
                split_on(spec_token(secret, node_id, t), ':')[2],
                t,
                now,
            ),
            spec_token(secret, node_id, t),
            node_id,
            later,
        ) == Err::<u64, Seq<char>>("Replayed token detected"@),
{
    lemma_token_parts(secret, node_id, t);
    lemma_parse_decimal(t as nat, u64::MAX as nat);
}

/// A token generated for one node is refused for another.
pub proof fn lemma_other_node_rejected(
    secret: Seq<u8>,
    seen: Map<Seq<char>, u64>,
    node_id: Seq<char>,
    other: Seq<char>,
    t: u64,
    now: u64,
)
    requires
        lacks(node_id, ':'),
        other != node_id,
    ensures
        validate_outcome(secret, seen, spec_token(secret, node_id, t), other, now) == Err::<
            u64,
            Seq<char>,
        >("Token node_id mismatch"@),
{
    lemma_token_parts(secret, node_id, t);
}

/// A token more than a minute old is refused as expired.
pub proof fn lemma_expired_token_rejected(
    secret: Seq<u8>,
    seen: Map<Seq<char>, u64>,
    node_id: Seq<char>,
    t: u64,
    now: u64,
)
    requires
        lacks(node_id, ':'),
        now > t + 60 || now < t,
    ensures
        validate_outcome(secret, seen, spec_token(secret, node_id, t), node_id, now) == Err::<
            u64,
            Seq<char>,
        >("Token expired or invalid timestamp"@),
{
    lemma_token_parts(secret, node_id, t);
    lemma_parse_decimal(t as nat, u64::MAX as nat);
}

} // verus!
