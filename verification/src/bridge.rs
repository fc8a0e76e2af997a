//! Tenant networking: bridge and firewall-chain naming, MAC address parsing, and the
//! classification of permission failures.
use vstd::prelude::*;

use crate::text::{
    chars_of, chars_split, contains, decimal, extend_str, int_error_message,
    int_error_string, parse_hex_u8, parse_hex_u8_chars, push_decimal, split_on, str_contains,
    string_of, views, IntErrorKind,
};

verus! {

/// Bridge manager that only reports what it would do.
#[derive(Debug, Default)]
pub struct MockBridgeManager;

impl MockBridgeManager {
    /// Creates a new mock bridge manager.
    pub fn new() -> (m: Self) {
        MockBridgeManager
    }
}

/// Bridge manager that configures Linux bridges, TAP devices and nftables rules.
#[derive(Debug, Default)]
pub struct RealBridgeManager;

impl RealBridgeManager {
    /// Creates a new bridge manager.
    pub fn new() -> (m: Self) {
        RealBridgeManager
    }
}

/// The name of the tenant bridge of a VLAN.
pub open spec fn spec_bridge_name(vlan_id: u16) -> Seq<char> {
    "br-tenant-"@ + decimal(vlan_id as nat)
}

/// The name of the tenant bridge of a VLAN: `br-tenant-<vlan_id>`.
pub fn tenant_bridge_name(vlan_id: u16) -> (name: String)
    ensures
        name@ == spec_bridge_name(vlan_id),
{
    let mut v = chars_of("br-tenant-");
    push_decimal(&mut v, vlan_id as u64);
    string_of(&v)
}

/// The nftables chain that filters a TAP device: `filter-<tap_name>`.
pub fn filter_chain_name(tap_name: &str) -> (name: String)
    ensures
        name@ == "filter-"@ + tap_name@,
{
    let mut v = chars_of("filter-");
    extend_str(&mut v, tap_name);
    string_of(&v)
}

/// The octets read from the `:`-separated parts from position `i` on, or the first refusal.
pub open spec fn mac_octets(parts: Seq<Seq<char>>, i: int) -> Result<Seq<u8>, IntErrorKind>
    decreases parts.len() - i,
{
    if i < 0 || i >= parts.len() {
        Ok(Seq::<u8>::empty())
    } else {
        match parse_hex_u8(parts[i]) {
            Err(k) => Err(k),
            Ok(b) => match mac_octets(parts, i + 1) {
                Err(k) => Err(k),
                Ok(rest) => Ok(seq![b as u8] + rest),
            },
        }
    }
}

/// What parsing a MAC address gives.
pub open spec fn spec_parse_mac(mac: Seq<char>) -> Result<Seq<u8>, Seq<char>> {
    match mac_octets(split_on(mac, ':'), 0) {
        Err(k) => Err("Invalid MAC octet: "@ + int_error_message(k)),
        Ok(bs) => if bs.len() != 6 {
            Err("MAC address must be 6 octets"@)
        } else {
            Ok(bs)
        },
    }
}

/// Parses a MAC address written as `:`-separated hexadecimal octets; exactly six are needed.
pub fn parse_mac_address(allowed_mac: &str) -> (r: Result<Vec<u8>, String>)
    ensures
        match (r, spec_parse_mac(allowed_mac@)) {
            (Ok(v), Ok(bs)) => v@ == bs,
            (Err(e), Err(msg)) => e@ == msg,
            _ => false,
        },
{
    let text = chars_of(allowed_mac);
    let parts = chars_split(&text, ':');
    let ghost pv = views(parts@);
    let mut bytes: Vec<u8> = Vec::new();
    let mut i: usize = 0;
    proof {
        assert(pv.len() == parts@.len());
        assert(bytes@ + Seq::<u8>::empty() =~= bytes@);
    }
    while i < parts.len()
        invariant
            pv == views(parts@),
            pv == split_on(allowed_mac@, ':'),
            i <= parts@.len(),
            mac_octets(pv, 0) == (match mac_octets(pv, i as int) {
                Err(k) => Err::<Seq<u8>, IntErrorKind>(k),
                Ok(rest) => Ok(bytes@ + rest),
            }),
        decreases parts@.len() - i,
    {
        proof {
            assert(pv[i as int] == parts@[i as int]@);
        }
        match parse_hex_u8_chars(&parts[i]) {
            Err(k) => {
                let mut msg = chars_of("Invalid MAC octet: ");
                let ks = int_error_string(k);
                extend_str(&mut msg, ks.as_str());
                return Err(string_of(&msg));
            },
            Ok(b) => {
                let ghost old_bytes = bytes@;
                bytes.push(b);
                proof {
                    assert forall|rest: Seq<u8>| old_bytes + (seq![b] + rest) =~= bytes@ + rest by {}
                }
            },
        }
        i = i + 1;
    }
    proof {
        assert(bytes@ + Seq::<u8>::empty() =~= bytes@);
    }
    if bytes.len() != 6 {
        return Err(String::from_str("MAC address must be 6 octets"));
    }
    Ok(bytes)
}

/// The text says that an operation was not permitted.
pub open spec fn names_permission_failure(s: Seq<char>) -> bool {
    ||| contains(s, "PermissionDenied"@)
    ||| contains(s, "Permission denied"@)
    ||| contains(s, "Operation not permitted"@)
    ||| contains(s, "code: Some(-1)"@)
    ||| contains(s, "code: Some(-13)"@)
    ||| contains(s, "code: Some(NonZero(-1))"@)
    ||| contains(s, "code: Some(NonZero(-13))"@)
}

fn text_names_permission_failure(s: &str) -> (r: bool)
    ensures
        r == names_permission_failure(s@),
{
    str_contains(s, "PermissionDenied") || str_contains(s, "Permission denied") || str_contains(
        s,
        "Operation not permitted",
    ) || str_contains(s, "code: Some(-1)") || str_contains(s, "code: Some(-13)") || str_contains(
        s,
        "code: Some(NonZero(-1))",
    ) || str_contains(s, "code: Some(NonZero(-13))")
}

/// Whether an I/O failure means missing privileges: its kind is `PermissionDenied`, its
/// displayed or debug text names a permission failure (or netlink codes -1 or -13), or its
/// OS error code is EPERM (1) or EACCES (13).
pub fn is_permission_error(
    kind_is_permission_denied: bool,
    display: &str,
    debug: &str,
    raw_os_error: Option<i32>,
) -> (r: bool)
    ensures
        r == (kind_is_permission_denied || names_permission_failure(display@)
            || names_permission_failure(debug@) || raw_os_error == Some(1i32) || raw_os_error
            == Some(13i32)),
{
    if kind_is_permission_denied {
        return true;
    }
    if text_names_permission_failure(display) || text_names_permission_failure(debug) {
        return true;
    }
    match raw_os_error {
        Some(code) => code == 1 || code == 13,
        None => false,
    }
}

/// A tenant bridge's name names its VLAN: after `br-tenant-` it parses back to the VLAN
/// ID, so distinct VLANs get distinct bridges.
pub proof fn lemma_bridge_name_vlan(vlan_id: u16, other: u16)
    ensures
        spec_bridge_name(vlan_id).take(10) == "br-tenant-"@,
        crate::text::parse_unsigned(spec_bridge_name(vlan_id).skip(10), 65535) == Ok::<
            nat,
            IntErrorKind,
        >(vlan_id as nat),
        vlan_id != other ==> spec_bridge_name(vlan_id) != spec_bridge_name(other),
{
    reveal_strlit("br-tenant-");
    assert(spec_bridge_name(vlan_id).take(10) =~= "br-tenant-"@);
    assert(spec_bridge_name(vlan_id).skip(10) =~= decimal(vlan_id as nat));
    crate::text::lemma_parse_decimal(vlan_id as nat, 65535);
    if vlan_id != other {
        assert(spec_bridge_name(other).skip(10) =~= decimal(other as nat));
        crate::text::lemma_decimal_injective(vlan_id as nat, other as nat);
    }
}

} // verus!
