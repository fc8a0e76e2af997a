//! The certificate and key material of a mutual-TLS endpoint, read from PEM.
use vstd::prelude::*;

use crate::text::concat2;

verus! {

/// The kinds of private key a PEM file can hold.
#[derive(Debug, Clone, Copy, PartialEq, Eq, Structural)]
pub enum PemKeyKind {
    /// An RSA key (PKCS#1).
    Pkcs1,
    /// An EC key (SEC1).
    Sec1,
    /// A PKCS#8 key.
    Pkcs8,
}

/// A private key: its kind and DER bytes.
#[derive(Debug)]
pub struct PemKey {
    pub kind: PemKeyKind,
    pub der: Vec<u8>,
}

/// The certificates of a PEM file, each as DER bytes, in file order; or the text of the
/// first read error.
pub uninterp spec fn spec_pem_certs(pem: Seq<u8>) -> Result<Seq<Seq<u8>>, Seq<char>>;

/// The first private key of a PEM file, if any, as kind and DER bytes; or the text of
/// the first read error.
pub uninterp spec fn spec_pem_private_key(pem: Seq<u8>) -> Result<
    Option<(PemKeyKind, Seq<u8>)>,
    Seq<char>,
>;

/// The view of a list of certificates.
pub open spec fn certs_view(r: Result<Vec<Vec<u8>>, String>) -> Result<Seq<Seq<u8>>, Seq<char>> {
    match r {
        Ok(v) => Ok(v@.map_values(|c: Vec<u8>| c@)),
        Err(e) => Err(e@),
    }
}

/// The view of an optional key.
pub open spec fn key_view(r: Result<Option<PemKey>, String>) -> Result<
    Option<(PemKeyKind, Seq<u8>)>,
    Seq<char>,
> {
    match r {
        Ok(Some(k)) => Ok(Some((k.kind, k.der@))),
        Ok(None) => Ok(None),
        Err(e) => Err(e@),
    }
}

/// Reads the certificates of a PEM file (`rustls_pemfile::certs`, stopping at the first
/// error as collecting into a `Result` does).
#[verifier::external_body]
fn pem_certs(pem: &[u8]) -> (r: Result<Vec<Vec<u8>>, String>)
    ensures
        certs_view(r) == spec_pem_certs(pem@),
{
    let mut reader = std::io::Cursor::new(pem);
    let mut out: Vec<Vec<u8>> = Vec::new();
    for item in rustls_pemfile::certs(&mut reader) {
        match item {
            Ok(cert) => out.push(cert.as_ref().to_vec()),
            Err(e) => return Err(e.to_string()),
        }
    }
    Ok(out)
}

/// Reads the first private key of a PEM file (`rustls_pemfile::private_key`). That
/// function yields only PKCS#1, SEC1 and PKCS#8 keys; a key of another kind would be
/// reported as no key.
#[verifier::external_body]
fn pem_private_key(pem: &[u8]) -> (r: Result<Option<PemKey>, String>)
    ensures
        key_view(r) == spec_pem_private_key(pem@),
{
    let mut reader = std::io::Cursor::new(pem);
    match rustls_pemfile::private_key(&mut reader) {
        Ok(Some(rustls_pki_types::PrivateKeyDer::Pkcs1(k))) => Ok(Some(PemKey { kind: PemKeyKind::Pkcs1, der: k.secret_pkcs1_der().to_vec() })),
        Ok(Some(rustls_pki_types::PrivateKeyDer::Sec1(k))) => Ok(Some(PemKey { kind: PemKeyKind::Sec1, der: k.secret_sec1_der().to_vec() })),
        Ok(Some(rustls_pki_types::PrivateKeyDer::Pkcs8(k))) => Ok(Some(PemKey { kind: PemKeyKind::Pkcs8, der: k.secret_pkcs8_der().to_vec() })),
        Ok(_) => Ok(None),
        Err(e) => Err(e.to_string()),
    }
}

/// The certificates of a PEM file, or why they could not be read.
pub fn parse_certs(pem: &[u8]) -> (r: Result<Vec<Vec<u8>>, String>)
    ensures
        match spec_pem_certs(pem@) {
            Ok(cs) => r matches Ok(v) && v@.map_values(|c: Vec<u8>| c@) == cs,
            Err(e) => r matches Err(m) && m@ == "Failed to parse certificates: "@ + e,
        },
{
    match pem_certs(pem) {
        Ok(v) => Ok(v),
        Err(e) => Err(concat2("Failed to parse certificates: ", e.as_str())),
    }
}

/// The first private key of a PEM file, or why there is none.
pub fn parse_key(pem: &[u8]) -> (r: Result<PemKey, String>)
    ensures
        match spec_pem_private_key(pem@) {
            Ok(Some((kind, der))) => r matches Ok(k) && k.kind == kind && k.der@ == der,
            Ok(None) => r matches Err(m) && m@ == "No private key found in PEM"@,
            Err(e) => r matches Err(m) && m@ == "Failed to parse private key: "@ + e,
        },
{
    match pem_private_key(pem) {
        Ok(Some(k)) => Ok(k),
        Ok(None) => Err(String::from_str("No private key found in PEM")),
        Err(e) => Err(concat2("Failed to parse private key: ", e.as_str())),
    }
}

/// What a mutual-TLS listener is built from: the CA certificates that client
/// certificates must chain to, the server's certificate chain, and its key.
#[derive(Debug)]
pub struct MtlsMaterial {
    pub ca_certs: Vec<Vec<u8>>,
    pub certs: Vec<Vec<u8>>,
    pub key: PemKey,
}

/// Reads the material of a mutual-TLS listener, in order: the CA certificates (at least
/// one), the server certificates (at least one), the server key.
pub fn mtls_material(ca_cert_pem: &[u8], server_cert_pem: &[u8], server_key_pem: &[u8]) -> (r:
    Result<MtlsMaterial, String>)
    ensures
        match spec_pem_certs(ca_cert_pem@) {
            Err(e) => r matches Err(m) && m@ == "Failed to parse certificates: "@ + e,
            Ok(ca) => if ca.len() == 0 {
                r matches Err(m) && m@ == "No CA certificates found"@
            } else {
                match spec_pem_certs(server_cert_pem@) {
                    Err(e) => r matches Err(m) && m@ == "Failed to parse certificates: "@ + e,
                    Ok(cs) => if cs.len() == 0 {
                        r matches Err(m) && m@ == "No server certificates found"@
                    } else {
                        match spec_pem_private_key(server_key_pem@) {
                            Ok(Some((kind, der))) => r matches Ok(mat) && mat.ca_certs@.map_values(
                                |c: Vec<u8>| c@,
                            ) == ca && mat.certs@.map_values(|c: Vec<u8>| c@) == cs
                                && mat.key.kind == kind && mat.key.der@ == der,
                            Ok(None) => r matches Err(m) && m@ == "No private key found in PEM"@,
                            Err(e) => r matches Err(m) && m@ == "Failed to parse private key: "@
                                + e,
                        }
                    },
                }
            },
        },
{
    let ca_certs = parse_certs(ca_cert_pem)?;
    if ca_certs.len() == 0 {
        return Err(String::from_str("No CA certificates found"));
    }
    let certs = parse_certs(server_cert_pem)?;
    if certs.len() == 0 {
        return Err(String::from_str("No server certificates found"));
    }
    let key = parse_key(server_key_pem)?;
    Ok(MtlsMaterial { ca_certs, certs, key })
}

/// Certificates and keys of a test PKI, as PEM bytes.
#[derive(Debug)]
pub struct GeneratedCreds {
    /// CA Certificate PEM
    pub ca_cert: Vec<u8>,
    /// Server Certificate PEM
    pub server_cert: Vec<u8>,
    /// Server Key PEM
    pub server_key: Vec<u8>,
    /// Client Certificate PEM
    pub client_cert: Vec<u8>,
    /// Client Key PEM
    pub client_key: Vec<u8>,
}

} // verus!
