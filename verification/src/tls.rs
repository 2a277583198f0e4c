//! The certificate and the key of the fallback site, and the TLS settings.

use crate::config::ServiceConfig;
use crate::route::serve;
use rustls_pki_types::pem::PemObject;
use rustls_pki_types::{CertificateDer, PrivateKeyDer};
use vstd::prelude::*;

verus! {

/// Which TLS versions are spoken.
#[derive(Clone, Copy, Debug, PartialEq, Eq, Structural)]
pub enum TlsVersions {
    /// TLS 1.3 alone.
    Only13,
    /// TLS 1.2 and TLS 1.3.
    From12,
}

/// The TLS versions that a configuration asks for.
pub fn protocol_versions(config: &ServiceConfig) -> (res: TlsVersions)
    ensures
        res == (if config.tls_min_version@ == "1.3"@ {
            TlsVersions::Only13
        } else {
            TlsVersions::From12
        }),
{
    if *config.tls_min_version.as_str() == *"1.3" {
        TlsVersions::Only13
    } else {
        TlsVersions::From12
    }
}

/// Byte strings by their views.
pub open spec fn byte_strings(v: Seq<Vec<u8>>) -> Seq<Seq<u8>> {
    Seq::new(v.len(), |i: int| v[i]@)
}

/// The protocols that are offered in ALPN, the preferred one first.
pub fn alpn_protocols() -> (res: Vec<Vec<u8>>)
    ensures
        byte_strings(res@) == seq![serve::alpn_h2(), serve::alpn_http1()],
{
    let h2: Vec<u8> = vec![0x68, 0x32];
    let http1: Vec<u8> = vec![0x68, 0x74, 0x74, 0x70, 0x2f, 0x31, 0x2e, 0x31];
    proof {
        assert(h2@ =~= serve::alpn_h2());
        assert(http1@ =~= serve::alpn_http1());
    }
    let res = vec![h2, http1];
    proof {
        assert(byte_strings(res@) =~= seq![serve::alpn_h2(), serve::alpn_http1()]);
    }
    res
}

// ---------------------------------------------------------------------
// Certificates and keys
// ---------------------------------------------------------------------

/// The formats of private keys.
#[derive(Clone, Copy, Debug, PartialEq, Eq, Structural)]
pub enum KeyFormat {
    Pkcs1,
    Sec1,
    Pkcs8,
}

/// The certificates (DER) in a PEM file, in order; nothing if the file is
/// malformed.
pub uninterp spec fn certificates_in_pem(pem: Seq<u8>) -> Option<Seq<Seq<u8>>>;

/// The first private key (DER) in a PEM file; nothing if there is none or the
/// file is malformed before it.
pub uninterp spec fn key_in_pem(pem: Seq<u8>) -> Option<(KeyFormat, Seq<u8>)>;

/// Whether the TLS implementation can sign with a private key.
pub uninterp spec fn key_is_usable(format: KeyFormat, key: Seq<u8>) -> bool;

/// Whether a private key belongs to the first of the certificates.
pub uninterp spec fn key_belongs_to(format: KeyFormat, key: Seq<u8>, certs: Seq<Seq<u8>>) -> bool;

pub open spec fn strings_view(v: Option<Vec<Vec<u8>>>) -> Option<Seq<Seq<u8>>> {
    match v {
        Some(list) => Some(byte_strings(list@)),
        None => None,
    }
}

pub open spec fn key_view(v: Option<(KeyFormat, Vec<u8>)>) -> Option<(KeyFormat, Seq<u8>)> {
    match v {
        Some(key) => Some((key.0, key.1@)),
        None => None,
    }
}

/// `CertificateDer::pem_reader_iter` decodes the certificates in a PEM file,
/// and fails on a malformed section.
#[verifier::external_body]
fn read_certificates(pem: &[u8]) -> (res: Option<Vec<Vec<u8>>>)
    ensures
        strings_view(res) == certificates_in_pem(pem@),
{
    let mut reader = pem;
    CertificateDer::pem_reader_iter(&mut reader)
        .map(|cert| cert.map(|der| der.as_ref().to_vec()))
        .collect::<Result<Vec<Vec<u8>>, _>>()
        .ok()
}

/// `PrivateKeyDer::from_pem_reader` decodes the first private key in a PEM
/// file, and fails if there is none.
#[verifier::external_body]
fn read_key(pem: &[u8]) -> (res: Option<(KeyFormat, Vec<u8>)>)
    ensures
        key_view(res) == key_in_pem(pem@),
{
    let mut reader = pem;
    match PrivateKeyDer::from_pem_reader(&mut reader).ok()? {
        PrivateKeyDer::Pkcs1(key) => Some((KeyFormat::Pkcs1, key.secret_pkcs1_der().to_vec())),
        PrivateKeyDer::Sec1(key) => Some((KeyFormat::Sec1, key.secret_sec1_der().to_vec())),
        PrivateKeyDer::Pkcs8(key) => Some((KeyFormat::Pkcs8, key.secret_pkcs8_der().to_vec())),
        _ => None,
    }
}

/// `KeyProvider::load_private_key` of the `aws_lc_rs` provider of `rustls`
/// accepts the keys that it can sign with.
#[verifier::external_body]
fn is_usable_key(format: KeyFormat, key: &Vec<u8>) -> (res: bool)
    ensures
        res == key_is_usable(format, key@),
{
    let der = match format {
        KeyFormat::Pkcs1 => PrivateKeyDer::Pkcs1(key.clone().into()),
        KeyFormat::Sec1 => PrivateKeyDer::Sec1(key.clone().into()),
        KeyFormat::Pkcs8 => PrivateKeyDer::Pkcs8(key.clone().into()),
    };
    rustls::crypto::aws_lc_rs::default_provider().key_provider.load_private_key(der).is_ok()
}

/// `CertifiedKey::keys_match` of `rustls` compares the public key of a private
/// key with that of the first certificate. A key that cannot be used belongs
/// to none.
#[verifier::external_body]
fn is_matching_key(format: KeyFormat, key: &Vec<u8>, certs: &Vec<Vec<u8>>) -> (res: bool)
    ensures
        res == key_belongs_to(format, key@, byte_strings(certs@)),
{
    let der = match format {
        KeyFormat::Pkcs1 => PrivateKeyDer::Pkcs1(key.clone().into()),
        KeyFormat::Sec1 => PrivateKeyDer::Sec1(key.clone().into()),
        KeyFormat::Pkcs8 => PrivateKeyDer::Pkcs8(key.clone().into()),
    };
    let chain = certs.iter().map(|cert| CertificateDer::from(cert.clone())).collect();
    match rustls::crypto::aws_lc_rs::default_provider().key_provider.load_private_key(der) {
        Ok(signer) => rustls::sign::CertifiedKey::new(chain, signer).keys_match().is_ok(),
        Err(_) => false,
    }
}

/// A certificate chain with the private key that belongs to it.
pub struct KeyMaterial {
    pub certs: Vec<Vec<u8>>,
    pub format: KeyFormat,
    pub key: Vec<u8>,
}

/// Why a certificate and a key cannot be used.
#[derive(Clone, Copy, Debug, PartialEq, Eq, Structural)]
pub enum TlsError {
    /// The certificate file is not well-formed PEM.
    MalformedCertificates,
    /// There is no certificate in the certificate file.
    NoCertificates,
    /// There is no private key in the key file.
    NoKey,
    /// The private key cannot be used.
    UnusableKey,
    /// The private key does not belong to the certificate.
    KeyMismatch,
}

/// What is made of the certificates, where there are any.
pub open spec fn certificates_error(certs: Option<Seq<Seq<u8>>>) -> Option<TlsError> {
    match certs {
        None => Some(TlsError::MalformedCertificates),
        Some(list) => if list.len() == 0 {
            Some(TlsError::NoCertificates)
        } else {
            None
        },
    }
}

/// Why certificates and a key are refused, given what was read and what is
/// known of the key. The certificates are looked at first.
pub open spec fn material_error(
    certs: Option<Seq<Seq<u8>>>,
    key: Option<(KeyFormat, Seq<u8>)>,
    usable: bool,
    belongs: bool,
) -> Option<TlsError> {
    if certificates_error(certs) is Some {
        certificates_error(certs)
    } else if key is None {
        Some(TlsError::NoKey)
    } else if !usable {
        Some(TlsError::UnusableKey)
    } else if !belongs {
        Some(TlsError::KeyMismatch)
    } else {
        None
    }
}

/// Puts together what was read, or says why it cannot be used.
pub fn assemble(
    certs: Option<Vec<Vec<u8>>>,
    key: Option<(KeyFormat, Vec<u8>)>,
    usable: bool,
    belongs: bool,
) -> (res: Result<KeyMaterial, TlsError>)
    ensures
        match material_error(strings_view(certs), key_view(key), usable, belongs) {
            Some(e) => res == Err::<KeyMaterial, TlsError>(e),
            None => res matches Ok(material) && Some(material.certs) == certs && Some(
                (material.format, material.key),
            ) == key,
        },
{
    let certs = match certs {
        Some(list) => list,
        None => {
            return Err(TlsError::MalformedCertificates);
        },
    };
    if certs.len() == 0 {
        return Err(TlsError::NoCertificates);
    }
    match key {
        None => Err(TlsError::NoKey),
        Some((format, der)) => {
            if !usable {
                Err(TlsError::UnusableKey)
            } else if !belongs {
                Err(TlsError::KeyMismatch)
            } else {
                Ok(KeyMaterial { certs, format, key: der })
            }
        },
    }
}

/// The certificates in a PEM file, of which there must be one at least.
pub fn load_certs(pem: &[u8]) -> (res: Result<Vec<Vec<u8>>, TlsError>)
    ensures
        match certificates_error(certificates_in_pem(pem@)) {
            Some(e) => res == Err::<Vec<Vec<u8>>, TlsError>(e),
            None => res matches Ok(certs) && certificates_in_pem(pem@) == Some(
                byte_strings(certs@),
            ),
        },
{
    match read_certificates(pem) {
        None => Err(TlsError::MalformedCertificates),
        Some(certs) => {
            if certs.len() == 0 {
                Err(TlsError::NoCertificates)
            } else {
                Ok(certs)
            }
        },
    }
}

/// The private key in a PEM file.
pub fn load_key(pem: &[u8]) -> (res: Result<(KeyFormat, Vec<u8>), TlsError>)
    ensures
        match key_in_pem(pem@) {
            None => res == Err::<(KeyFormat, Vec<u8>), TlsError>(TlsError::NoKey),
            Some(key) => res matches Ok(found) && found.0 == key.0 && found.1@ == key.1,
        },
{
    match read_key(pem) {
        Some(key) => Ok(key),
        None => Err(TlsError::NoKey),
    }
}

/// The key of a file can be used, and belongs to the certificates of another.
pub open spec fn usable_in(key_pem: Seq<u8>) -> bool {
    key_in_pem(key_pem) matches Some(key) && key_is_usable(key.0, key.1)
}

pub open spec fn belongs_in(cert_pem: Seq<u8>, key_pem: Seq<u8>) -> bool {
    key_in_pem(key_pem) matches Some(key) && certificates_in_pem(cert_pem) matches Some(certs)
        && key_belongs_to(key.0, key.1, certs)
}

/// Loads a certificate chain and its private key, and makes sure that they go
/// together.
pub fn load_certified_key(cert_pem: &[u8], key_pem: &[u8]) -> (res: Result<KeyMaterial, TlsError>)
    ensures
        match material_error(
            certificates_in_pem(cert_pem@),
            key_in_pem(key_pem@),
            usable_in(key_pem@),
            belongs_in(cert_pem@, key_pem@),
        ) {
            Some(e) => res == Err::<KeyMaterial, TlsError>(e),
            None => {
                &&& res matches Ok(material)
                &&& certificates_in_pem(cert_pem@) == Some(byte_strings(material.certs@))
                &&& key_in_pem(key_pem@) == Some((material.format, material.key@))
            },
        },
{
    let certs = match load_certs(cert_pem) {
        Ok(list) => list,
        Err(e) => {
            return Err(e);
        },
    };
    let (format, key) = match load_key(key_pem) {
        Ok(found) => found,
        Err(e) => {
            return Err(e);
        },
    };
    let usable: bool = is_usable_key(format, &key);
    let belongs: bool = is_matching_key(format, &key, &certs);
    assemble(Some(certs), Some((format, key)), usable, belongs)
}

/// A certificate and a key are taken exactly if there is a certificate and a
/// key, the key can be used, and it belongs to the certificate. Otherwise the
/// first thing that is wrong, in that order, is what is said.
pub proof fn law_which_keys_are_taken(
    certs: Option<Seq<Seq<u8>>>,
    key: Option<(KeyFormat, Seq<u8>)>,
    usable: bool,
    belongs: bool,
)
    ensures
        ({
            let found = certs matches Some(list) && list.len() > 0;
            let error = material_error(certs, key, usable, belongs);
            &&& error is None <==> found && key is Some && usable && belongs
            &&& error == Some(TlsError::MalformedCertificates) <==> certs is None
            &&& error == Some(TlsError::NoCertificates) <==> certs is Some && !found
            &&& error == Some(TlsError::NoKey) <==> found && key is None
            &&& error == Some(TlsError::UnusableKey) <==> found && key is Some && !usable
            &&& error == Some(TlsError::KeyMismatch) <==> found && key is Some && usable && !belongs
            &&& certificates_error(certs) is None <==> found
            &&& certificates_error(certs) == Some(TlsError::MalformedCertificates) <==> certs
                is None
        }),
{
}

/// Whether a key can be used and belongs to a certificate is what is known of
/// the key and the certificates in the files.
pub proof fn law_keys_are_those_in_the_files(
    cert_pem: Seq<u8>,
    key_pem: Seq<u8>,
    format: KeyFormat,
    key: Seq<u8>,
    certs: Seq<Seq<u8>>,
)
    ensures
        key_in_pem(key_pem) == Some((format, key)) ==> (usable_in(key_pem) <==> key_is_usable(
            format,
            key,
        )),
        key_in_pem(key_pem) == Some((format, key)) && certificates_in_pem(cert_pem) == Some(certs)
            ==> (belongs_in(cert_pem, key_pem) <==> key_belongs_to(format, key, certs)),
        key_in_pem(key_pem) is None ==> !usable_in(key_pem) && !belongs_in(cert_pem, key_pem),
        certificates_in_pem(cert_pem) is None ==> !belongs_in(cert_pem, key_pem),
{
}

/// The views of certificates and keys show what they are.
pub proof fn law_certificates_are_shown_as_they_are(
    list: Seq<Vec<u8>>,
    certs: Option<Vec<Vec<u8>>>,
    key: Option<(KeyFormat, Vec<u8>)>,
)
    ensures
        byte_strings(list).len() == list.len(),
        forall|i: int| 0 <= i < list.len() ==> #[trigger] byte_strings(list)[i] == list[i]@,
        certs matches Some(v) ==> strings_view(certs) == Some(byte_strings(v@)),
        certs is None ==> strings_view(certs) is None,
        key matches Some(k) ==> key_view(key) == Some((k.0, k.1@)),
        key is None ==> key_view(key) is None,
{
}

} // verus!
