//! Certificates, keys and TLS settings.

use reprox::config::ServiceConfig;
use reprox::net::{IpAddr, SocketAddr};
use reprox::tls::{
    alpn_protocols, assemble, load_certified_key, load_certs, load_key, protocol_versions,
    KeyFormat, TlsError, TlsVersions,
};

const CERT: &str = "MIIBRDCB96ADAgECAhRGKppficAW5bvAgL4ow/4OSnEimjAFBgMrZXAwFzEVMBMG
A1UEAwwMZXhhbXBsZS50ZXN0MCAXDTI2MTExNTE5MDEzN1oYDzIxMjYxMDIyMTkw
MTM3WjAXMRUwEwYDVQQDDAxleGFtcGxlLnRlc3QwKjAFBgMrZXADIQBYCnVsx3yu
rJ3RbtrUCmc7+/6g8d00aidn+ZZfuci9/6NTMFEwHQYDVR0OBBYEFFIbefVMQqaF
N5aCqnwqGoHKnF1HMB8GA1UdIwQYMBaAFFIbefVMQqaFN5aCqnwqGoHKnF1HMA8G
A1UdEwEB/wQFMAMBAf8wBQYDK2VwA0EAe3WTYekMQmnTyj4cvuu4POK13Zqn3pS7
RGuJNq/r3xIJnqQydZDzrTjVHyd+6YBaSjsvaM7I9W6uelKKDWj4Dg==";

/// The key of the certificate.
const OWN: &str = "MC4CAQAwBQYDK2VwBCIEIH2oiCGWNjtlYXuI+AA+itBTJVmQsef08ep53HDRCLjR";

/// Another key.
const OTHER: &str = "MC4CAQAwBQYDK2VwBCIEIJsXyfd7DGQYXiEWoL8WJq5YPwdag4I0I/c4M+rO4/K4";

fn pem(label: &str, body: &str) -> Vec<u8> {
    format!("-----BEGIN {label}-----\n{body}\n-----END {label}-----\n").into_bytes()
}

fn cert_pem() -> Vec<u8> {
    pem("CERTIFICATE", CERT)
}

fn key_pem(body: &str) -> Vec<u8> {
    pem("PRIVATE KEY", body)
}

fn config(tls_min_version: &str) -> ServiceConfig {
    ServiceConfig {
        listen_addr: SocketAddr { ip: IpAddr::V4(0), port: 443, flowinfo: 0, scope_id: 0 },
        routes: vec![],
        tls_cert_path: String::new(),
        tls_key_path: String::new(),
        static_dir: String::new(),
        server_header: String::new(),
        handshake_timeout_secs: 10,
        tls_min_version: tls_min_version.to_string(),
        metrics_addr: None,
        max_connections: 100,
        max_connections_per_ip: None,
        connection_rate_per_ip: None,
        connection_burst_per_ip: None,
    }
}

#[test]
fn the_profile_chooses_the_versions() {
    assert_eq!(protocol_versions(&config("1.2")), TlsVersions::From12);
    assert_eq!(protocol_versions(&config("1.3")), TlsVersions::Only13);
}

#[test]
fn http2_is_preferred() {
    assert_eq!(alpn_protocols(), vec![b"h2".to_vec(), b"http/1.1".to_vec()]);
}

#[test]
fn certificates_are_decoded_in_order() {
    let mut two = cert_pem();
    two.extend_from_slice(b"some text in between\n");
    two.extend_from_slice(&pem("CERTIFICATE", "AAEC"));
    let certs = load_certs(&two).unwrap();
    assert_eq!(certs.len(), 2);
    assert_eq!(certs[0].len(), 328);
    assert_eq!(certs[0][..4], [0x30, 0x82, 0x01, 0x44]);
    assert_eq!(certs[1], vec![0, 1, 2]);
}

#[test]
fn files_without_certificates_are_refused() {
    assert_eq!(load_certs(b"").unwrap_err(), TlsError::NoCertificates);
    assert_eq!(load_certs(&key_pem(OWN)).unwrap_err(), TlsError::NoCertificates);
    let cut = &cert_pem()[..200];
    assert_eq!(load_certs(cut).unwrap_err(), TlsError::MalformedCertificates);
}

#[test]
fn keys_are_decoded_with_their_format() {
    let (format, key) = load_key(&key_pem(OWN)).unwrap();
    assert_eq!(format, KeyFormat::Pkcs8);
    assert_eq!(key.len(), 48);
    assert_eq!(load_key(&pem("RSA PRIVATE KEY", "AAEC")).unwrap(), (KeyFormat::Pkcs1, vec![0, 1, 2]));
    assert_eq!(load_key(&pem("EC PRIVATE KEY", "AAEC")).unwrap(), (KeyFormat::Sec1, vec![0, 1, 2]));
    assert_eq!(load_key(&cert_pem()).unwrap_err(), TlsError::NoKey);
}

#[test]
fn a_certificate_and_its_key_go_together() {
    let material = load_certified_key(&cert_pem(), &key_pem(OWN)).ok().unwrap();
    assert_eq!(material.certs.len(), 1);
    assert_eq!(material.certs[0].len(), 328);
    assert_eq!(material.format, KeyFormat::Pkcs8);
    assert_eq!(material.key.len(), 48);
}

#[test]
fn what_does_not_go_together_is_refused() {
    let refused = |cert: &[u8], key: &[u8]| load_certified_key(cert, key).err();
    let own = key_pem(OWN);
    assert_eq!(refused(&cert_pem(), &key_pem(OTHER)), Some(TlsError::KeyMismatch));
    assert_eq!(refused(&cert_pem(), &key_pem("AAEC")), Some(TlsError::UnusableKey));
    assert_eq!(refused(&cert_pem(), b""), Some(TlsError::NoKey));
    assert_eq!(refused(b"", &own), Some(TlsError::NoCertificates));
    assert_eq!(refused(b"-----BEGIN CERTIFICATE-----\n", &own), Some(TlsError::MalformedCertificates));
    assert_eq!(refused(&pem("CERTIFICATE", "AAEC"), &own), Some(TlsError::KeyMismatch));
}

#[test]
fn putting_material_together() {
    let key = Some((KeyFormat::Sec1, vec![1]));
    assert_eq!(
        assemble(None, key.clone(), true, true).err(),
        Some(TlsError::MalformedCertificates)
    );
    assert_eq!(assemble(Some(vec![]), None, true, true).err(), Some(TlsError::NoCertificates));
    assert_eq!(assemble(Some(vec![vec![0]]), None, true, true).err(), Some(TlsError::NoKey));
    assert_eq!(
        assemble(Some(vec![vec![0]]), key.clone(), false, true).err(),
        Some(TlsError::UnusableKey)
    );
    assert_eq!(
        assemble(Some(vec![vec![0]]), key.clone(), true, false).err(),
        Some(TlsError::KeyMismatch)
    );
    let material = assemble(Some(vec![vec![0]]), key, true, true).ok().unwrap();
    assert_eq!((material.certs, material.format, material.key), (vec![vec![0]], KeyFormat::Sec1, vec![1]));
}
