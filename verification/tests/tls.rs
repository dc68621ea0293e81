//! Trust on first use.

use std::sync::Arc;

use rustls::client::danger::{HandshakeSignatureValid, ServerCertVerified, ServerCertVerifier};
use rustls::crypto::{ring, verify_tls12_signature, verify_tls13_signature, CryptoProvider};
use rustls::pki_types::{CertificateDer, ServerName, UnixTime};
use rustls::{
    ClientConfig, ClientConnection, DigitallySignedStruct, ServerConfig, ServerConnection,
    SignatureScheme,
};
use self_kvm::tls::{
    acceptor_from, check_certificate, fingerprint, format_fingerprint, server_acceptor,
    FileTrustStore, MemoryTrustStore, TlsError, TrustStore,
};

#[test]
fn fingerprint_is_the_sha256_in_hex() {
    assert_eq!(
        fingerprint(b"hello world"),
        "SHA256:b9:4d:27:b9:93:4d:3e:08:a5:2e:52:d7:da:7d:ab:fa:\
         c4:84:ef:e3:7a:53:80:ee:90:88:f7:ac:e2:ef:cd:e9"
    );
    assert_eq!(format_fingerprint(&[0x0a, 0xff]), "SHA256:0a:ff");
    assert_eq!(format_fingerprint(&[]), "SHA256:");
}

#[test]
fn first_sight_is_pinned_and_a_change_rejected() {
    let mut store = MemoryTrustStore::new();
    assert_eq!(store.get("studio"), None);
    assert_eq!(store.check("studio", "SHA256:aa"), Ok(()));
    assert_eq!(store.get("studio").as_deref(), Some("SHA256:aa"));
    assert_eq!(store.check("studio", "SHA256:aa"), Ok(()));
    assert_eq!(
        store.check("studio", "SHA256:bb"),
        Err("fingerprint changed for studio: trusted SHA256:aa, got SHA256:bb".to_string())
    );
    assert_eq!(store.get("studio").as_deref(), Some("SHA256:aa"));
    assert_eq!(store.check("attic", "SHA256:bb"), Ok(()));
}

#[test]
fn preseeded_pin_rejects_another_certificate() {
    let mut store = MemoryTrustStore::default();
    store.insert("studio", "SHA256:de:ad:be:ef");
    assert!(check_certificate(&mut store, "studio", b"some certificate").is_err());
    assert_eq!(store.get("studio").as_deref(), Some("SHA256:de:ad:be:ef"));
    assert_eq!(check_certificate(&mut store, "attic", b"some certificate"), Ok(()));
    assert_eq!(store.get("attic"), Some(fingerprint(b"some certificate")));
}

#[test]
fn store_text_is_parsed_line_by_line() {
    let mut store = FileTrustStore::load(Some(
        "a SHA256:01\r\nnothing\nb\tSHA256:02  \n c d\na SHA256:03\nlast\r",
    ));
    assert_eq!(store.check("a", "SHA256:03"), Ok(()));
    assert_eq!(store.check("b", "SHA256:02"), Ok(()));
    assert_eq!(store.check("", "c d"), Ok(()));
    assert_eq!(store.check("last", ""), Ok(()));
    assert_eq!(store.take_unsaved(), None);
    // A line without white space states nothing.
    assert_eq!(store.check("nothing", "x"), Ok(()));
    assert!(store.take_unsaved().is_some());
}

#[test]
fn recorded_pins_survive_a_restart() {
    let mut store = FileTrustStore::load(None);
    assert_eq!(store.take_unsaved(), None);
    assert_eq!(store.check("10.0.0.2:24800", "SHA256:aa:bb"), Ok(()));
    assert_eq!(store.check("attic:24800", "SHA256:cc"), Ok(()));
    let body = store.take_unsaved().unwrap();
    assert_eq!(body, "10.0.0.2:24800 SHA256:aa:bb\nattic:24800 SHA256:cc\n");
    assert_eq!(store.take_unsaved(), None);

    let mut again = FileTrustStore::load(Some(&body));
    assert_eq!(again.check("10.0.0.2:24800", "SHA256:aa:bb"), Ok(()));
    assert_eq!(again.check("attic:24800", "SHA256:cc"), Ok(()));
    assert!(again.check("attic:24800", "SHA256:dd").is_err());
    assert_eq!(again.take_unsaved(), None);
}

#[test]
fn server_identity_is_fresh_every_time() {
    let (_, first) = server_acceptor().unwrap();
    let (_, second) = server_acceptor().unwrap();
    assert!(first.starts_with("SHA256:"));
    assert_eq!(first.len(), 7 + 32 * 3 - 1);
    assert_ne!(first, second);
}

#[test]
fn unusable_identities_are_refused() {
    assert!(matches!(
        acceptor_from(Err("no entropy".to_string())),
        Err(TlsError::Cert(reason)) if reason == "no entropy"
    ));
    assert!(matches!(
        acceptor_from(Ok((vec![1, 2, 3], vec![4, 5, 6]))),
        Err(TlsError::Config(_))
    ));
}

/// Takes any certificate whose key the peer holds.
#[derive(Debug)]
struct AnyCertificate(Arc<CryptoProvider>);

impl ServerCertVerifier for AnyCertificate {
    fn verify_server_cert(
        &self,
        _end_entity: &CertificateDer<'_>,
        _intermediates: &[CertificateDer<'_>],
        _server_name: &ServerName<'_>,
        _ocsp_response: &[u8],
        _now: UnixTime,
    ) -> Result<ServerCertVerified, rustls::Error> {
        Ok(ServerCertVerified::assertion())
    }

    fn verify_tls12_signature(
        &self,
        message: &[u8],
        cert: &CertificateDer<'_>,
        dss: &DigitallySignedStruct,
    ) -> Result<HandshakeSignatureValid, rustls::Error> {
        verify_tls12_signature(message, cert, dss, &self.0.signature_verification_algorithms)
    }

    fn verify_tls13_signature(
        &self,
        message: &[u8],
        cert: &CertificateDer<'_>,
        dss: &DigitallySignedStruct,
    ) -> Result<HandshakeSignatureValid, rustls::Error> {
        verify_tls13_signature(message, cert, dss, &self.0.signature_verification_algorithms)
    }

    fn supported_verify_schemes(&self) -> Vec<SignatureScheme> {
        self.0.signature_verification_algorithms.supported_schemes()
    }
}

/// The certificate that a server presents in a handshake.
fn presented(server: Arc<ServerConfig>) -> Vec<u8> {
    let provider = Arc::new(ring::default_provider());
    let config = ClientConfig::builder_with_provider(provider.clone())
        .with_safe_default_protocol_versions()
        .unwrap()
        .dangerous()
        .with_custom_certificate_verifier(Arc::new(AnyCertificate(provider)))
        .with_no_client_auth();
    let name = ServerName::try_from("self-kvm").unwrap();
    let mut client = ClientConnection::new(Arc::new(config), name).unwrap();
    let mut server = ServerConnection::new(server).unwrap();
    while client.is_handshaking() || server.is_handshaking() {
        let mut there = Vec::new();
        client.write_tls(&mut there).unwrap();
        let mut rest = there.as_slice();
        while !rest.is_empty() {
            server.read_tls(&mut rest).unwrap();
            server.process_new_packets().unwrap();
        }
        let mut back = Vec::new();
        server.write_tls(&mut back).unwrap();
        let mut rest = back.as_slice();
        while !rest.is_empty() {
            client.read_tls(&mut rest).unwrap();
            client.process_new_packets().unwrap();
        }
    }
    client.peer_certificates().unwrap()[0].to_vec()
}

#[test]
fn an_acceptor_presents_the_certificate_of_its_fingerprint() {
    let (first, first_shown) = server_acceptor().unwrap();
    let (second, second_shown) = server_acceptor().unwrap();
    assert_eq!(fingerprint(&presented(first.config().clone())), first_shown);
    assert_eq!(fingerprint(&presented(second.config().clone())), second_shown);
    assert_ne!(first_shown, second_shown);
}

#[test]
fn an_acceptor_presents_the_certificate_that_it_was_made_from() {
    let made = rcgen::generate_simple_self_signed(vec!["self-kvm".to_string()]).unwrap();
    let cert = made.cert.der().to_vec();
    let (acceptor, shown) =
        acceptor_from(Ok((cert.clone(), made.key_pair.serialize_der()))).unwrap();
    assert_eq!(presented(acceptor.config().clone()), cert);
    assert_eq!(shown, fingerprint(&cert));
}
