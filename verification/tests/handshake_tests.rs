//! Full mutually-authenticated TLS 1.3 handshakes over in-memory buffers,
//! with the library's certificates and verification policy plugged into
//! rustls.

use std::sync::Arc;

use p2p_tls_handshake::certificate::parse;
use p2p_tls_handshake::crypto::IdentityKeypair;
use p2p_tls_handshake::policy::verify_presented;
use p2p_tls_handshake::upgrade::{alpn_protocol, Config};
use p2p_tls_handshake::PeerId;

use rustls::client::{HandshakeSignatureValid, ServerCertVerified, ServerCertVerifier};
use rustls::server::{ClientCertVerified, ClientCertVerifier};
use rustls::{Certificate, DigitallySignedStruct, SignatureScheme};

struct PeerVerifier {
    expected: Option<Vec<u8>>,
}

impl PeerVerifier {
    fn check(&self, end_entity: &Certificate, intermediates: usize) -> Result<(), rustls::Error> {
        let expected = self.expected.as_ref().map(|b| PeerId::from_bytes(b.clone()));
        match verify_presented(&end_entity.0, intermediates, expected.as_ref()) {
            Ok(_) => Ok(()),
            Err(_) => Err(rustls::Error::InvalidCertificate(
                rustls::CertificateError::ApplicationVerificationFailure,
            )),
        }
    }

    fn check_signature(
        &self,
        message: &[u8],
        cert: &Certificate,
        dss: &DigitallySignedStruct,
    ) -> Result<HandshakeSignatureValid, rustls::Error> {
        if dss.scheme != SignatureScheme::ECDSA_NISTP256_SHA256 {
            return Err(rustls::Error::General("unsupported signature scheme".into()));
        }
        let parsed = parse(&cert.0)
            .map_err(|_| rustls::Error::General("unparseable certificate".into()))?;
        let key = ring::signature::UnparsedPublicKey::new(
            &ring::signature::ECDSA_P256_SHA256_ASN1,
            parsed.public_point.as_slice(),
        );
        key.verify(message, dss.signature())
            .map_err(|_| rustls::Error::General("bad handshake signature".into()))?;
        Ok(HandshakeSignatureValid::assertion())
    }
}

impl ServerCertVerifier for PeerVerifier {
    fn verify_server_cert(
        &self,
        end_entity: &Certificate,
        intermediates: &[Certificate],
        _server_name: &rustls::ServerName,
        _scts: &mut dyn Iterator<Item = &[u8]>,
        _ocsp_response: &[u8],
        _now: std::time::SystemTime,
    ) -> Result<ServerCertVerified, rustls::Error> {
        self.check(end_entity, intermediates.len())?;
        Ok(ServerCertVerified::assertion())
    }

    fn verify_tls12_signature(
        &self,
        _message: &[u8],
        _cert: &Certificate,
        _dss: &DigitallySignedStruct,
    ) -> Result<HandshakeSignatureValid, rustls::Error> {
        Err(rustls::Error::General("only TLS 1.3 is supported".into()))
    }

    fn verify_tls13_signature(
        &self,
        message: &[u8],
        cert: &Certificate,
        dss: &DigitallySignedStruct,
    ) -> Result<HandshakeSignatureValid, rustls::Error> {
        self.check_signature(message, cert, dss)
    }

    fn supported_verify_schemes(&self) -> Vec<SignatureScheme> {
        vec![SignatureScheme::ECDSA_NISTP256_SHA256]
    }
}

impl ClientCertVerifier for PeerVerifier {
    fn offer_client_auth(&self) -> bool {
        true
    }

    fn client_auth_mandatory(&self) -> bool {
        true
    }

    fn client_auth_root_subjects(&self) -> &[rustls::DistinguishedName] {
        &[]
    }

    fn verify_client_cert(
        &self,
        end_entity: &Certificate,
        intermediates: &[Certificate],
        _now: std::time::SystemTime,
    ) -> Result<ClientCertVerified, rustls::Error> {
        self.check(end_entity, intermediates.len())?;
        Ok(ClientCertVerified::assertion())
    }

    fn verify_tls12_signature(
        &self,
        _message: &[u8],
        _cert: &Certificate,
        _dss: &DigitallySignedStruct,
    ) -> Result<HandshakeSignatureValid, rustls::Error> {
        Err(rustls::Error::General("only TLS 1.3 is supported".into()))
    }

    fn verify_tls13_signature(
        &self,
        message: &[u8],
        cert: &Certificate,
        dss: &DigitallySignedStruct,
    ) -> Result<HandshakeSignatureValid, rustls::Error> {
        self.check_signature(message, cert, dss)
    }

    fn supported_verify_schemes(&self) -> Vec<SignatureScheme> {
        vec![SignatureScheme::ECDSA_NISTP256_SHA256]
    }
}

fn client_config(config: &Config, expected: Option<Vec<u8>>) -> rustls::ClientConfig {
    let mut cc = rustls::ClientConfig::builder()
        .with_cipher_suites(&[
            rustls::cipher_suite::TLS13_AES_128_GCM_SHA256,
            rustls::cipher_suite::TLS13_AES_256_GCM_SHA384,
            rustls::cipher_suite::TLS13_CHACHA20_POLY1305_SHA256,
        ])
        .with_safe_default_kx_groups()
        .with_protocol_versions(&[&rustls::version::TLS13])
        .expect("TLS 1.3 configuration is valid")
        .with_custom_certificate_verifier(Arc::new(PeerVerifier { expected }))
        .with_client_auth_cert(
            vec![Certificate(config.certificate_der.clone())],
            rustls::PrivateKey(config.private_key_der.clone()),
        )
        .expect("client certificate and key are valid");
    cc.alpn_protocols = vec![alpn_protocol()];
    cc
}

fn server_config(config: &Config) -> rustls::ServerConfig {
    let mut sc = rustls::ServerConfig::builder()
        .with_cipher_suites(&[
            rustls::cipher_suite::TLS13_AES_128_GCM_SHA256,
            rustls::cipher_suite::TLS13_AES_256_GCM_SHA384,
            rustls::cipher_suite::TLS13_CHACHA20_POLY1305_SHA256,
        ])
        .with_safe_default_kx_groups()
        .with_protocol_versions(&[&rustls::version::TLS13])
        .expect("TLS 1.3 configuration is valid")
        .with_client_cert_verifier(Arc::new(PeerVerifier { expected: None }))
        .with_single_cert(
            vec![Certificate(config.certificate_der.clone())],
            rustls::PrivateKey(config.private_key_der.clone()),
        )
        .expect("server certificate and key are valid");
    sc.alpn_protocols = vec![alpn_protocol()];
    sc
}

/// Pumps a client and a server connection until both finish handshaking or
/// one of them fails; on success, returns the certificate each side saw.
fn run_handshake(
    cc: rustls::ClientConfig,
    sc: rustls::ServerConfig,
) -> Result<(Vec<u8>, Vec<u8>), rustls::Error> {
    let name = rustls::ServerName::IpAddress("0.0.0.0".parse().expect("address parses"));
    let mut client =
        rustls::ClientConnection::new(Arc::new(cc), name).expect("client connection builds");
    let mut server = rustls::ServerConnection::new(Arc::new(sc)).expect("server connection builds");
    let mut rounds = 0;
    while client.is_handshaking() || server.is_handshaking() {
        rounds += 1;
        if rounds > 40 {
            return Err(rustls::Error::General("handshake did not converge".into()));
        }
        let mut c2s: Vec<u8> = Vec::new();
        while client.wants_write() {
            client.write_tls(&mut c2s).expect("writing to a buffer succeeds");
        }
        let mut rest: &[u8] = &c2s;
        while !rest.is_empty() {
            let n = server.read_tls(&mut rest).expect("reading from a buffer succeeds");
            if n == 0 {
                break;
            }
            server.process_new_packets()?;
        }
        let mut s2c: Vec<u8> = Vec::new();
        while server.wants_write() {
            server.write_tls(&mut s2c).expect("writing to a buffer succeeds");
        }
        let mut rest: &[u8] = &s2c;
        while !rest.is_empty() {
            let n = client.read_tls(&mut rest).expect("reading from a buffer succeeds");
            if n == 0 {
                break;
            }
            client.process_new_packets()?;
        }
    }
    let server_saw = server
        .peer_certificates()
        .and_then(|cs| cs.first())
        .expect("server saw a client certificate")
        .0
        .clone();
    let client_saw = client
        .peer_certificates()
        .and_then(|cs| cs.first())
        .expect("client saw a server certificate")
        .0
        .clone();
    Ok((client_saw, server_saw))
}

#[test]
fn both_sides_observe_each_other() {
    let ka = IdentityKeypair::generate();
    let kb = IdentityKeypair::generate();
    let a = Config::new(&ka).expect("config builds");
    let b = Config::new(&kb).expect("config builds");
    // A listens, B dials without pinning.
    let (client_saw, server_saw) =
        run_handshake(client_config(&b, None), server_config(&a)).expect("handshake succeeds");
    let a_peer = a.local_peer.clone().to_bytes();
    let b_peer = b.local_peer.clone().to_bytes();
    assert_eq!(parse(&client_saw).unwrap().peer_id().to_bytes(), a_peer);
    assert_eq!(parse(&server_saw).unwrap().peer_id().to_bytes(), b_peer);
}

#[test]
fn dialing_with_the_right_pin_succeeds() {
    let ka = IdentityKeypair::generate();
    let kb = IdentityKeypair::generate();
    let a = Config::new(&ka).expect("config builds");
    let b = Config::new(&kb).expect("config builds");
    let pin = a.local_peer.clone().to_bytes();
    let (client_saw, _) = run_handshake(client_config(&b, Some(pin.clone())), server_config(&a))
        .expect("pinned handshake succeeds");
    assert_eq!(parse(&client_saw).unwrap().peer_id().to_bytes(), pin);
}

#[test]
fn dialing_with_the_wrong_pin_fails() {
    let ka = IdentityKeypair::generate();
    let kb = IdentityKeypair::generate();
    let kc = IdentityKeypair::generate();
    let a = Config::new(&ka).expect("config builds");
    let b = Config::new(&kb).expect("config builds");
    let wrong_pin = Config::new(&kc).expect("config builds").local_peer.clone().to_bytes();
    let r = run_handshake(client_config(&b, Some(wrong_pin)), server_config(&a));
    assert!(r.is_err());
}

#[test]
fn a_tampered_extension_signature_aborts_the_handshake() {
    let ka = IdentityKeypair::generate();
    let kb = IdentityKeypair::generate();
    let mut a = Config::new(&ka).expect("config builds");
    let b = Config::new(&kb).expect("config builds");
    // Flip one bit of the extension signature inside A's certificate before
    // it is presented.
    let parsed = parse(&a.certificate_der).expect("parses");
    let sig = parsed.signature.clone();
    let pos = (0..=a.certificate_der.len() - sig.len())
        .find(|&i| &a.certificate_der[i..i + sig.len()] == sig.as_slice())
        .expect("signature bytes are embedded");
    a.certificate_der[pos] ^= 0x01;
    let r = run_handshake(client_config(&b, None), server_config(&a));
    assert!(r.is_err());
}

#[test]
fn cloned_configs_run_many_independent_handshakes() {
    let ka = IdentityKeypair::generate();
    let a = Config::new(&ka).expect("config builds");
    let a_peer = a.local_peer.clone().to_bytes();
    for _ in 0..5 {
        let kb = IdentityKeypair::generate();
        let b = Config::new(&kb).expect("config builds");
        let dialer = b.clone();
        let listener = a.clone();
        let (client_saw, server_saw) =
            run_handshake(client_config(&dialer, None), server_config(&listener))
                .expect("handshake succeeds");
        assert_eq!(parse(&client_saw).unwrap().peer_id().to_bytes(), a_peer);
        assert_eq!(
            parse(&server_saw).unwrap().peer_id().to_bytes(),
            b.local_peer.clone().to_bytes()
        );
    }
}
