//! Verifier-policy and upgrade-outcome tests: intermediates, pinning, and the
//! mismatch error.

use p2p_tls_handshake::certificate::{generate, parse};
use p2p_tls_handshake::crypto::IdentityKeypair;
use p2p_tls_handshake::error::{TlsUpgradeError, VerifyError};
use p2p_tls_handshake::policy::{supported_signature_schemes, verify_presented};
use p2p_tls_handshake::upgrade::Config;
use p2p_tls_handshake::PeerId;

#[test]
fn any_intermediate_is_rejected() {
    let identity = IdentityKeypair::generate();
    let (cert_der, _) = generate(&identity).expect("generation succeeds");
    for n in 1..4usize {
        assert!(matches!(
            verify_presented(&cert_der, n, None),
            Err(VerifyError::UnexpectedIntermediates)
        ));
    }
    assert!(verify_presented(&cert_der, 0, None).is_ok());
}

#[test]
fn pinning_the_wrong_peer_is_rejected() {
    let k1 = IdentityKeypair::generate();
    let k2 = IdentityKeypair::generate();
    let (cert1, _) = generate(&k1).expect("generation succeeds");
    let (cert2, _) = generate(&k2).expect("generation succeeds");
    let peer2 = parse(&cert2).expect("parses").peer_id();
    // A certificate generated by k1 cannot verify under k2's peer id.
    assert!(matches!(
        verify_presented(&cert1, 0, Some(&peer2)),
        Err(VerifyError::PeerIdMismatch { .. })
    ));
    // It does verify under its own peer id.
    let peer1 = parse(&cert1).expect("parses").peer_id();
    let ok = verify_presented(&cert1, 0, Some(&peer1)).expect("own peer id verifies");
    assert_eq!(ok.to_bytes(), peer1.to_bytes());
}

#[test]
fn outbound_without_pin_accepts_any_peer() {
    let local = IdentityKeypair::generate();
    let remote = IdentityKeypair::generate();
    let config = Config::new(&local).expect("config builds");
    let (remote_cert, _) = generate(&remote).expect("generation succeeds");
    let certs = vec![remote_cert.clone()];
    let found = config
        .secure_outbound_outcome(&certs, None)
        .expect("unpinned outbound accepts any peer");
    assert_eq!(found.to_bytes(), parse(&remote_cert).unwrap().peer_id().to_bytes());
}

#[test]
fn outbound_with_wrong_pin_reports_both_peers() {
    let local = IdentityKeypair::generate();
    let remote = IdentityKeypair::generate();
    let config = Config::new(&local).expect("config builds");
    let (remote_cert, _) = generate(&remote).expect("generation succeeds");
    let remote_peer = parse(&remote_cert).unwrap().peer_id();
    let pinned = config.local_peer.clone();
    let certs = vec![remote_cert];
    match config.secure_outbound_outcome(&certs, Some(&pinned)) {
        Err(TlsUpgradeError::PeerIdMismatch { expected, found }) => {
            assert_eq!(expected.to_bytes(), pinned.to_bytes());
            assert_eq!(found.to_bytes(), remote_peer.to_bytes());
        },
        other => panic!("expected a peer id mismatch, got {:?}", other.map(|p| p.to_bytes())),
    }
}

#[test]
fn outbound_with_matching_pin_succeeds() {
    let local = IdentityKeypair::generate();
    let remote = IdentityKeypair::generate();
    let config = Config::new(&local).expect("config builds");
    let (remote_cert, _) = generate(&remote).expect("generation succeeds");
    let remote_peer = parse(&remote_cert).unwrap().peer_id();
    let certs = vec![remote_cert];
    let found = config
        .secure_outbound_outcome(&certs, Some(&remote_peer))
        .expect("matching pin succeeds");
    assert_eq!(found.to_bytes(), remote_peer.to_bytes());
}

#[test]
fn inbound_outcome_names_the_presenting_peer() {
    let local = IdentityKeypair::generate();
    let remote = IdentityKeypair::generate();
    let config = Config::new(&local).expect("config builds");
    let (remote_cert, _) = generate(&remote).expect("generation succeeds");
    let remote_peer = parse(&remote_cert).unwrap().peer_id();
    let certs = vec![remote_cert];
    let found = config.secure_inbound_outcome(&certs).expect("inbound accepts the peer");
    assert_eq!(found.to_bytes(), remote_peer.to_bytes());
}

#[test]
fn bad_certificate_surfaces_from_outcomes() {
    let local = IdentityKeypair::generate();
    let config = Config::new(&local).expect("config builds");
    let certs = vec![vec![0xde, 0xad, 0xbe, 0xef]];
    assert!(matches!(
        config.secure_inbound_outcome(&certs),
        Err(TlsUpgradeError::BadCertificate(_))
    ));
    assert!(matches!(
        config.secure_outbound_outcome(&certs, None),
        Err(TlsUpgradeError::BadCertificate(_))
    ));
}

#[test]
fn scheme_list_is_the_tls13_profile() {
    let schemes = supported_signature_schemes();
    assert_eq!(
        schemes,
        vec![0x0403, 0x0503, 0x0603, 0x0807, 0x0808, 0x0804, 0x0805, 0x0806]
    );
}

#[test]
fn peer_id_equality_follows_bytes() {
    let a = PeerId::from_bytes(vec![1, 2, 3]);
    let b = PeerId::from_bytes(vec![1, 2, 3]);
    let c = PeerId::from_bytes(vec![1, 2, 4]);
    assert!(a == b);
    assert!(a != c);
    assert_eq!(a.as_bytes(), &[1, 2, 3]);
}
