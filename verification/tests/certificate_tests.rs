//! Certificate codec tests: generation, parsing, round-trips, and tampering.

use p2p_tls_handshake::certificate::{encode_signed_key, generalized_time, generate, parse, sign_prefix};
use p2p_tls_handshake::crypto::IdentityKeypair;
use p2p_tls_handshake::error::ParseError;

fn find_subslice(haystack: &[u8], needle: &[u8]) -> Option<usize> {
    if needle.is_empty() || haystack.len() < needle.len() {
        return None;
    }
    (0..=haystack.len() - needle.len()).find(|&i| &haystack[i..i + needle.len()] == needle)
}

#[test]
fn generated_certificate_parses_to_generator_peer_id() {
    let identity = IdentityKeypair::generate();
    let (cert_der, _key_der) = generate(&identity).expect("generation succeeds");
    let cert = parse(&cert_der).expect("generated certificate parses");
    // The embedded identity key is the generator's.
    assert_eq!(cert.identity_pubkey, identity.public_protobuf());
    // The derived peer id matches the one libp2p derives from the same key.
    let pk = libp2p_identity::PublicKey::try_decode_protobuf(&identity.public_protobuf())
        .expect("identity key decodes");
    assert_eq!(cert.peer_id().to_bytes(), pk.to_peer_id().to_bytes());
}

#[test]
fn signed_key_extension_round_trips() {
    let identity = IdentityKeypair::generate();
    let (cert_der, _) = generate(&identity).expect("generation succeeds");
    let cert = parse(&cert_der).expect("generated certificate parses");
    let reencoded = encode_signed_key(&cert.identity_pubkey, &cert.signature);
    assert_eq!(cert.signed_key_extension, reencoded);
}

#[test]
fn tampered_extension_signature_is_rejected() {
    let identity = IdentityKeypair::generate();
    let (cert_der, _) = generate(&identity).expect("generation succeeds");
    let cert = parse(&cert_der).expect("generated certificate parses");
    // Locate the extension signature inside the certificate and flip one bit
    // of each byte in turn.
    let sig_pos = find_subslice(&cert_der, &cert.signature).expect("signature bytes are embedded");
    for i in 0..cert.signature.len() {
        let mut tampered = cert_der.clone();
        tampered[sig_pos + i] ^= 0x01;
        assert!(parse(&tampered).is_err(), "tampered byte {} must be rejected", i);
    }
}

#[test]
fn tampered_extension_oid_reads_as_missing_extension() {
    let identity = IdentityKeypair::generate();
    let (cert_der, _) = generate(&identity).expect("generation succeeds");
    let oid: &[u8] = &[0x2b, 0x06, 0x01, 0x04, 0x01, 0x83, 0xa2, 0x5a, 0x01, 0x01];
    let pos = find_subslice(&cert_der, oid).expect("extension oid is embedded");
    let mut tampered = cert_der.clone();
    tampered[pos + oid.len() - 1] ^= 0x01;
    assert!(matches!(parse(&tampered), Err(ParseError::ExtensionMissing)));
}

#[test]
fn truncated_or_garbage_input_is_malformed() {
    let identity = IdentityKeypair::generate();
    let (cert_der, _) = generate(&identity).expect("generation succeeds");
    assert!(matches!(parse(&[]), Err(ParseError::MalformedAsn1)));
    assert!(matches!(parse(&[0x30]), Err(ParseError::MalformedAsn1)));
    assert!(matches!(
        parse(&cert_der[..cert_der.len() - 1]),
        Err(ParseError::MalformedAsn1)
    ));
    let garbage = vec![0xffu8; 64];
    assert!(parse(&garbage).is_err());
}

#[test]
fn tampered_leaf_signature_is_rejected() {
    let identity = IdentityKeypair::generate();
    let (cert_der, _) = generate(&identity).expect("generation succeeds");
    // The last byte belongs to the leaf signature bits.
    let mut tampered = cert_der.clone();
    let last = tampered.len() - 1;
    tampered[last] ^= 0x01;
    assert!(matches!(parse(&tampered), Err(ParseError::BadLeafSignature)));
}

#[test]
fn tampered_identity_key_is_unknown_algorithm() {
    let identity = IdentityKeypair::generate();
    let (cert_der, _) = generate(&identity).expect("generation succeeds");
    let cert = parse(&cert_der).expect("generated certificate parses");
    // Corrupt the protobuf key type tag of the embedded identity key.
    let pk_pos = find_subslice(&cert_der, &cert.identity_pubkey).expect("key bytes are embedded");
    let mut tampered = cert_der.clone();
    tampered[pk_pos] ^= 0xff;
    assert!(matches!(
        parse(&tampered),
        Err(ParseError::UnknownIdentityAlgorithm) | Err(ParseError::BadExtensionSignature)
    ));
}

#[test]
fn sign_prefix_is_the_domain_separation_tag() {
    assert_eq!(sign_prefix(), b"libp2p-tls-handshake:".to_vec());
}

#[test]
fn two_identities_give_distinct_peers() {
    let a = IdentityKeypair::generate();
    let b = IdentityKeypair::generate();
    let (cert_a, _) = generate(&a).expect("generation succeeds");
    let (cert_b, _) = generate(&b).expect("generation succeeds");
    let pa = parse(&cert_a).expect("parses").peer_id();
    let pb = parse(&cert_b).expect("parses").peer_id();
    assert!(pa != pb);
}

#[test]
fn generalized_time_formats_known_instants() {
    // The epoch itself.
    assert_eq!(generalized_time(0), b"19700101000000Z".to_vec());
    // A leap day of a leap century.
    assert_eq!(generalized_time(951782400), b"20000229000000Z".to_vec());
    // An ordinary instant.
    assert_eq!(generalized_time(1700000000), b"20231114221320Z".to_vec());
    // The last representable second, and clamping beyond it.
    assert_eq!(generalized_time(253402300799), b"99991231235959Z".to_vec());
    assert_eq!(generalized_time(u64::MAX), b"99991231235959Z".to_vec());
}
