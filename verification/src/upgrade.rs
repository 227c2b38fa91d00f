//! The security upgrade: the handshake configuration material and the
//! decisions taken when a TLS handshake completes.

use vstd::prelude::*;

use crate::certificate::{generate, parse, spec_parse_certificate, P2pCertificate, SpecCertFields};
use crate::crypto::{derive_peer_id, identity_wf, spec_peer_id_of, IdentityKeypair};
use crate::error::{ParseError, TlsUpgradeError};
use crate::PeerId;

verus! {

/// The single protocol name advertised for the security upgrade.
pub fn protocol_name() -> (r: &'static str)
    ensures
        r@ == "/tls/1.0.0"@,
{
    "/tls/1.0.0"
}

/// The ALPN protocol name of the TLS handshake: the ASCII bytes of `libp2p`.
pub fn alpn_protocol() -> (r: Vec<u8>)
    ensures
        r@ == seq![0x6cu8, 0x69, 0x62, 0x70, 0x32, 0x70],
{
    let mut v: Vec<u8> = Vec::new();
    v.push(0x6c);
    v.push(0x69);
    v.push(0x62);
    v.push(0x70);
    v.push(0x32);
    v.push(0x70);
    assert(v@ =~= seq![0x6cu8, 0x69, 0x62, 0x70, 0x32, 0x70]);
    v
}

/// The handshake material of one node: the certificate presented on both the
/// server and the client side, its TLS private key, and the local peer
/// identifier the certificate binds. Cloning shares nothing mutable.
#[derive(Clone)]
pub struct Config {
    /// The DER encoding of the peer-identity certificate.
    pub certificate_der: Vec<u8>,
    /// The PKCS#8 encoding of the certificate's private key.
    pub private_key_der: Vec<u8>,
    /// The peer identifier bound by the certificate.
    pub local_peer: PeerId,
}

impl Config {
    /// Builds the handshake material for `identity`: a freshly generated
    /// certificate bound to it. The certificate parses back to the identity
    /// it was generated for, and the held peer identifier is the one derived
    /// from that identity.
    pub fn new(identity: &IdentityKeypair) -> (r: Result<Config, TlsUpgradeError>)
        ensures
            match r {
                Ok(c) => (spec_parse_certificate(c.certificate_der@) matches Ok(f)
                    && f.identity_pubkey == identity.spec_public() && c.local_peer@
                    == spec_peer_id_of(identity.spec_public())),
                Err(e) => e is CertificateGeneration,
            },
    {
        identity_wf(identity);
        let (cert, key) = match generate(identity) {
            Ok(x) => x,
            Err(e) => {
                return Err(TlsUpgradeError::CertificateGeneration(e));
            },
        };
        let pk = identity.public_protobuf();
        let peer = derive_peer_id(pk.as_slice());
        Ok(
            Config {
                certificate_der: cert,
                private_key_der: key,
                local_peer: PeerId::from_bytes(peer),
            },
        )
    }

    /// The single protocol name this upgrade advertises.
    pub fn protocol_info(&self) -> (r: &'static str)
        ensures
            r@ == "/tls/1.0.0"@,
    {
        protocol_name()
    }

    /// The decision closing an inbound handshake: the single certificate the
    /// remote presented names the remote peer.
    pub fn secure_inbound_outcome(&self, peer_certs: &Vec<Vec<u8>>) -> (r: Result<
        PeerId,
        TlsUpgradeError,
    >)
        requires
            peer_certs@.len() == 1,
        ensures
            match spec_parse_certificate(peer_certs@[0]@) {
                Ok(f) => (r matches Ok(p) && p@ == spec_peer_id_of(f.identity_pubkey)),
                Err(pe) => (r matches Err(e) && (e matches TlsUpgradeError::BadCertificate(p2)
                    && p2 == pe)),
            },
    {
        match extract_single_certificate(peer_certs) {
            Ok(c) => Ok(c.peer_id()),
            Err(e) => Err(TlsUpgradeError::BadCertificate(e)),
        }
    }

    /// The decision closing an outbound handshake: the single certificate the
    /// remote presented names the found peer; where a peer was pinned, the
    /// found peer must be the pinned one, and any other valid peer is turned
    /// away with both identifiers.
    pub fn secure_outbound_outcome(
        &self,
        peer_certs: &Vec<Vec<u8>>,
        expected: Option<&PeerId>,
    ) -> (r: Result<PeerId, TlsUpgradeError>)
        requires
            peer_certs@.len() == 1,
        ensures
            match spec_parse_certificate(peer_certs@[0]@) {
                Ok(f) => match expected {
                    None => (r matches Ok(p) && p@ == spec_peer_id_of(f.identity_pubkey)),
                    Some(x) => if x@ == spec_peer_id_of(f.identity_pubkey) {
                        (r matches Ok(p) && p@ == spec_peer_id_of(f.identity_pubkey))
                    } else {
                        (r matches Err(e) && (e matches TlsUpgradeError::PeerIdMismatch {
                            expected: ex,
                            found,
                        } && (ex@ == x@ && found@ == spec_peer_id_of(f.identity_pubkey))))
                    },
                },
                Err(pe) => (r matches Err(e) && (e matches TlsUpgradeError::BadCertificate(p2)
                    && p2 == pe)),
            },
    {
        let cert = match extract_single_certificate(peer_certs) {
            Ok(c) => c,
            Err(e) => {
                return Err(TlsUpgradeError::BadCertificate(e));
            },
        };
        let found = cert.peer_id();
        match expected {
            Some(x) => {
                if crate::bytes_eq(x.as_bytes(), found.as_bytes()) {
                    Ok(found)
                } else {
                    let expected_peer = PeerId::from_bytes(
                        vstd::slice::slice_to_vec(x.as_bytes()),
                    );
                    Err(TlsUpgradeError::PeerIdMismatch { expected: expected_peer, found })
                }
            },
            None => Ok(found),
        }
    }
}

/// Parses the single certificate a completed handshake presented. The TLS
/// configuration enforces exactly one certificate, so any other count never
/// reaches this point.
pub fn extract_single_certificate(certs: &Vec<Vec<u8>>) -> (r: Result<P2pCertificate, ParseError>)
    requires
        certs@.len() == 1,
    ensures
        match r {
            Ok(c) => (spec_parse_certificate(certs@[0]@) matches Ok(f) && c.identity_pubkey@
                == f.identity_pubkey && c.signature@ == f.ext_signature && c.public_point@
                == f.point && c.signed_key_extension@ == f.ext_value && c.peer_id_bytes@
                == spec_peer_id_of(f.identity_pubkey)),
            Err(e) => spec_parse_certificate(certs@[0]@) == Err::<SpecCertFields, _>(e),
        },
{
    parse(certs[0].as_slice())
}

} // verus!
