//! The certificate verifier policy: what is accepted from a presented
//! certificate chain, on either side of the handshake.

use vstd::prelude::*;

use crate::certificate::{parse, spec_parse_certificate};
use crate::crypto::spec_peer_id_of;
use crate::error::{TlsUpgradeError, VerifyError};
use crate::PeerId;

verus! {

/// The TLS 1.3 signature schemes the verifier accepts from a peer, as their
/// wire code points: ECDSA with the three NIST curves, the two Edwards
/// curves, and the RSA-PSS triple of the TLS 1.3 profile.
pub fn supported_signature_schemes() -> (r: Vec<u16>)
    ensures
        r@ == seq![0x0403u16, 0x0503, 0x0603, 0x0807, 0x0808, 0x0804, 0x0805, 0x0806],
{
    let mut v: Vec<u16> = Vec::new();
    v.push(0x0403);
    v.push(0x0503);
    v.push(0x0603);
    v.push(0x0807);
    v.push(0x0808);
    v.push(0x0804);
    v.push(0x0805);
    v.push(0x0806);
    assert(v@ =~= seq![0x0403u16, 0x0503, 0x0603, 0x0807, 0x0808, 0x0804, 0x0805, 0x0806]);
    v
}

/// The policy applied to a presented chain: no intermediates are accepted,
/// the end-entity certificate must parse as a peer-identity certificate, and
/// where a peer was pinned the certificate must name it.
pub fn verify_presented(
    end_entity: &[u8],
    intermediates: usize,
    expected_peer: Option<&PeerId>,
) -> (r: Result<PeerId, VerifyError>)
    ensures
        intermediates != 0 ==> (r matches Err(e) && e is UnexpectedIntermediates),
        intermediates == 0 ==> match spec_parse_certificate(end_entity@) {
            Ok(f) => match expected_peer {
                None => (r matches Ok(p) && p@ == spec_peer_id_of(f.identity_pubkey)),
                Some(x) => if x@ == spec_peer_id_of(f.identity_pubkey) {
                    (r matches Ok(p) && p@ == spec_peer_id_of(f.identity_pubkey))
                } else {
                    (r matches Err(e) && (e matches VerifyError::PeerIdMismatch {
                        expected: ex,
                        found,
                    } && (ex@ == x@ && found@ == spec_peer_id_of(f.identity_pubkey))))
                },
            },
            Err(pe) => (r matches Err(e) && (e matches VerifyError::BadCertificate(p2) && p2
                == pe)),
        },
{
    if intermediates != 0 {
        return Err(VerifyError::UnexpectedIntermediates);
    }
    let cert = match parse(end_entity) {
        Ok(c) => c,
        Err(e) => {
            return Err(VerifyError::BadCertificate(e));
        },
    };
    let found = cert.peer_id();
    match expected_peer {
        Some(x) => {
            if crate::bytes_eq(x.as_bytes(), found.as_bytes()) {
                Ok(found)
            } else {
                let expected = PeerId::from_bytes(vstd::slice::slice_to_vec(x.as_bytes()));
                Err(VerifyError::PeerIdMismatch { expected, found })
            }
        },
        None => Ok(found),
    }
}

} // verus!
