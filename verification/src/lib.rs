//! A libp2p-compatible TLS security handshake library.
//!
//! The certificate codec builds and parses the X.509 leaf certificate that
//! binds an ephemeral TLS key to a long-lived libp2p identity key through the
//! signed-key extension, the verifier module holds the policy applied to a
//! presented certificate chain, and the upgrade modules model the
//! security-upgrade decisions taken around protocol negotiation and the TLS
//! handshake.

use vstd::prelude::*;



pub mod apply;
pub mod certificate;
pub mod crypto;
pub mod der;
pub mod error;
pub mod upgrade;
pub mod policy;



verus! {

/// The canonical fingerprint of a libp2p identity public key, held as the
/// bytes of its multihash encoding.
#[derive(Debug, Clone, Eq, Hash)]
pub struct PeerId {
    bytes: Vec<u8>,
}

impl View for PeerId {
    type V = Seq<u8>;

    closed spec fn view(&self) -> Seq<u8> {
        self.bytes@
    }
}

impl PeerId {
    /// Wraps the multihash bytes of a peer identifier.
    pub fn from_bytes(bytes: Vec<u8>) -> (r: PeerId)
        ensures
            r@ == bytes@,
    {
        PeerId { bytes }
    }

    /// The multihash bytes of this peer identifier.
    pub fn to_bytes(self) -> (r: Vec<u8>)
        ensures
            r@ == self@,
    {
        self.bytes
    }

    /// The multihash bytes of this peer identifier, borrowed.
    pub fn as_bytes(&self) -> (r: &[u8])
        ensures
            r@ == self@,
    {
        self.bytes.as_slice()
    }
}

impl PartialEq for PeerId {
    fn eq(&self, other: &PeerId) -> (r: bool) {
        bytes_eq(self.bytes.as_slice(), other.bytes.as_slice())
    }
}

impl vstd::std_specs::cmp::PartialEqSpecImpl for PeerId {
    open spec fn obeys_eq_spec() -> bool {
        true
    }

    open spec fn eq_spec(&self, other: &PeerId) -> bool {
        self@ == other@
    }
}

/// Whether two byte strings hold the same bytes.
pub fn bytes_eq(a: &[u8], b: &[u8]) -> (r: bool)
    ensures
        r <==> a@ == b@,
{
    if a.len() != b.len() {
        return false;
    }
    let n = a.len();
    let mut i: usize = 0;
    while i < n
        invariant
            n == a.len() == b.len(),
            0 <= i <= n,
            forall|j: int| 0 <= j < i ==> a@[j] == b@[j],
        decreases n - i,
    {
        if a[i] != b[i] {
            return false;
        }
        i = i + 1;
    }
    proof {
        assert(a@ =~= b@);
    }
    true
}

} // verus!
