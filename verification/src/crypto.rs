//! The cryptographic primitives the certificate codec is built on, behind
//! trusted declarations: libp2p identity keys and the ephemeral P-256 TLS
//! signing key.

use vstd::prelude::*;
use vstd::slice::slice_to_vec;

verus! {

#[verifier::external_type_specification]
#[verifier::external_body]
pub struct ExKeypair(libp2p_identity::Keypair);

#[verifier::external_type_specification]
#[verifier::external_body]
pub struct ExEcdsaKeyPair(ring::signature::EcdsaKeyPair);

/// Whether the bytes are the protobuf encoding of a supported libp2p identity
/// public key, as decided by `libp2p_identity::PublicKey::try_decode_protobuf`.
pub uninterp spec fn spec_is_identity_key(pk: Seq<u8>) -> bool;

/// The multihash bytes of the peer identifier that
/// `libp2p_identity::PublicKey::to_peer_id` derives from the identity public
/// key whose protobuf encoding is `pk`.
pub uninterp spec fn spec_peer_id_of(pk: Seq<u8>) -> Seq<u8>;

/// Whether `sig` is a valid signature of `msg` under the identity public key
/// whose protobuf encoding is `pk`, as decided by
/// `libp2p_identity::PublicKey::verify`.
pub uninterp spec fn spec_identity_sig_ok(pk: Seq<u8>, msg: Seq<u8>, sig: Seq<u8>) -> bool;

/// Whether `sig` is a valid ASN.1-encoded ECDSA P-256/SHA-256 signature of
/// `msg` under the public key with uncompressed point `point`, as decided by
/// `ring::signature::ECDSA_P256_SHA256_ASN1`.
pub uninterp spec fn spec_p256_sig_ok(point: Seq<u8>, msg: Seq<u8>, sig: Seq<u8>) -> bool;

/// A long-lived libp2p identity key pair, together with the protobuf encoding
/// of its public key.
pub struct IdentityKeypair {
    inner: libp2p_identity::Keypair,
    public_protobuf: Vec<u8>,
}

impl IdentityKeypair {
    /// The protobuf encoding of the public half.
    pub closed spec fn spec_public(&self) -> Seq<u8> {
        self.public_protobuf@
    }

    /// The held encoding is always that of a valid identity public key.
    #[verifier::type_invariant]
    closed spec fn wf(&self) -> bool {
        spec_is_identity_key(self.public_protobuf@)
    }

    /// Relies on `libp2p_identity::Keypair::generate_ed25519` and
    /// `PublicKey::encode_protobuf`: a fresh Ed25519 identity key pair whose
    /// public half is held in its protobuf encoding.
    #[verifier::external_body]
    pub fn generate() -> (r: IdentityKeypair)
        ensures
            spec_is_identity_key(r.spec_public()),
    {
        let inner = libp2p_identity::Keypair::generate_ed25519();
        let public_protobuf = inner.public().encode_protobuf();
        IdentityKeypair { inner, public_protobuf }
    }

    /// The protobuf encoding of the public half, as owned bytes.
    pub fn public_protobuf(&self) -> (r: Vec<u8>)
        ensures
            r@ == self.spec_public(),
    {
        slice_to_vec(self.public_protobuf.as_slice())
    }

    /// Relies on `libp2p_identity::Keypair::sign`: a returned signature is
    /// valid for the message under this key pair's public key.
    #[verifier::external_body]
    pub fn sign(&self, msg: &[u8]) -> (r: Option<Vec<u8>>)
        ensures
            r matches Some(sig) ==> spec_identity_sig_ok(self.spec_public(), msg@, sig@),
    {
        self.inner.sign(msg).ok()
    }
}

/// Every identity key pair holds the encoding of a valid identity public key.
pub fn identity_wf(kp: &IdentityKeypair)
    ensures
        spec_is_identity_key(kp.spec_public()),
{
    proof {
        use_type_invariant(kp);
    }
}

/// Relies on `libp2p_identity::PublicKey::try_decode_protobuf`: whether the
/// bytes are the protobuf encoding of a supported identity public key.
#[verifier::external_body]
pub fn identity_key_valid(pk: &[u8]) -> (r: bool)
    ensures
        r == spec_is_identity_key(pk@),
{
    libp2p_identity::PublicKey::try_decode_protobuf(pk).is_ok()
}

/// Relies on `libp2p_identity::PublicKey::verify` after
/// `try_decode_protobuf`: whether `sig` is a valid signature of `msg` under
/// the identity key encoded in `pk`; false where `pk` is not a valid encoding.
#[verifier::external_body]
pub fn identity_verify(pk: &[u8], msg: &[u8], sig: &[u8]) -> (r: bool)
    ensures
        r == spec_identity_sig_ok(pk@, msg@, sig@),
{
    match libp2p_identity::PublicKey::try_decode_protobuf(pk) {
        Ok(key) => key.verify(msg, sig),
        Err(_) => false,
    }
}

/// Relies on `libp2p_identity::PublicKey::to_peer_id` and
/// `PeerId::to_bytes`: the multihash bytes of the canonical peer identifier of
/// the identity public key encoded in `pk`.
#[verifier::external_body]
pub fn derive_peer_id(pk: &[u8]) -> (r: Vec<u8>)
    requires
        spec_is_identity_key(pk@),
    ensures
        r@ == spec_peer_id_of(pk@),
{
    match libp2p_identity::PublicKey::try_decode_protobuf(pk) {
        Ok(key) => key.to_peer_id().to_bytes(),
        Err(_) => Vec::new(),
    }
}

/// An ephemeral P-256 TLS signing key: the key pair, the uncompressed point of
/// its public key, and its PKCS#8 encoding.
pub struct TlsKeypair {
    inner: ring::signature::EcdsaKeyPair,
    public_point: Vec<u8>,
    pkcs8: Vec<u8>,
}

impl TlsKeypair {
    /// The uncompressed point of the public key.
    pub closed spec fn spec_point(&self) -> Seq<u8> {
        self.public_point@
    }

    /// The PKCS#8 encoding of the private key.
    pub closed spec fn spec_pkcs8(&self) -> Seq<u8> {
        self.pkcs8@
    }

    /// Relies on `ring::signature::EcdsaKeyPair::generate_pkcs8` and
    /// `from_pkcs8` with the P-256/SHA-256 ASN.1 signing algorithm, and on
    /// `ring::signature::KeyPair::public_key`: a fresh P-256 key pair held
    /// with its uncompressed public point and its PKCS#8 encoding.
    #[verifier::external_body]
    pub fn generate() -> (r: Option<TlsKeypair>)
    {
        let rng = ring::rand::SystemRandom::new();
        let alg = &ring::signature::ECDSA_P256_SHA256_ASN1_SIGNING;
        let doc = ring::signature::EcdsaKeyPair::generate_pkcs8(alg, &rng).ok()?;
        let inner = ring::signature::EcdsaKeyPair::from_pkcs8(alg, doc.as_ref(), &rng).ok()?;
        let public_point = ring::signature::KeyPair::public_key(&inner).as_ref().to_vec();
        let pkcs8 = doc.as_ref().to_vec();
        Some(TlsKeypair { inner, public_point, pkcs8 })
    }

    /// Relies on `ring::signature::EcdsaKeyPair::sign`: a returned signature
    /// is valid for the message under this key pair's public point.
    #[verifier::external_body]
    pub fn sign(&self, msg: &[u8]) -> (r: Option<Vec<u8>>)
        ensures
            r matches Some(sig) ==> spec_p256_sig_ok(self.spec_point(), msg@, sig@),
    {
        let rng = ring::rand::SystemRandom::new();
        match self.inner.sign(&rng, msg) {
            Ok(sig) => Some(sig.as_ref().to_vec()),
            Err(_) => None,
        }
    }

    /// The uncompressed point of the public key, as owned bytes.
    pub fn public_point(&self) -> (r: Vec<u8>)
        ensures
            r@ == self.spec_point(),
    {
        slice_to_vec(self.public_point.as_slice())
    }

    /// The PKCS#8 encoding of the private key, as owned bytes.
    pub fn pkcs8_der(&self) -> (r: Vec<u8>)
        ensures
            r@ == self.spec_pkcs8(),
    {
        slice_to_vec(self.pkcs8.as_slice())
    }
}

/// Relies on `ring::signature::UnparsedPublicKey::verify` with the
/// P-256/SHA-256 ASN.1 algorithm: whether `sig` is a valid ECDSA signature of
/// `msg` under the uncompressed point `point`.
#[verifier::external_body]
pub fn p256_verify(point: &[u8], msg: &[u8], sig: &[u8]) -> (r: bool)
    ensures
        r == spec_p256_sig_ok(point@, msg@, sig@),
{
    let key = ring::signature::UnparsedPublicKey::new(
        &ring::signature::ECDSA_P256_SHA256_ASN1,
        point,
    );
    key.verify(msg, sig).is_ok()
}

/// Relies on `std::time::SystemTime::now`: the current time as whole seconds
/// since the Unix epoch, and zero where the clock reads before the epoch.
#[verifier::external_body]
pub fn unix_now_seconds() -> u64 {
    match std::time::SystemTime::now().duration_since(std::time::UNIX_EPOCH) {
        Ok(d) => d.as_secs(),
        Err(_) => 0,
    }
}

} // verus!
