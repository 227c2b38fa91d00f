//! The error taxonomy of the handshake library.

use vstd::prelude::*;
use vstd::std_specs::convert::FromSpec;

verus! {

/// Certificate generation failures: the TLS key could not be generated, the
/// identity key refused to sign, or an encoded piece was too large to frame.
#[derive(Debug, Clone, Copy, PartialEq, Eq, Structural)]
pub enum GenError {
    /// Generating the ephemeral TLS key pair failed.
    KeyGeneration,
    /// Signing the key-binding message with the identity key failed.
    Signing,
    /// A component was too large for the certificate encoding.
    Encoding,
}

/// Certificate parsing and validation failures.
#[derive(Debug, Clone, Copy, PartialEq, Eq, Structural)]
pub enum ParseError {
    /// The bytes are not the expected ASN.1 structure.
    MalformedAsn1,
    /// The certificate or its key uses an algorithm other than ECDSA over
    /// P-256 with SHA-256.
    UnsupportedSignatureAlgorithm,
    /// No extension carries the libp2p signed-key object identifier.
    ExtensionMissing,
    /// More than one extension carries the libp2p signed-key object
    /// identifier.
    ExtensionDuplicate,
    /// The identity public key in the extension is not a valid protobuf
    /// encoding of a supported key.
    UnknownIdentityAlgorithm,
    /// The extension signature does not bind the identity key to the
    /// certificate's TLS key.
    BadExtensionSignature,
    /// The certificate is not signed by its own TLS key.
    BadLeafSignature,
}

/// Failures of the policy applied to a presented certificate chain.
#[derive(Debug)]
pub enum VerifyError {
    /// The end-entity certificate was rejected.
    BadCertificate(ParseError),
    /// The chain carried intermediate certificates; exactly one self-signed
    /// leaf is accepted.
    UnexpectedIntermediates,
    /// The certificate is valid but belongs to a peer other than the pinned
    /// one.
    PeerIdMismatch { expected: crate::PeerId, found: crate::PeerId },
}

/// The `std::io::Error` carried by the upgrade errors.
#[verifier::external_type_specification]
#[verifier::external_body]
pub struct ExIoError(std::io::Error);

/// The `multistream_select::NegotiationError` carried by a failed protocol
/// selection.
#[verifier::external_type_specification]
#[verifier::external_body]
pub struct ExNegotiationError(multistream_select::NegotiationError);

/// Everything that can go wrong while securing a connection.
#[derive(Debug)]
pub enum TlsUpgradeError {
    /// Generating the local certificate failed.
    CertificateGeneration(GenError),
    /// The inbound TLS handshake failed.
    ServerUpgrade(std::io::Error),
    /// The outbound TLS handshake failed.
    ClientUpgrade(std::io::Error),
    /// The peer certificate was absent, malformed, or carried an invalid
    /// signature.
    BadCertificate(ParseError),
    /// The peer is valid but is not the peer the dial was pinned to.
    PeerIdMismatch { expected: crate::PeerId, found: crate::PeerId },
}

/// An error of the upgrade as a whole: either protocol selection failed, or
/// the post-negotiation handshake did.
#[derive(Debug)]
pub enum UpgradeError<E> {
    /// Protocol negotiation failed.
    Select(multistream_select::NegotiationError),
    /// The handshake after a successful negotiation failed.
    Apply(E),
}

impl<E> UpgradeError<E> {
    /// Maps the handshake error, leaving a negotiation error untouched.
    pub fn map_err<T, F: FnOnce(E) -> T>(self, f: F) -> (r: UpgradeError<T>)
        requires
            forall|e: E| call_requires(f, (e,)),
        ensures
            match self {
                UpgradeError::Select(n) => (r matches UpgradeError::Select(m) && m == n),
                UpgradeError::Apply(e) => (r matches UpgradeError::Apply(t) && call_ensures(
                    f,
                    (e,),
                    t,
                )),
            },
    {
        match self {
            UpgradeError::Select(e) => UpgradeError::Select(e),
            UpgradeError::Apply(e) => UpgradeError::Apply(f(e)),
        }
    }

    /// Converts the handshake error through `From`, leaving a negotiation
    /// error untouched.
    pub fn into_err<T: From<E>>(self) -> (r: UpgradeError<T>)
        ensures
            match self {
                UpgradeError::Select(n) => (r matches UpgradeError::Select(m) && m == n),
                UpgradeError::Apply(e) => (r matches UpgradeError::Apply(t)
                    && (T::obeys_from_spec() ==> t == T::from_spec(e))),
            },
    {
        match self {
            UpgradeError::Select(e) => UpgradeError::Select(e),
            UpgradeError::Apply(e) => UpgradeError::Apply(T::from(e)),
        }
    }
}

} // verus!
