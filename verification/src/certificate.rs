//! The peer-identity certificate codec: generation and parsing of the
//! self-signed X.509 leaf certificate whose libp2p signed-key extension binds
//! the ephemeral TLS key to the long-lived identity key.

use vstd::prelude::*;
use vstd::slice::{slice_subrange, slice_to_vec};

use crate::crypto::{
    derive_peer_id, identity_key_valid, identity_verify, identity_wf, p256_verify,
    spec_identity_sig_ok, spec_is_identity_key, spec_p256_sig_ok, spec_peer_id_of, unix_now_seconds,
    IdentityKeypair, TlsKeypair,
};
use crate::der::{read_tlv, spec_read_tlv, spec_tlv, write_tlv};
use crate::error::{GenError, ParseError};

verus! {

/// The domain-separation prefix of the signed key-binding message:
/// the ASCII bytes of `libp2p-tls-handshake:`.
pub open spec fn spec_sign_prefix() -> Seq<u8> {
    seq![
        0x6cu8, 0x69, 0x62, 0x70, 0x32, 0x70, 0x2d, 0x74, 0x6c, 0x73, 0x2d, 0x68, 0x61, 0x6e,
        0x64, 0x73, 0x68, 0x61, 0x6b, 0x65, 0x3a,
    ]
}

/// The encoded object identifier 1.3.6.1.4.1.53594.1.1 of the libp2p
/// signed-key extension.
pub open spec fn spec_oid_libp2p_ext() -> Seq<u8> {
    seq![0x2bu8, 0x06, 0x01, 0x04, 0x01, 0x83, 0xa2, 0x5a, 0x01, 0x01]
}

/// The encoded object identifier 1.2.840.10045.2.1 (elliptic-curve public
/// key).
pub open spec fn spec_oid_ec_pubkey() -> Seq<u8> {
    seq![0x2au8, 0x86, 0x48, 0xce, 0x3d, 0x02, 0x01]
}

/// The encoded object identifier 1.2.840.10045.3.1.7 (the P-256 curve).
pub open spec fn spec_oid_p256() -> Seq<u8> {
    seq![0x2au8, 0x86, 0x48, 0xce, 0x3d, 0x03, 0x01, 0x07]
}

/// The encoded object identifier 1.2.840.10045.4.3.2 (ECDSA with SHA-256).
pub open spec fn spec_oid_ecdsa_sha256() -> Seq<u8> {
    seq![0x2au8, 0x86, 0x48, 0xce, 0x3d, 0x04, 0x03, 0x02]
}

/// The AlgorithmIdentifier of ECDSA with SHA-256: a sequence holding only the
/// algorithm object identifier.
#[verifier::opaque]
pub open spec fn spec_alg_id() -> Seq<u8> {
    spec_tlv(0x30, spec_tlv(0x06, spec_oid_ecdsa_sha256()))
}

/// The AlgorithmIdentifier of an elliptic-curve public key on P-256.
#[verifier::opaque]
pub open spec fn spec_ec_alg_id() -> Seq<u8> {
    spec_tlv(0x30, spec_tlv(0x06, spec_oid_ec_pubkey()) + spec_tlv(0x06, spec_oid_p256()))
}

/// The SubjectPublicKeyInfo of an elliptic-curve public key with uncompressed
/// point `point`.
#[verifier::opaque]
pub open spec fn spec_spki(point: Seq<u8>) -> Seq<u8> {
    spec_tlv(0x30, spec_ec_alg_id() + spec_tlv(0x03, seq![0x00u8] + point))
}

/// The X.501 name used for both issuer and subject: a single common name
/// holding the ASCII bytes of `libp2p`.
#[verifier::opaque]
pub open spec fn spec_name() -> Seq<u8> {
    spec_tlv(
        0x30,
        spec_tlv(
            0x31,
            spec_tlv(
                0x30,
                spec_tlv(0x06, seq![0x55u8, 0x04, 0x03]) + spec_tlv(
                    0x0c,
                    seq![0x6cu8, 0x69, 0x62, 0x70, 0x32, 0x70],
                ),
            ),
        ),
    )
}

/// The validity element: two GeneralizedTime strings.
#[verifier::opaque]
pub open spec fn spec_validity(nb: Seq<u8>, na: Seq<u8>) -> Seq<u8> {
    spec_tlv(0x30, spec_tlv(0x18, nb) + spec_tlv(0x18, na))
}

/// The explicit version element for an X.509 v3 certificate.
#[verifier::opaque]
pub open spec fn spec_version() -> Seq<u8> {
    spec_tlv(0xa0, spec_tlv(0x02, seq![0x02u8]))
}

/// The serial-number element; the serial carries no meaning for a self-signed
/// ephemeral leaf.
#[verifier::opaque]
pub open spec fn spec_serial() -> Seq<u8> {
    spec_tlv(0x02, seq![0x01u8])
}

/// The signed-key extension value: a sequence of two octet strings, the
/// protobuf encoding of the identity public key and the signature of the
/// key-binding message.
#[verifier::opaque]
pub open spec fn spec_signed_key_ext(pk: Seq<u8>, sig: Seq<u8>) -> Seq<u8> {
    spec_tlv(0x30, spec_tlv(0x04, pk) + spec_tlv(0x04, sig))
}

/// A single extension entry: the libp2p object identifier and the
/// octet-string value `extv`.
pub open spec fn spec_ext_entry(extv: Seq<u8>) -> Seq<u8> {
    spec_tlv(0x30, spec_tlv(0x06, spec_oid_libp2p_ext()) + spec_tlv(0x04, extv))
}

/// The extensions element: a single non-critical extension under the libp2p
/// object identifier, whose octet-string value is `extv`.
#[verifier::opaque]
pub open spec fn spec_extensions(extv: Seq<u8>) -> Seq<u8> {
    spec_tlv(0xa3, spec_tlv(0x30, spec_ext_entry(extv)))
}

/// The TBSCertificate of the peer-identity leaf.
/// The content of the TBSCertificate sequence.
pub open spec fn spec_tbs_content(
    pk: Seq<u8>,
    sig: Seq<u8>,
    point: Seq<u8>,
    nb: Seq<u8>,
    na: Seq<u8>,
) -> Seq<u8> {
    spec_version() + spec_serial() + spec_alg_id() + spec_name() + spec_validity(nb, na)
        + spec_name() + spec_spki(point) + spec_extensions(spec_signed_key_ext(pk, sig))
}

/// The content of a TBSCertificate sequence of the generated shape whose
/// extension list holds the single extension entry `entry`.
pub open spec fn spec_tbs_content_with(
    point: Seq<u8>,
    nb: Seq<u8>,
    na: Seq<u8>,
    entry: Seq<u8>,
) -> Seq<u8> {
    spec_version() + spec_serial() + spec_alg_id() + spec_name() + spec_validity(nb, na)
        + spec_name() + spec_spki(point) + spec_tlv(0xa3, spec_tlv(0x30, entry))
}

#[verifier::opaque]
pub open spec fn spec_tbs(
    pk: Seq<u8>,
    sig: Seq<u8>,
    point: Seq<u8>,
    nb: Seq<u8>,
    na: Seq<u8>,
) -> Seq<u8> {
    spec_tlv(0x30, spec_tbs_content(pk, sig, point, nb, na))
}

/// The complete certificate: the TBSCertificate, the signature algorithm, and
/// the leaf signature as a bit string.
/// The content of the outermost certificate sequence.
pub open spec fn spec_cert_content(tbs: Seq<u8>, cert_sig: Seq<u8>) -> Seq<u8> {
    tbs + spec_alg_id() + spec_tlv(0x03, seq![0x00u8] + cert_sig)
}

#[verifier::opaque]
pub open spec fn spec_certificate(tbs: Seq<u8>, cert_sig: Seq<u8>) -> Seq<u8> {
    spec_tlv(0x30, spec_cert_content(tbs, cert_sig))
}

/// The domain-separation prefix, as bytes.
pub fn sign_prefix() -> (r: Vec<u8>)
    ensures
        r@ == spec_sign_prefix(),
{
    let mut v: Vec<u8> = Vec::new();
    v.push(0x6c);
    v.push(0x69);
    v.push(0x62);
    v.push(0x70);
    v.push(0x32);
    v.push(0x70);
    v.push(0x2d);
    v.push(0x74);
    v.push(0x6c);
    v.push(0x73);
    v.push(0x2d);
    v.push(0x68);
    v.push(0x61);
    v.push(0x6e);
    v.push(0x64);
    v.push(0x73);
    v.push(0x68);
    v.push(0x61);
    v.push(0x6b);
    v.push(0x65);
    v.push(0x3a);
    assert(v@ =~= spec_sign_prefix());
    v
}

/// The encoded libp2p extension object identifier, as bytes.
pub fn oid_libp2p_ext() -> (r: Vec<u8>)
    ensures
        r@ == spec_oid_libp2p_ext(),
{
    let mut v: Vec<u8> = Vec::new();
    v.push(0x2b);
    v.push(0x06);
    v.push(0x01);
    v.push(0x04);
    v.push(0x01);
    v.push(0x83);
    v.push(0xa2);
    v.push(0x5a);
    v.push(0x01);
    v.push(0x01);
    assert(v@ =~= spec_oid_libp2p_ext());
    v
}

/// The AlgorithmIdentifier of ECDSA with SHA-256, as bytes.
pub fn alg_id() -> (r: Vec<u8>)
    ensures
        r@ == spec_alg_id(),
        r@.len() == 12,
{
    proof {
        reveal(spec_alg_id);
    }
    let mut oid: Vec<u8> = Vec::new();
    oid.push(0x2a);
    oid.push(0x86);
    oid.push(0x48);
    oid.push(0xce);
    oid.push(0x3d);
    oid.push(0x04);
    oid.push(0x03);
    oid.push(0x02);
    assert(oid@ =~= spec_oid_ecdsa_sha256());
    let mut c: Vec<u8> = Vec::new();
    write_tlv(&mut c, 0x06, oid.as_slice());
    let mut v: Vec<u8> = Vec::new();
    write_tlv(&mut v, 0x30, c.as_slice());
    assert(c@ =~= spec_tlv(0x06, spec_oid_ecdsa_sha256()));
    assert(v@ =~= spec_alg_id());
    v
}

/// The AlgorithmIdentifier of an elliptic-curve key on P-256, as bytes.
pub fn ec_alg_id() -> (r: Vec<u8>)
    ensures
        r@ == spec_ec_alg_id(),
        r@.len() == 21,
{
    proof {
        reveal(spec_ec_alg_id);
    }
    let mut o1: Vec<u8> = Vec::new();
    o1.push(0x2a);
    o1.push(0x86);
    o1.push(0x48);
    o1.push(0xce);
    o1.push(0x3d);
    o1.push(0x02);
    o1.push(0x01);
    assert(o1@ =~= spec_oid_ec_pubkey());
    let mut o2: Vec<u8> = Vec::new();
    o2.push(0x2a);
    o2.push(0x86);
    o2.push(0x48);
    o2.push(0xce);
    o2.push(0x3d);
    o2.push(0x03);
    o2.push(0x01);
    o2.push(0x07);
    assert(o2@ =~= spec_oid_p256());
    let mut c: Vec<u8> = Vec::new();
    write_tlv(&mut c, 0x06, o1.as_slice());
    write_tlv(&mut c, 0x06, o2.as_slice());
    let mut v: Vec<u8> = Vec::new();
    write_tlv(&mut v, 0x30, c.as_slice());
    assert(c@ =~= spec_tlv(0x06, spec_oid_ec_pubkey()) + spec_tlv(0x06, spec_oid_p256()));
    assert(v@ =~= spec_ec_alg_id());
    v
}

/// The SubjectPublicKeyInfo holding the uncompressed point `point`, as bytes.
pub fn build_spki(point: &[u8]) -> (r: Vec<u8>)
    requires
        point@.len() < 0x10000,
    ensures
        r@ == spec_spki(point@),
        r@.len() <= point@.len() + 40,
{
    proof {
        reveal(spec_spki);
    }
    let alg = ec_alg_id();
    let mut bits: Vec<u8> = Vec::new();
    bits.push(0x00);
    bits.extend_from_slice(point);
    assert(bits@ =~= seq![0x00u8] + point@);
    let mut c: Vec<u8> = alg;
    proof {
        crate::der::lemma_len_octets_len(bits@.len());
    }
    write_tlv(&mut c, 0x03, bits.as_slice());
    proof {
        crate::der::lemma_len_octets_len(c@.len());
    }
    let mut v: Vec<u8> = Vec::new();
    write_tlv(&mut v, 0x30, c.as_slice());
    assert(c@ =~= spec_ec_alg_id() + spec_tlv(0x03, seq![0x00u8] + point@));
    assert(v@ =~= spec_spki(point@));
    v
}

/// The issuer and subject name, as bytes.
pub fn build_name() -> (r: Vec<u8>)
    ensures
        r@ == spec_name(),
        r@.len() == 19,
{
    proof {
        reveal(spec_name);
    }
    let mut cn: Vec<u8> = Vec::new();
    cn.push(0x55);
    cn.push(0x04);
    cn.push(0x03);
    let mut val: Vec<u8> = Vec::new();
    val.push(0x6c);
    val.push(0x69);
    val.push(0x62);
    val.push(0x70);
    val.push(0x32);
    val.push(0x70);
    let mut atv: Vec<u8> = Vec::new();
    write_tlv(&mut atv, 0x06, cn.as_slice());
    write_tlv(&mut atv, 0x0c, val.as_slice());
    assert(cn@ =~= seq![0x55u8, 0x04, 0x03]);
    assert(val@ =~= seq![0x6cu8, 0x69, 0x62, 0x70, 0x32, 0x70]);
    assert(atv@ =~= spec_tlv(0x06, seq![0x55u8, 0x04, 0x03]) + spec_tlv(
        0x0c,
        seq![0x6cu8, 0x69, 0x62, 0x70, 0x32, 0x70],
    ));
    let mut rdn: Vec<u8> = Vec::new();
    write_tlv(&mut rdn, 0x30, atv.as_slice());
    let mut set: Vec<u8> = Vec::new();
    write_tlv(&mut set, 0x31, rdn.as_slice());
    let mut v: Vec<u8> = Vec::new();
    write_tlv(&mut v, 0x30, set.as_slice());
    assert(v@ =~= spec_name());
    v
}

/// The signed-key extension value for the identity key `pk` and the signature
/// `sig`, as bytes.
pub fn encode_signed_key(pk: &[u8], sig: &[u8]) -> (r: Vec<u8>)
    requires
        pk@.len() < 0x10000,
        sig@.len() < 0x10000,
    ensures
        r@ == spec_signed_key_ext(pk@, sig@),
        r@.len() <= pk@.len() + sig@.len() + 20,
{
    proof {
        reveal(spec_signed_key_ext);
    }
    let mut c: Vec<u8> = Vec::new();
    proof {
        crate::der::lemma_len_octets_len(pk@.len());
    }
    write_tlv(&mut c, 0x04, pk);
    proof {
        crate::der::lemma_len_octets_len(sig@.len());
    }
    write_tlv(&mut c, 0x04, sig);
    proof {
        crate::der::lemma_len_octets_len(c@.len());
    }
    let mut v: Vec<u8> = Vec::new();
    write_tlv(&mut v, 0x30, c.as_slice());
    assert(c@ =~= spec_tlv(0x04, pk@) + spec_tlv(0x04, sig@));
    assert(v@ =~= spec_signed_key_ext(pk@, sig@));
    v
}

/// The extensions element holding the single signed-key extension, as bytes.
pub fn build_extensions(extv: &[u8]) -> (r: Vec<u8>)
    requires
        extv@.len() < 0x100000,
    ensures
        r@ == spec_extensions(extv@),
        r@.len() <= extv@.len() + 40,
{
    proof {
        reveal(spec_extensions);
    }
    let oid = oid_libp2p_ext();
    let mut ext: Vec<u8> = Vec::new();
    write_tlv(&mut ext, 0x06, oid.as_slice());
    proof {
        crate::der::lemma_empty_concat(spec_tlv(0x06, spec_oid_libp2p_ext()));
    }
    write_tlv(&mut ext, 0x04, extv);
    assert(ext@ == spec_tlv(0x06, spec_oid_libp2p_ext()) + spec_tlv(0x04, extv@));
    let mut one: Vec<u8> = Vec::new();
    write_tlv(&mut one, 0x30, ext.as_slice());
    proof {
        crate::der::lemma_empty_concat(spec_tlv(0x30, ext@));
    }
    let mut list: Vec<u8> = Vec::new();
    write_tlv(&mut list, 0x30, one.as_slice());
    proof {
        crate::der::lemma_empty_concat(spec_tlv(0x30, one@));
    }
    let mut v: Vec<u8> = Vec::new();
    write_tlv(&mut v, 0xa3, list.as_slice());
    proof {
        crate::der::lemma_empty_concat(spec_tlv(0xa3, list@));
    }
    assert(v@ == spec_extensions(extv@));
    v
}

/// The TBSCertificate, as bytes.
#[verifier::rlimit(100)]
pub fn build_tbs(pk: &[u8], sig: &[u8], point: &[u8], nb: &[u8], na: &[u8]) -> (r: Vec<u8>)
    requires
        pk@.len() < 0x10000,
        sig@.len() < 0x10000,
        point@.len() < 0x10000,
        nb@.len() < 0x10000,
        na@.len() < 0x10000,
    ensures
        r@ == spec_tbs(pk@, sig@, point@, nb@, na@),
        r@.len() <= pk@.len() + sig@.len() + point@.len() + nb@.len() + na@.len() + 200,
{
    proof {
        reveal(spec_version);
        reveal(spec_serial);
        reveal(spec_validity);
        reveal(spec_tbs);
    }
    let mut c: Vec<u8> = Vec::new();
    // version
    let mut vn: Vec<u8> = Vec::new();
    vn.push(0x02);
    assert(vn@ =~= seq![0x02u8]);
    let mut vni: Vec<u8> = Vec::new();
    write_tlv(&mut vni, 0x02, vn.as_slice());
    proof {
        crate::der::lemma_empty_concat(spec_tlv(0x02, vn@));
    }
    write_tlv(&mut c, 0xa0, vni.as_slice());
    proof {
        crate::der::lemma_empty_concat(spec_tlv(0xa0, vni@));
    }
    assert(c@ == spec_version());
    // serial
    let mut sn: Vec<u8> = Vec::new();
    sn.push(0x01);
    assert(sn@ =~= seq![0x01u8]);
    write_tlv(&mut c, 0x02, sn.as_slice());
    assert(c@ == spec_version() + spec_serial());
    // signature algorithm
    let alg = alg_id();
    c.extend_from_slice(alg.as_slice());
    assert(c@ == spec_version() + spec_serial() + spec_alg_id());
    // issuer
    let name = build_name();
    c.extend_from_slice(name.as_slice());
    assert(c@ == spec_version() + spec_serial() + spec_alg_id() + spec_name());
    // validity
    let mut vd: Vec<u8> = Vec::new();
    proof {
        crate::der::lemma_len_octets_len(nb@.len());
    }
    write_tlv(&mut vd, 0x18, nb);
    proof {
        crate::der::lemma_empty_concat(spec_tlv(0x18, nb@));
    }
    proof {
        crate::der::lemma_len_octets_len(na@.len());
    }
    write_tlv(&mut vd, 0x18, na);
    assert(vd@ == spec_tlv(0x18, nb@) + spec_tlv(0x18, na@));
    proof {
        crate::der::lemma_len_octets_len(vd@.len());
    }
    write_tlv(&mut c, 0x30, vd.as_slice());
    assert(c@ == spec_version() + spec_serial() + spec_alg_id() + spec_name() + spec_validity(
        nb@,
        na@,
    ));
    // subject
    c.extend_from_slice(name.as_slice());
    // subject public key info
    let spki = build_spki(point);
    c.extend_from_slice(spki.as_slice());
    // extensions
    let extv = encode_signed_key(pk, sig);
    let exts = build_extensions(extv.as_slice());
    c.extend_from_slice(exts.as_slice());
    assert(c@ == spec_version() + spec_serial() + spec_alg_id() + spec_name() + spec_validity(
        nb@,
        na@,
    ) + spec_name() + spec_spki(point@) + spec_extensions(spec_signed_key_ext(pk@, sig@)));
    let mut v: Vec<u8> = Vec::new();
    proof {
        crate::der::lemma_len_octets_len(c@.len());
    }
    write_tlv(&mut v, 0x30, c.as_slice());
    proof {
        crate::der::lemma_empty_concat(spec_tlv(0x30, c@));
    }
    assert(v@ == spec_tbs(pk@, sig@, point@, nb@, na@));
    v
}

/// The complete certificate from its TBSCertificate bytes and the leaf
/// signature, as bytes.
pub fn build_certificate(tbs: &[u8], cert_sig: &[u8]) -> (r: Vec<u8>)
    requires
        tbs@.len() < 0x1000000,
        cert_sig@.len() < 0x10000,
    ensures
        r@ == spec_certificate(tbs@, cert_sig@),
        r@.len() <= tbs@.len() + cert_sig@.len() + 40,
{
    proof {
        reveal(spec_certificate);
    }
    let mut c: Vec<u8> = slice_to_vec(tbs);
    let alg = alg_id();
    c.extend_from_slice(alg.as_slice());
    let mut bits: Vec<u8> = Vec::new();
    bits.push(0x00);
    bits.extend_from_slice(cert_sig);
    assert(bits@ =~= seq![0x00u8] + cert_sig@);
    proof {
        crate::der::lemma_len_octets_len(bits@.len());
    }
    write_tlv(&mut c, 0x03, bits.as_slice());
    assert(c@ =~= tbs@ + spec_alg_id() + spec_tlv(0x03, seq![0x00u8] + cert_sig@));
    let mut v: Vec<u8> = Vec::new();
    proof {
        crate::der::lemma_len_octets_len(c@.len());
    }
    write_tlv(&mut v, 0x30, c.as_slice());
    assert(v@ =~= spec_certificate(tbs@, cert_sig@));
    v
}

/// Whether `year` is a leap year in the Gregorian calendar.
pub open spec fn spec_is_leap(year: nat) -> bool {
    year % 4 == 0 && (year % 100 != 0 || year % 400 == 0)
}

/// The number of days of `year`.
pub open spec fn spec_year_length(year: nat) -> nat {
    if spec_is_leap(year) {
        366
    } else {
        365
    }
}

/// The number of days of `month` (1 through 12).
pub open spec fn spec_month_length(month: nat, leap: bool) -> nat {
    if month == 2 {
        if leap {
            29
        } else {
            28
        }
    } else if month == 4 || month == 6 || month == 9 || month == 11 {
        30
    } else {
        31
    }
}

/// The year reached after walking `d` days forward from the start of `year`,
/// and the remaining day within that year.
pub open spec fn spec_civil_year(year: nat, d: nat) -> (nat, nat)
    decreases d,
{
    if d < spec_year_length(year) {
        (year, d)
    } else {
        spec_civil_year(year + 1, (d - spec_year_length(year)) as nat)
    }
}

/// The month reached after walking `d` days forward from the start of
/// `month`, and the remaining day within it; the walk stops at December.
pub open spec fn spec_civil_month(month: nat, leap: bool, d: nat) -> (nat, nat)
    decreases 12 - month,
{
    if month < 12 {
        if d < spec_month_length(month, leap) {
            (month, d)
        } else {
            spec_civil_month(month + 1, leap, (d - spec_month_length(month, leap)) as nat)
        }
    } else {
        (month, d)
    }
}

/// The ASCII digit of `v` modulo ten.
pub open spec fn spec_ascii_digit(v: nat) -> u8 {
    (0x30 + v % 10) as u8
}

/// The GeneralizedTime string `YYYYMMDDHHMMSSZ` of `secs` seconds after the
/// Unix epoch, clamped to the last representable second of the year 9999:
/// the Gregorian decomposition into year, month, day, then the time of day.
pub open spec fn spec_generalized_time(secs: u64) -> Seq<u8> {
    let t = if secs > 253402300799 {
        253402300799 as nat
    } else {
        secs as nat
    };
    let days = t / 86400;
    let rem = t % 86400;
    let hour = rem / 3600;
    let minute = (rem % 3600) / 60;
    let second = rem % 60;
    let yd = spec_civil_year(1970, days);
    let year = yd.0;
    let md = spec_civil_month(1, spec_is_leap(year), yd.1);
    let month = md.0;
    let day = md.1 + 1;
    seq![
        spec_ascii_digit(year / 1000),
        spec_ascii_digit(year / 100),
        spec_ascii_digit(year / 10),
        spec_ascii_digit(year),
        spec_ascii_digit(month / 10),
        spec_ascii_digit(month),
        spec_ascii_digit(day / 10),
        spec_ascii_digit(day),
        spec_ascii_digit(hour / 10),
        spec_ascii_digit(hour),
        spec_ascii_digit(minute / 10),
        spec_ascii_digit(minute),
        spec_ascii_digit(second / 10),
        spec_ascii_digit(second),
        0x5au8,
    ]
}

/// The GeneralizedTime string `YYYYMMDDHHMMSSZ` for `secs` seconds after the
/// Unix epoch, exactly as `spec_generalized_time` states it.
pub fn generalized_time(secs: u64) -> (r: Vec<u8>)
    ensures
        r@ == spec_generalized_time(secs),
        r@.len() == 15,
{
    let t: u64 = if secs > 253402300799 {
        253402300799
    } else {
        secs
    };
    let days: u64 = t / 86400;
    let rem: u64 = t % 86400;
    let hour: u64 = rem / 3600;
    let minute: u64 = (rem % 3600) / 60;
    let second: u64 = rem % 60;
    let mut year: u64 = 1970;
    let mut d: u64 = days;
    proof {
        assert(days <= t) by (nonlinear_arith)
            requires
                days == t / 86400,
                t >= 0,
        ;
    }
    loop
        invariant_except_break
            1970 <= year,
            year + d <= 1970 + days,
            days <= 253402300799,
            spec_civil_year(year as nat, d as nat) == spec_civil_year(1970, days as nat),
        ensures
            (year as nat, d as nat) == spec_civil_year(1970, days as nat),
            d < 366,
        decreases d,
    {
        let leap = is_leap(year);
        let yd: u64 = if leap {
            366
        } else {
            365
        };
        if d < yd {
            break ;
        }
        proof {
            assert(spec_civil_year(year as nat, d as nat) == spec_civil_year(
                year as nat + 1,
                (d - yd) as nat,
            ));
        }
        d = d - yd;
        year = year + 1;
    }
    let leap = is_leap(year);
    let ghost dy: nat = d as nat;
    let mut month: u64 = 1;
    while month < 12
        invariant_except_break
            1 <= month <= 12,
            d < 366,
            leap == spec_is_leap(year as nat),
            spec_civil_month(month as nat, leap, d as nat) == spec_civil_month(1, leap, dy),
        ensures
            (month as nat, d as nat) == spec_civil_month(1, spec_is_leap(year as nat), dy),
            month <= 12,
            d < 366,
        decreases 12 - month,
    {
        let ml = month_len(month, leap);
        if d < ml {
            break ;
        }
        proof {
            assert(spec_civil_month(month as nat, leap, d as nat) == spec_civil_month(
                month as nat + 1,
                leap,
                (d - ml) as nat,
            ));
        }
        d = d - ml;
        month = month + 1;
    }
    let day: u64 = d + 1;
    let mut out: Vec<u8> = Vec::new();
    push_digit(&mut out, year / 1000);
    push_digit(&mut out, year / 100);
    push_digit(&mut out, year / 10);
    push_digit(&mut out, year);
    push_digit(&mut out, month / 10);
    push_digit(&mut out, month);
    push_digit(&mut out, day / 10);
    push_digit(&mut out, day);
    push_digit(&mut out, hour / 10);
    push_digit(&mut out, hour);
    push_digit(&mut out, minute / 10);
    push_digit(&mut out, minute);
    push_digit(&mut out, second / 10);
    push_digit(&mut out, second);
    out.push(0x5a);
    assert(out@ =~= spec_generalized_time(secs));
    out
}

/// Whether `year` is a leap year in the Gregorian calendar.
fn is_leap(year: u64) -> (r: bool)
    ensures
        r == spec_is_leap(year as nat),
{
    year % 4 == 0 && (year % 100 != 0 || year % 400 == 0)
}

/// The number of days of `month` (1 through 12).
fn month_len(month: u64, leap: bool) -> (r: u64)
    ensures
        r == spec_month_length(month as nat, leap),
{
    if month == 2 {
        if leap {
            29
        } else {
            28
        }
    } else if month == 4 || month == 6 || month == 9 || month == 11 {
        30
    } else {
        31
    }
}

/// Appends the ASCII digit of `v` modulo ten.
fn push_digit(out: &mut Vec<u8>, v: u64)
    ensures
        final(out)@ == old(out)@ + seq![spec_ascii_digit(v as nat)],
{
    out.push(0x30 + (v % 10) as u8);
    assert(out@ =~= old(out)@ + seq![spec_ascii_digit(v as nat)]);
}


/// The fields recovered from a certificate: the signed TBSCertificate bytes,
/// the SubjectPublicKeyInfo bytes and the public point inside it, the leaf
/// signature, and the signed-key extension with its two members.
pub struct SpecCertFields {
    pub tbs: Seq<u8>,
    pub spki: Seq<u8>,
    pub point: Seq<u8>,
    pub cert_sig: Seq<u8>,
    pub ext_value: Seq<u8>,
    pub identity_pubkey: Seq<u8>,
    pub ext_signature: Seq<u8>,
}

/// Splits the outermost certificate sequence. Yields the start of the
/// TBSCertificate element, the bounds of its content, and the bounds of the
/// leaf signature bits; the outer signature algorithm must be ECDSA with
/// SHA-256.
#[verifier::opaque]
pub open spec fn spec_split_outer(s: Seq<u8>) -> Result<(nat, nat, nat, nat, nat), ParseError> {
    match spec_read_tlv(s, 0) {
        None => Err(ParseError::MalformedAsn1),
        Some((t0, c0, e0)) => if t0 != 0x30 || e0 != s.len() {
            Err(ParseError::MalformedAsn1)
        } else {
            match spec_read_tlv(s, c0) {
                None => Err(ParseError::MalformedAsn1),
                Some((t1, ts, te)) => if t1 != 0x30 {
                    Err(ParseError::MalformedAsn1)
                } else {
                    match spec_read_tlv(s, te) {
                        None => Err(ParseError::MalformedAsn1),
                        Some((t2, aa, ae)) => if s.subrange(te as int, ae as int)
                            != spec_alg_id() {
                            Err(ParseError::UnsupportedSignatureAlgorithm)
                        } else {
                            match spec_read_tlv(s, ae) {
                                None => Err(ParseError::MalformedAsn1),
                                Some((t3, bs, be)) => if t3 != 0x03 || be != e0 || bs >= be
                                    || s[bs as int] != 0x00 {
                                    Err(ParseError::MalformedAsn1)
                                } else {
                                    Ok((c0, ts, te, (bs + 1) as nat, be))
                                },
                            }
                        },
                    }
                },
            }
        },
    }
}

/// Walks the fixed leading elements of the TBSCertificate content between
/// `ts` and `te`: version, serial, algorithm, issuer, validity, subject.
/// Yields the bounds of the SubjectPublicKeyInfo element, the bounds of the
/// public point inside it, and the bounds of the extension-list content.
#[verifier::opaque]
pub open spec fn spec_parse_tbs(s: Seq<u8>, ts: nat, te: nat) -> Result<
    (nat, nat, nat, nat, nat, nat),
    ParseError,
> {
    match spec_read_tlv(s, ts) {
        None => Err(ParseError::MalformedAsn1),
        Some((tv, vs, ve)) => if tv != 0xa0 || ve > te || s.subrange(vs as int, ve as int)
            != seq![0x02u8, 0x01, 0x02] {
            Err(ParseError::MalformedAsn1)
        } else {
            match spec_read_tlv(s, ve) {
                None => Err(ParseError::MalformedAsn1),
                Some((tn, ss, se)) => if tn != 0x02 || se > te {
                    Err(ParseError::MalformedAsn1)
                } else {
                    match spec_read_tlv(s, se) {
                        None => Err(ParseError::MalformedAsn1),
                        Some((ta, ia, ie)) => if ie > te {
                            Err(ParseError::MalformedAsn1)
                        } else if s.subrange(se as int, ie as int) != spec_alg_id() {
                            Err(ParseError::UnsupportedSignatureAlgorithm)
                        } else {
                            match spec_read_tlv(s, ie) {
                                None => Err(ParseError::MalformedAsn1),
                                Some((ti, isa, ise)) => if ti != 0x30 || ise > te {
                                    Err(ParseError::MalformedAsn1)
                                } else {
                                    match spec_read_tlv(s, ise) {
                                        None => Err(ParseError::MalformedAsn1),
                                        Some((tva, vaa, vae)) => if tva != 0x30 || vae > te {
                                            Err(ParseError::MalformedAsn1)
                                        } else {
                                            match spec_read_tlv(s, vae) {
                                                None => Err(ParseError::MalformedAsn1),
                                                Some((tsu, sua, sue)) => if tsu != 0x30 || sue
                                                    > te {
                                                    Err(ParseError::MalformedAsn1)
                                                } else {
                                                    spec_parse_spki_exts(s, sue, te)
                                                },
                                            }
                                        },
                                    }
                                },
                            }
                        },
                    }
                },
            }
        },
    }
}

/// Reads the SubjectPublicKeyInfo at `sue` and the extensions element that
/// must close the TBSCertificate content at `te`.
#[verifier::opaque]
pub open spec fn spec_parse_spki_exts(s: Seq<u8>, sue: nat, te: nat) -> Result<
    (nat, nat, nat, nat, nat, nat),
    ParseError,
> {
    match spec_read_tlv(s, sue) {
        None => Err(ParseError::MalformedAsn1),
        Some((tk, ks, ke)) => if tk != 0x30 || ke > te {
            Err(ParseError::MalformedAsn1)
        } else {
            match spec_read_tlv(s, ks) {
                None => Err(ParseError::MalformedAsn1),
                Some((tb, ab, ae2)) => if ae2 > ke {
                    Err(ParseError::MalformedAsn1)
                } else if s.subrange(ks as int, ae2 as int) != spec_ec_alg_id() {
                    Err(ParseError::UnsupportedSignatureAlgorithm)
                } else {
                    match spec_read_tlv(s, ae2) {
                        None => Err(ParseError::MalformedAsn1),
                        Some((tp, pa, pb)) => if tp != 0x03 || pb != ke || pa >= pb || s[pa as int]
                            != 0x00 {
                            Err(ParseError::MalformedAsn1)
                        } else if ke == te {
                            Err(ParseError::ExtensionMissing)
                        } else {
                            match spec_read_tlv(s, ke) {
                                None => Err(ParseError::MalformedAsn1),
                                Some((tx, xa, xb)) => if tx != 0xa3 || xb != te {
                                    Err(ParseError::MalformedAsn1)
                                } else {
                                    match spec_read_tlv(s, xa) {
                                        None => Err(ParseError::MalformedAsn1),
                                        Some((tl, ea, eb)) => if tl != 0x30 || eb != xb {
                                            Err(ParseError::MalformedAsn1)
                                        } else {
                                            Ok((sue, ke, (pa + 1) as nat, pb, ea, eb))
                                        },
                                    }
                                },
                            }
                        },
                    }
                },
            }
        },
    }
}

/// Reads one extension between `cs` and `ce`. `None` is a malformed
/// extension; `Some(None)` an extension under another object identifier;
/// `Some(Some(bounds))` the bounds of the octet-string value of the libp2p
/// signed-key extension, which may carry an explicit criticality flag.
#[verifier::opaque]
pub open spec fn spec_parse_one_ext(s: Seq<u8>, cs: nat, ce: nat) -> Option<Option<(nat, nat)>> {
    match spec_read_tlv(s, cs) {
        None => None,
        Some((t, oa, ob)) => if t != 0x06 || ob > ce {
            None
        } else if s.subrange(oa as int, ob as int) != spec_oid_libp2p_ext() {
            Some(None)
        } else {
            match spec_read_tlv(s, ob) {
                None => None,
                Some((t2, ba, bb)) => if bb > ce {
                    None
                } else if t2 == 0x01 {
                    match spec_read_tlv(s, bb) {
                        None => None,
                        Some((t3, va, vb)) => if t3 == 0x04 && vb == ce {
                            Some(Some((va, vb)))
                        } else {
                            None
                        },
                    }
                } else if t2 == 0x04 && bb == ce {
                    Some(Some((ba, bb)))
                } else {
                    None
                },
            }
        },
    }
}

/// Scans the extension list between `pos` and `end` for the single libp2p
/// signed-key extension, rejecting a duplicate.
pub open spec fn spec_scan_exts(
    s: Seq<u8>,
    pos: nat,
    end: nat,
    found: Option<(nat, nat)>,
) -> Result<(nat, nat), ParseError>
    decreases end - pos,
{
    if pos >= end {
        if pos == end {
            match found {
                Some(b) => Ok(b),
                None => Err(ParseError::ExtensionMissing),
            }
        } else {
            Err(ParseError::MalformedAsn1)
        }
    } else {
        match spec_read_tlv(s, pos) {
            None => Err(ParseError::MalformedAsn1),
            Some((tag, cs, ce)) => if tag != 0x30 || ce > end || ce <= pos {
                Err(ParseError::MalformedAsn1)
            } else {
                match spec_parse_one_ext(s, cs, ce) {
                    None => Err(ParseError::MalformedAsn1),
                    Some(None) => spec_scan_exts(s, ce, end, found),
                    Some(Some(b)) => if found is Some {
                        Err(ParseError::ExtensionDuplicate)
                    } else {
                        spec_scan_exts(s, ce, end, Some(b))
                    },
                }
            },
        }
    }
}

/// Reads the signed-key sequence filling the octet-string value between `va`
/// and `vb`: two octet strings, the identity public key and the signature.
#[verifier::opaque]
pub open spec fn spec_parse_signed_key(s: Seq<u8>, va: nat, vb: nat) -> Result<
    (nat, nat, nat, nat),
    ParseError,
> {
    match spec_read_tlv(s, va) {
        None => Err(ParseError::MalformedAsn1),
        Some((t, ca, cb)) => if t != 0x30 || cb != vb {
            Err(ParseError::MalformedAsn1)
        } else {
            match spec_read_tlv(s, ca) {
                None => Err(ParseError::MalformedAsn1),
                Some((t1, p1, p2)) => if t1 != 0x04 || p2 > cb {
                    Err(ParseError::MalformedAsn1)
                } else {
                    match spec_read_tlv(s, p2) {
                        None => Err(ParseError::MalformedAsn1),
                        Some((t2, q1, q2)) => if t2 != 0x04 || q2 != cb {
                            Err(ParseError::MalformedAsn1)
                        } else {
                            Ok((p1, p2, q1, q2))
                        },
                    }
                },
            }
        },
    }
}

/// Parses a certificate: the structure is decomposed, the identity key
/// decoded, the extension signature checked against the key-binding message,
/// and the leaf self-signature checked against the TBSCertificate.
pub open spec fn spec_parse_certificate(s: Seq<u8>) -> Result<SpecCertFields, ParseError> {
    match spec_split_outer(s) {
        Err(e) => Err(e),
        Ok((tbs_lo, ts, te, sig_s, sig_e)) => match spec_parse_tbs(s, ts, te) {
            Err(e) => Err(e),
            Ok((spki_lo, spki_hi, pt_lo, pt_hi, ea, eb)) => match spec_scan_exts(s, ea, eb, None) {
                Err(e) => Err(e),
                Ok((va, vb)) => match spec_parse_signed_key(s, va, vb) {
                    Err(e) => Err(e),
                    Ok((pk_lo, pk_hi, es_lo, es_hi)) => {
                        let tbs = s.subrange(tbs_lo as int, te as int);
                        let spki = s.subrange(spki_lo as int, spki_hi as int);
                        let point = s.subrange(pt_lo as int, pt_hi as int);
                        let csig = s.subrange(sig_s as int, sig_e as int);
                        let extv = s.subrange(va as int, vb as int);
                        let pk = s.subrange(pk_lo as int, pk_hi as int);
                        let esig = s.subrange(es_lo as int, es_hi as int);
                        if !spec_is_identity_key(pk) {
                            Err(ParseError::UnknownIdentityAlgorithm)
                        } else if !spec_identity_sig_ok(pk, spec_sign_prefix() + spki, esig) {
                            Err(ParseError::BadExtensionSignature)
                        } else if !spec_p256_sig_ok(point, tbs, csig) {
                            Err(ParseError::BadLeafSignature)
                        } else {
                            Ok(
                                SpecCertFields {
                                    tbs,
                                    spki,
                                    point,
                                    cert_sig: csig,
                                    ext_value: extv,
                                    identity_pubkey: pk,
                                    ext_signature: esig,
                                },
                            )
                        }
                    },
                },
            },
        },
    }
}

/// The exec mirror of `spec_split_outer`.
fn split_outer(data: &[u8]) -> (r: Result<(usize, usize, usize, usize, usize), ParseError>)
    ensures
        match r {
            Ok((tbs_lo, ts, te, sig_s, sig_e)) => spec_split_outer(data@) == Ok::<_, ParseError>(
                (tbs_lo as nat, ts as nat, te as nat, sig_s as nat, sig_e as nat),
            ) && tbs_lo <= te <= data@.len() && ts <= te && sig_s <= sig_e <= data@.len(),
            Err(e) => spec_split_outer(data@) == Err::<(nat, nat, nat, nat, nat), _>(e),
        },
{
    proof {
        reveal(spec_split_outer);
    }
    let (t0, c0, e0) = match read_tlv(data, 0) {
        Some(x) => x,
        None => {
            return Err(ParseError::MalformedAsn1);
        },
    };
    if t0 != 0x30 || e0 != data.len() {
        return Err(ParseError::MalformedAsn1);
    }
    let (t1, ts, te) = match read_tlv(data, c0) {
        Some(x) => x,
        None => {
            return Err(ParseError::MalformedAsn1);
        },
    };
    if t1 != 0x30 {
        return Err(ParseError::MalformedAsn1);
    }
    let (t2, aa, ae) = match read_tlv(data, te) {
        Some(x) => x,
        None => {
            return Err(ParseError::MalformedAsn1);
        },
    };
    let alg = alg_id();
    if !crate::bytes_eq(slice_subrange(data, te, ae), alg.as_slice()) {
        return Err(ParseError::UnsupportedSignatureAlgorithm);
    }
    let (t3, bs, be) = match read_tlv(data, ae) {
        Some(x) => x,
        None => {
            return Err(ParseError::MalformedAsn1);
        },
    };
    if t3 != 0x03 || be != e0 || bs >= be || data[bs] != 0x00 {
        return Err(ParseError::MalformedAsn1);
    }
    Ok((c0, ts, te, bs + 1, be))
}

/// The exec mirror of `spec_parse_tbs`.
fn parse_tbs(data: &[u8], ts: usize, te: usize) -> (r: Result<
    (usize, usize, usize, usize, usize, usize),
    ParseError,
>)
    requires
        te <= data@.len(),
    ensures
        match r {
            Ok((spki_lo, spki_hi, pt_lo, pt_hi, ea, eb)) => spec_parse_tbs(
                data@,
                ts as nat,
                te as nat,
            ) == Ok::<_, ParseError>(
                (spki_lo as nat, spki_hi as nat, pt_lo as nat, pt_hi as nat, ea as nat, eb as nat),
            ) && spki_lo <= spki_hi <= data@.len() && pt_lo <= pt_hi <= data@.len() && ea <= eb
                <= data@.len(),
            Err(e) => spec_parse_tbs(data@, ts as nat, te as nat) == Err::<
                (nat, nat, nat, nat, nat, nat),
                _,
            >(e),
        },
{
    proof {
        reveal(spec_parse_tbs);
    }
    let (tv, vs, ve) = match read_tlv(data, ts) {
        Some(x) => x,
        None => {
            return Err(ParseError::MalformedAsn1);
        },
    };
    let mut vbytes: Vec<u8> = Vec::new();
    vbytes.push(0x02);
    vbytes.push(0x01);
    vbytes.push(0x02);
    assert(vbytes@ =~= seq![0x02u8, 0x01, 0x02]);
    if tv != 0xa0 || ve > te || !crate::bytes_eq(slice_subrange(data, vs, ve), vbytes.as_slice()) {
        return Err(ParseError::MalformedAsn1);
    }
    let (tn, ss, se) = match read_tlv(data, ve) {
        Some(x) => x,
        None => {
            return Err(ParseError::MalformedAsn1);
        },
    };
    if tn != 0x02 || se > te {
        return Err(ParseError::MalformedAsn1);
    }
    let (ta, ia, ie) = match read_tlv(data, se) {
        Some(x) => x,
        None => {
            return Err(ParseError::MalformedAsn1);
        },
    };
    if ie > te {
        return Err(ParseError::MalformedAsn1);
    }
    let alg = alg_id();
    if !crate::bytes_eq(slice_subrange(data, se, ie), alg.as_slice()) {
        return Err(ParseError::UnsupportedSignatureAlgorithm);
    }
    let (ti, isa, ise) = match read_tlv(data, ie) {
        Some(x) => x,
        None => {
            return Err(ParseError::MalformedAsn1);
        },
    };
    if ti != 0x30 || ise > te {
        return Err(ParseError::MalformedAsn1);
    }
    let (tva, vaa, vae) = match read_tlv(data, ise) {
        Some(x) => x,
        None => {
            return Err(ParseError::MalformedAsn1);
        },
    };
    if tva != 0x30 || vae > te {
        return Err(ParseError::MalformedAsn1);
    }
    let (tsu, sua, sue) = match read_tlv(data, vae) {
        Some(x) => x,
        None => {
            return Err(ParseError::MalformedAsn1);
        },
    };
    if tsu != 0x30 || sue > te {
        return Err(ParseError::MalformedAsn1);
    }
    parse_spki_exts(data, sue, te)
}

/// The exec mirror of `spec_parse_spki_exts`.
fn parse_spki_exts(data: &[u8], sue: usize, te: usize) -> (r: Result<
    (usize, usize, usize, usize, usize, usize),
    ParseError,
>)
    requires
        te <= data@.len(),
    ensures
        match r {
            Ok((spki_lo, spki_hi, pt_lo, pt_hi, ea, eb)) => spec_parse_spki_exts(
                data@,
                sue as nat,
                te as nat,
            ) == Ok::<_, ParseError>(
                (spki_lo as nat, spki_hi as nat, pt_lo as nat, pt_hi as nat, ea as nat, eb as nat),
            ) && spki_lo <= spki_hi <= data@.len() && pt_lo <= pt_hi <= data@.len() && ea <= eb
                <= data@.len(),
            Err(e) => spec_parse_spki_exts(data@, sue as nat, te as nat) == Err::<
                (nat, nat, nat, nat, nat, nat),
                _,
            >(e),
        },
{
    proof {
        reveal(spec_parse_spki_exts);
    }
    let (tk, ks, ke) = match read_tlv(data, sue) {
        Some(x) => x,
        None => {
            return Err(ParseError::MalformedAsn1);
        },
    };
    if tk != 0x30 || ke > te {
        return Err(ParseError::MalformedAsn1);
    }
    let (tb, ab, ae2) = match read_tlv(data, ks) {
        Some(x) => x,
        None => {
            return Err(ParseError::MalformedAsn1);
        },
    };
    if ae2 > ke {
        return Err(ParseError::MalformedAsn1);
    }
    let ecalg = ec_alg_id();
    if !crate::bytes_eq(slice_subrange(data, ks, ae2), ecalg.as_slice()) {
        return Err(ParseError::UnsupportedSignatureAlgorithm);
    }
    let (tp, pa, pb) = match read_tlv(data, ae2) {
        Some(x) => x,
        None => {
            return Err(ParseError::MalformedAsn1);
        },
    };
    if tp != 0x03 || pb != ke || pa >= pb || data[pa] != 0x00 {
        return Err(ParseError::MalformedAsn1);
    }
    if ke == te {
        return Err(ParseError::ExtensionMissing);
    }
    let (tx, xa, xb) = match read_tlv(data, ke) {
        Some(x) => x,
        None => {
            return Err(ParseError::MalformedAsn1);
        },
    };
    if tx != 0xa3 || xb != te {
        return Err(ParseError::MalformedAsn1);
    }
    let (tl, ea, eb) = match read_tlv(data, xa) {
        Some(x) => x,
        None => {
            return Err(ParseError::MalformedAsn1);
        },
    };
    if tl != 0x30 || eb != xb {
        return Err(ParseError::MalformedAsn1);
    }
    Ok((sue, ke, pa + 1, pb, ea, eb))
}

/// The exec mirror of `spec_parse_one_ext`.
fn parse_one_ext(data: &[u8], cs: usize, ce: usize) -> (r: Option<Option<(usize, usize)>>)
    ensures
        match r {
            None => spec_parse_one_ext(data@, cs as nat, ce as nat) is None,
            Some(None) => spec_parse_one_ext(data@, cs as nat, ce as nat) == Some(
                None::<(nat, nat)>,
            ),
            Some(Some((a, b))) => spec_parse_one_ext(data@, cs as nat, ce as nat) == Some(
                Some((a as nat, b as nat)),
            ) && a <= b <= data@.len(),
        },
{
    proof {
        reveal(spec_parse_one_ext);
    }
    let (t, oa, ob) = match read_tlv(data, cs) {
        Some(x) => x,
        None => {
            return None;
        },
    };
    if t != 0x06 || ob > ce {
        return None;
    }
    let oid = oid_libp2p_ext();
    if !crate::bytes_eq(slice_subrange(data, oa, ob), oid.as_slice()) {
        return Some(None);
    }
    let (t2, ba, bb) = match read_tlv(data, ob) {
        Some(x) => x,
        None => {
            return None;
        },
    };
    if bb > ce {
        return None;
    }
    if t2 == 0x01 {
        let (t3, va, vb) = match read_tlv(data, bb) {
            Some(x) => x,
            None => {
                return None;
            },
        };
        if t3 == 0x04 && vb == ce {
            Some(Some((va, vb)))
        } else {
            None
        }
    } else if t2 == 0x04 && bb == ce {
        Some(Some((ba, bb)))
    } else {
        None
    }
}

/// The exec mirror of `spec_scan_exts`, started with nothing found.
fn scan_extensions(data: &[u8], start: usize, end: usize) -> (r: Result<(usize, usize), ParseError>)
    requires
        start <= end <= data@.len(),
    ensures
        match r {
            Ok((a, b)) => spec_scan_exts(data@, start as nat, end as nat, None) == Ok::<
                _,
                ParseError,
            >((a as nat, b as nat)) && a <= b <= data@.len(),
            Err(e) => spec_scan_exts(data@, start as nat, end as nat, None) == Err::<(nat, nat), _>(
                e,
            ),
        },
{
    let ghost orig = spec_scan_exts(data@, start as nat, end as nat, None);
    let mut pos = start;
    let mut found: Option<(usize, usize)> = None;
    loop
        invariant
            start <= pos <= end,
            end <= data@.len(),
            match found {
                Some((a, b)) => a <= b <= data@.len(),
                None => true,
            },
            spec_scan_exts(
                data@,
                pos as nat,
                end as nat,
                match found {
                    Some((a, b)) => Some((a as nat, b as nat)),
                    None => None::<(nat, nat)>,
                },
            ) == orig,
            orig == spec_scan_exts(data@, start as nat, end as nat, None),
        decreases end - pos,
    {
        if pos == end {
            match found {
                Some(b) => {
                    return Ok(b);
                },
                None => {
                    return Err(ParseError::ExtensionMissing);
                },
            }
        }
        let (tag, cs, ce) = match read_tlv(data, pos) {
            Some(x) => x,
            None => {
                return Err(ParseError::MalformedAsn1);
            },
        };
        if tag != 0x30 || ce > end || ce <= pos {
            return Err(ParseError::MalformedAsn1);
        }
        match parse_one_ext(data, cs, ce) {
            None => {
                return Err(ParseError::MalformedAsn1);
            },
            Some(None) => {
                pos = ce;
            },
            Some(Some(b)) => {
                if found.is_some() {
                    return Err(ParseError::ExtensionDuplicate);
                }
                found = Some(b);
                pos = ce;
            },
        }
    }
}

/// The exec mirror of `spec_parse_signed_key`.
fn parse_signed_key(data: &[u8], va: usize, vb: usize) -> (r: Result<
    (usize, usize, usize, usize),
    ParseError,
>)
    ensures
        match r {
            Ok((pk_lo, pk_hi, es_lo, es_hi)) => spec_parse_signed_key(data@, va as nat, vb as nat)
                == Ok::<_, ParseError>((pk_lo as nat, pk_hi as nat, es_lo as nat, es_hi as nat))
                && pk_lo <= pk_hi <= data@.len() && es_lo <= es_hi <= data@.len(),
            Err(e) => spec_parse_signed_key(data@, va as nat, vb as nat) == Err::<
                (nat, nat, nat, nat),
                _,
            >(e),
        },
{
    proof {
        reveal(spec_parse_signed_key);
    }
    let (t, ca, cb) = match read_tlv(data, va) {
        Some(x) => x,
        None => {
            return Err(ParseError::MalformedAsn1);
        },
    };
    if t != 0x30 || cb != vb {
        return Err(ParseError::MalformedAsn1);
    }
    let (t1, p1, p2) = match read_tlv(data, ca) {
        Some(x) => x,
        None => {
            return Err(ParseError::MalformedAsn1);
        },
    };
    if t1 != 0x04 || p2 > cb {
        return Err(ParseError::MalformedAsn1);
    }
    let (t2, q1, q2) = match read_tlv(data, p2) {
        Some(x) => x,
        None => {
            return Err(ParseError::MalformedAsn1);
        },
    };
    if t2 != 0x04 || q2 != cb {
        return Err(ParseError::MalformedAsn1);
    }
    Ok((p1, p2, q1, q2))
}

/// A parsed peer-identity certificate.
pub struct P2pCertificate {
    /// The protobuf encoding of the identity public key.
    pub identity_pubkey: Vec<u8>,
    /// The signature of the key-binding message by the identity key.
    pub signature: Vec<u8>,
    /// The uncompressed point of the TLS public key.
    pub public_point: Vec<u8>,
    /// The signed-key extension value.
    pub signed_key_extension: Vec<u8>,
    /// The multihash bytes of the peer identifier.
    pub peer_id_bytes: Vec<u8>,
}

impl P2pCertificate {
    /// The canonical peer identifier bound by this certificate.
    pub fn peer_id(&self) -> (r: crate::PeerId)
        ensures
            r@ == self.peer_id_bytes@,
    {
        crate::PeerId::from_bytes(slice_to_vec(self.peer_id_bytes.as_slice()))
    }
}

/// Parses and validates a peer-identity certificate: its structure, the
/// extension signature binding the identity key to the TLS key, and the leaf
/// self-signature. On success the recovered fields are exactly those of the
/// structural parse, and the peer identifier is the one derived from the
/// embedded identity key.
#[verifier::rlimit(100)]
pub fn parse(der: &[u8]) -> (r: Result<P2pCertificate, ParseError>)
    ensures
        match r {
            Ok(c) => (spec_parse_certificate(der@) matches Ok(f) && c.identity_pubkey@
                == f.identity_pubkey && c.signature@ == f.ext_signature && c.public_point@
                == f.point && c.signed_key_extension@ == f.ext_value && spec_is_identity_key(
                f.identity_pubkey,
            ) && c.peer_id_bytes@ == spec_peer_id_of(f.identity_pubkey)),
            Err(e) => spec_parse_certificate(der@) == Err::<SpecCertFields, _>(e),
        },
{
    let (tbs_lo, ts, te, sig_s, sig_e) = match split_outer(der) {
        Ok(x) => x,
        Err(e) => {
            return Err(e);
        },
    };
    let (spki_lo, spki_hi, pt_lo, pt_hi, ea, eb) = match parse_tbs(der, ts, te) {
        Ok(x) => x,
        Err(e) => {
            return Err(e);
        },
    };
    let (va, vb) = match scan_extensions(der, ea, eb) {
        Ok(x) => x,
        Err(e) => {
            return Err(e);
        },
    };
    let (pk_lo, pk_hi, es_lo, es_hi) = match parse_signed_key(der, va, vb) {
        Ok(x) => x,
        Err(e) => {
            return Err(e);
        },
    };
    let pk = slice_to_vec(slice_subrange(der, pk_lo, pk_hi));
    if !identity_key_valid(pk.as_slice()) {
        return Err(ParseError::UnknownIdentityAlgorithm);
    }
    let spki = slice_to_vec(slice_subrange(der, spki_lo, spki_hi));
    let mut msg = sign_prefix();
    msg.extend_from_slice(spki.as_slice());
    assert(msg@ == spec_sign_prefix() + der@.subrange(spki_lo as int, spki_hi as int));
    let esig = slice_to_vec(slice_subrange(der, es_lo, es_hi));
    let sig_ok = identity_verify(pk.as_slice(), msg.as_slice(), esig.as_slice());
    assert(sig_ok == spec_identity_sig_ok(
        der@.subrange(pk_lo as int, pk_hi as int),
        spec_sign_prefix() + der@.subrange(spki_lo as int, spki_hi as int),
        der@.subrange(es_lo as int, es_hi as int),
    ));
    if !sig_ok {
        return Err(ParseError::BadExtensionSignature);
    }
    let tbs = slice_subrange(der, tbs_lo, te);
    let csig = slice_to_vec(slice_subrange(der, sig_s, sig_e));
    let point = slice_to_vec(slice_subrange(der, pt_lo, pt_hi));
    if !p256_verify(point.as_slice(), tbs, csig.as_slice()) {
        return Err(ParseError::BadLeafSignature);
    }
    let peer_id_bytes = derive_peer_id(pk.as_slice());
    let extv = slice_to_vec(slice_subrange(der, va, vb));
    Ok(
        P2pCertificate {
            identity_pubkey: pk,
            signature: esig,
            public_point: point,
            signed_key_extension: extv,
            peer_id_bytes,
        },
    )
}


/// Whether `s` holds the bytes `x` starting at `a`.
pub open spec fn holds_at(s: Seq<u8>, a: nat, x: Seq<u8>) -> bool {
    a + x.len() <= s.len() && s.subrange(a as int, (a + x.len()) as int) == x
}

/// Length bounds of the fixed certificate pieces.
#[verifier::rlimit(100)]
proof fn lemma_fixed_piece_lens(point: Seq<u8>, nb: Seq<u8>, na: Seq<u8>)
    requires
        point.len() < 0x10000,
        nb.len() < 0x10000,
        na.len() < 0x10000,
    ensures
        spec_version().len() == 5,
        spec_serial().len() == 3,
        spec_alg_id().len() == 12,
        spec_ec_alg_id().len() == 21,
        spec_name().len() == 19,
        spec_validity(nb, na).len() <= nb.len() + na.len() + 20,
        spec_spki(point).len() <= point.len() + 40,
{
    reveal(spec_version);
    reveal(spec_serial);
    reveal(spec_alg_id);
    reveal(spec_ec_alg_id);
    reveal(spec_name);
    reveal(spec_validity);
    reveal(spec_spki);
    crate::der::lemma_len_octets_len(nb.len());
    crate::der::lemma_len_octets_len(na.len());
    crate::der::lemma_len_octets_len((spec_tlv(0x18, nb) + spec_tlv(0x18, na)).len());
    crate::der::lemma_len_octets_len((seq![0x00u8] + point).len());
    crate::der::lemma_len_octets_len((spec_ec_alg_id() + spec_tlv(0x03, seq![0x00u8] + point)).len());
}

/// Length bounds of the certificate pieces.
#[verifier::rlimit(100)]
proof fn lemma_cert_lens(pk: Seq<u8>, esig: Seq<u8>, point: Seq<u8>, nb: Seq<u8>, na: Seq<u8>)
    requires
        pk.len() < 0x10000,
        esig.len() < 0x10000,
        point.len() < 0x10000,
        nb.len() < 0x10000,
        na.len() < 0x10000,
    ensures
        spec_version().len() == 5,
        spec_serial().len() == 3,
        spec_alg_id().len() == 12,
        spec_ec_alg_id().len() == 21,
        spec_name().len() == 19,
        spec_validity(nb, na).len() <= nb.len() + na.len() + 20,
        spec_spki(point).len() <= point.len() + 40,
        spec_signed_key_ext(pk, esig).len() <= pk.len() + esig.len() + 20,
        2 <= spec_ext_entry(spec_signed_key_ext(pk, esig)).len() <= pk.len() + esig.len() + 60,
        2 <= spec_extensions(spec_signed_key_ext(pk, esig)).len() <= pk.len() + esig.len() + 80,
        spec_tbs(pk, esig, point, nb, na).len() <= pk.len() + esig.len() + point.len() + nb.len()
            + na.len() + 400,
{
    lemma_fixed_piece_lens(point, nb, na);
    reveal(spec_signed_key_ext);
    reveal(spec_extensions);
    reveal(spec_tbs);
    crate::der::lemma_len_octets_len(pk.len());
    crate::der::lemma_len_octets_len(esig.len());
    crate::der::lemma_len_octets_len((spec_tlv(0x04, pk) + spec_tlv(0x04, esig)).len());
    crate::der::lemma_len_octets_len(
        (spec_tlv(0x06, spec_oid_libp2p_ext()) + spec_tlv(0x04, spec_signed_key_ext(pk, esig))).len(),
    );
    crate::der::lemma_len_octets_len(spec_ext_entry(spec_signed_key_ext(pk, esig)).len());
    crate::der::lemma_len_octets_len(spec_tlv(0x30, spec_ext_entry(spec_signed_key_ext(pk, esig))).len());
    crate::der::lemma_len_octets_len(spec_tbs_content(pk, esig, point, nb, na).len());
}

/// The outer split of a certificate of the generated shape, whatever its
/// TBSCertificate content `tc` holds: the TBSCertificate bytes, the checked
/// signature algorithm, and the signature bits are found back.
#[verifier::rlimit(100)]
proof fn lemma_parse_outer(tc: Seq<u8>, csig: Seq<u8>)
    requires
        tc.len() < 0x1000000,
        csig.len() < 0x10000,
    ensures
        ({
            let tbs = spec_tlv(0x30, tc);
            let s = spec_certificate(tbs, csig);
            spec_split_outer(s) matches Ok((tbs_lo, ts, te, sig_s, sig_e))
                && s.subrange(tbs_lo as int, te as int) == tbs
                && te == ts + tc.len()
                && holds_at(s, ts, tc)
                && s.subrange(sig_s as int, sig_e as int) == csig
                && te <= s.len()
        }),
{
    reveal(spec_split_outer);
    reveal(spec_certificate);
    crate::der::lemma_len_octets_len(tc.len());
    crate::der::lemma_len_octets_len((seq![0x00u8] + csig).len());
    let tbs = spec_tlv(0x30, tc);
    let alg = spec_alg_id();
    assert(spec_alg_id().len() == 12) by {
        reveal(spec_alg_id);
    }
    let bits = spec_tlv(0x03, seq![0x00u8] + csig);
    let cc = spec_cert_content(tbs, csig);
    crate::der::lemma_len_octets_len(cc.len());
    let s = spec_certificate(tbs, csig);
    assert(s.subrange(0, s.len() as int) =~= s);
    crate::der::lemma_read_tlv_of_encoding(s, 0, 0x30, cc);
    let cs0: nat = 1 + crate::der::spec_len_octets(cc.len()).len();
    // peel the three top-level pieces of the certificate content
    crate::der::lemma_split_at(s, cs0, tbs + alg, bits);
    crate::der::lemma_split_at(s, cs0, tbs, alg);
    // the TBSCertificate element
    crate::der::lemma_read_tlv_of_encoding(s, cs0, 0x30, tc);
    let ts: nat = cs0 + 1 + crate::der::spec_len_octets(tc.len()).len();
    let te: nat = cs0 + tbs.len();
    // the outer signature algorithm
    assert(spec_alg_id() == spec_tlv(0x30, spec_tlv(0x06, spec_oid_ecdsa_sha256()))) by {
        reveal(spec_alg_id);
    }
    crate::der::lemma_read_tlv_of_encoding(s, te, 0x30, spec_tlv(0x06, spec_oid_ecdsa_sha256()));
    let ae: nat = te + alg.len();
    assert(s.subrange(te as int, ae as int) == alg);
    // the signature bits
    crate::der::lemma_read_tlv_of_encoding(s, ae, 0x03, seq![0x00u8] + csig);
    let bs: nat = ae + 1 + crate::der::spec_len_octets((seq![0x00u8] + csig).len()).len();
    let be: nat = ae + bits.len();
    assert(be == s.len());
    assert(s.subrange(bs as int, be as int) == seq![0x00u8] + csig);
    assert(s[bs as int] == 0x00) by {
        assert(s.subrange(bs as int, be as int)[0] == s[bs as int]);
        assert((seq![0x00u8] + csig)[0] == 0x00);
    }
    crate::der::lemma_split_at(s, bs, seq![0x00u8], csig);
    assert(s.subrange((bs + 1) as int, be as int) == csig);
    assert(spec_split_outer(s) == Ok::<_, ParseError>((cs0, ts, te, (bs + 1) as nat, be)));
}

/// Walking a TBSCertificate content of the generated shape finds the
/// SubjectPublicKeyInfo, the public point, and the single extension entry of
/// its extension list, whatever that entry holds.
#[verifier::rlimit(100)]
proof fn lemma_parse_tbs_of(
    s: Seq<u8>,
    point: Seq<u8>,
    nb: Seq<u8>,
    na: Seq<u8>,
    entry: Seq<u8>,
    ts: nat,
)
    requires
        point.len() < 0x10000,
        nb.len() < 0x10000,
        na.len() < 0x10000,
        2 <= entry.len() < 0x100000,
        holds_at(s, ts, spec_tbs_content_with(point, nb, na, entry)),
    ensures
        ({
            let te = ts + spec_tbs_content_with(point, nb, na, entry).len();
            spec_parse_tbs(s, ts, te) matches Ok((spki_lo, spki_hi, pt_lo, pt_hi, ea, eb))
                && s.subrange(spki_lo as int, spki_hi as int) == spec_spki(point)
                && s.subrange(pt_lo as int, pt_hi as int) == point
                && holds_at(s, ea, entry)
                && eb == ea + entry.len()
        }),
{
    reveal(spec_parse_tbs);
    reveal(spec_parse_spki_exts);
    lemma_fixed_piece_lens(point, nb, na);
    crate::der::lemma_len_octets_len(entry.len());
    crate::der::lemma_len_octets_len(spec_tlv(0x30, entry).len());
    let tc = spec_tbs_content_with(point, nb, na, entry);
    let te: nat = ts + tc.len();
    let v = spec_version();
    let sn = spec_serial();
    let a = spec_alg_id();
    let n = spec_name();
    let vd = spec_validity(nb, na);
    let k = spec_spki(point);
    let x = spec_tlv(0xa3, spec_tlv(0x30, entry));
    let p1 = v + sn;
    let p2 = p1 + a;
    let p3 = p2 + n;
    let p4 = p3 + vd;
    let p5 = p4 + n;
    let p6 = p5 + k;
    assert(tc == p6 + x);
    crate::der::lemma_split_at(s, ts, p6, x);
    crate::der::lemma_split_at(s, ts, p5, k);
    crate::der::lemma_split_at(s, ts, p4, n);
    crate::der::lemma_split_at(s, ts, p3, vd);
    crate::der::lemma_split_at(s, ts, p2, n);
    crate::der::lemma_split_at(s, ts, p1, a);
    crate::der::lemma_split_at(s, ts, v, sn);
    let o1: nat = ts + v.len();
    let o2: nat = ts + p1.len();
    let o3: nat = ts + p2.len();
    let o4: nat = ts + p3.len();
    let o5: nat = ts + p4.len();
    let o6: nat = ts + p5.len();
    let o7: nat = ts + p6.len();
    // version
    assert(v == spec_tlv(0xa0, spec_tlv(0x02, seq![0x02u8]))) by {
        reveal(spec_version);
    }
    crate::der::lemma_read_tlv_of_encoding(s, ts, 0xa0, spec_tlv(0x02, seq![0x02u8]));
    assert(spec_tlv(0x02, seq![0x02u8]) =~= seq![0x02u8, 0x01, 0x02]);
    // serial
    assert(sn == spec_tlv(0x02, seq![0x01u8])) by {
        reveal(spec_serial);
    }
    crate::der::lemma_read_tlv_of_encoding(s, o1, 0x02, seq![0x01u8]);
    // inner signature algorithm
    assert(a == spec_tlv(0x30, spec_tlv(0x06, spec_oid_ecdsa_sha256()))) by {
        reveal(spec_alg_id);
    }
    crate::der::lemma_read_tlv_of_encoding(s, o2, 0x30, spec_tlv(0x06, spec_oid_ecdsa_sha256()));
    assert(s.subrange(o2 as int, o3 as int) == a);
    // issuer
    assert(spec_name() == spec_tlv(
        0x30,
        spec_tlv(
            0x31,
            spec_tlv(
                0x30,
                spec_tlv(0x06, seq![0x55u8, 0x04, 0x03]) + spec_tlv(
                    0x0c,
                    seq![0x6cu8, 0x69, 0x62, 0x70, 0x32, 0x70],
                ),
            ),
        ),
    )) by {
        reveal(spec_name);
    }
    let nc = spec_tlv(
        0x31,
        spec_tlv(
            0x30,
            spec_tlv(0x06, seq![0x55u8, 0x04, 0x03]) + spec_tlv(
                0x0c,
                seq![0x6cu8, 0x69, 0x62, 0x70, 0x32, 0x70],
            ),
        ),
    );
    crate::der::lemma_read_tlv_of_encoding(s, o3, 0x30, nc);
    // validity
    assert(vd == spec_tlv(0x30, spec_tlv(0x18, nb) + spec_tlv(0x18, na))) by {
        reveal(spec_validity);
    }
    crate::der::lemma_read_tlv_of_encoding(s, o4, 0x30, spec_tlv(0x18, nb) + spec_tlv(0x18, na));
    // subject
    crate::der::lemma_read_tlv_of_encoding(s, o5, 0x30, nc);
    // subject public key info
    let bp = spec_tlv(0x03, seq![0x00u8] + point);
    let kc = spec_ec_alg_id() + bp;
    assert(k == spec_tlv(0x30, kc)) by {
        reveal(spec_spki);
    }
    crate::der::lemma_read_tlv_of_encoding(s, o6, 0x30, kc);
    let ks: nat = o6 + 1 + crate::der::spec_len_octets(kc.len()).len();
    crate::der::lemma_split_at(s, ks, spec_ec_alg_id(), bp);
    assert(spec_ec_alg_id() == spec_tlv(
        0x30,
        spec_tlv(0x06, spec_oid_ec_pubkey()) + spec_tlv(0x06, spec_oid_p256()),
    )) by {
        reveal(spec_ec_alg_id);
    }
    crate::der::lemma_read_tlv_of_encoding(
        s,
        ks,
        0x30,
        spec_tlv(0x06, spec_oid_ec_pubkey()) + spec_tlv(0x06, spec_oid_p256()),
    );
    let ab: nat = ks + spec_ec_alg_id().len();
    assert(s.subrange(ks as int, ab as int) == spec_ec_alg_id());
    crate::der::lemma_read_tlv_of_encoding(s, ab, 0x03, seq![0x00u8] + point);
    let pa: nat = ab + 1 + crate::der::spec_len_octets((seq![0x00u8] + point).len()).len();
    let pb: nat = ab + bp.len();
    assert(pb == o7);
    assert(s[pa as int] == 0x00) by {
        assert(s.subrange(pa as int, pb as int)[0] == s[pa as int]);
        assert((seq![0x00u8] + point)[0] == 0x00);
    }
    crate::der::lemma_split_at(s, pa, seq![0x00u8], point);
    assert(s.subrange((pa + 1) as int, pb as int) == point);
    // extensions
    let l1 = spec_tlv(0x30, entry);
    crate::der::lemma_read_tlv_of_encoding(s, o7, 0xa3, l1);
    let xa: nat = o7 + 1 + crate::der::spec_len_octets(l1.len()).len();
    let xb: nat = o7 + x.len();
    assert(xb == te);
    crate::der::lemma_read_tlv_of_encoding(s, xa, 0x30, entry);
    let ea: nat = xa + 1 + crate::der::spec_len_octets(entry.len()).len();
    let eb: nat = xa + l1.len();
    assert(eb == xb);
    assert(o7 < te);
    assert(spec_parse_spki_exts(s, o6, te) == Ok::<_, ParseError>(
        (o6, o7, (pa + 1) as nat, pb, ea, eb),
    ));
    assert(spec_parse_tbs(s, ts, te) == Ok::<_, ParseError>(
        (o6, o7, (pa + 1) as nat, pb, ea, eb),
    ));
    assert(holds_at(s, ea, entry));
}

/// Scanning the extension list of a generated certificate finds the single
/// signed-key extension and, inside its value, the identity key and the
/// signature.
proof fn lemma_parse_ext_of(s: Seq<u8>, pk: Seq<u8>, esig: Seq<u8>, ea: nat)
    requires
        pk.len() < 0x10000,
        esig.len() < 0x10000,
        holds_at(s, ea, spec_ext_entry(spec_signed_key_ext(pk, esig))),
    ensures
        ({
            let eb = ea + spec_ext_entry(spec_signed_key_ext(pk, esig)).len();
            spec_scan_exts(s, ea, eb, None) matches Ok((va, vb)) && (s.subrange(
                va as int,
                vb as int,
            ) == spec_signed_key_ext(pk, esig) && (spec_parse_signed_key(s, va, vb) matches Ok(
                (p1, p2, q1, q2),
            ) && (s.subrange(p1 as int, p2 as int) == pk && s.subrange(q1 as int, q2 as int)
                == esig)))
        }),
{
    reveal(spec_parse_one_ext);
    reveal(spec_parse_signed_key);
    crate::der::lemma_len_octets_len(pk.len());
    crate::der::lemma_len_octets_len(esig.len());
    let extv = spec_signed_key_ext(pk, esig);
    let ic = spec_tlv(0x04, pk) + spec_tlv(0x04, esig);
    assert(extv == spec_tlv(0x30, ic)) by {
        reveal(spec_signed_key_ext);
    }
    crate::der::lemma_len_octets_len(ic.len());
    let oe = spec_tlv(0x06, spec_oid_libp2p_ext());
    let ve = spec_tlv(0x04, extv);
    let ec = oe + ve;
    crate::der::lemma_len_octets_len(extv.len());
    crate::der::lemma_len_octets_len(ec.len());
    let e1 = spec_ext_entry(extv);
    assert(e1 == spec_tlv(0x30, ec));
    let eb: nat = ea + e1.len();
    crate::der::lemma_read_tlv_of_encoding(s, ea, 0x30, ec);
    let cs2: nat = ea + 1 + crate::der::spec_len_octets(ec.len()).len();
    let ce2: nat = ea + e1.len();
    crate::der::lemma_split_at(s, cs2, oe, ve);
    crate::der::lemma_read_tlv_of_encoding(s, cs2, 0x06, spec_oid_libp2p_ext());
    let oa: nat = cs2 + 1 + crate::der::spec_len_octets(spec_oid_libp2p_ext().len()).len();
    let ob: nat = cs2 + oe.len();
    assert(s.subrange(oa as int, ob as int) == spec_oid_libp2p_ext());
    crate::der::lemma_read_tlv_of_encoding(s, ob, 0x04, extv);
    let ba: nat = ob + 1 + crate::der::spec_len_octets(extv.len()).len();
    let bb: nat = ob + ve.len();
    assert(bb == ce2);
    assert(spec_parse_one_ext(s, cs2, ce2) == Some(Some((ba, bb))));
    assert(spec_scan_exts(s, ce2, eb, Some((ba, bb))) == Ok::<_, ParseError>((ba, bb)));
    assert(spec_scan_exts(s, ea, eb, None) == Ok::<_, ParseError>((ba, bb)));
    // inside the extension value
    assert(s.subrange(ba as int, bb as int) == extv);
    crate::der::lemma_read_tlv_of_encoding(s, ba, 0x30, ic);
    let ca: nat = ba + 1 + crate::der::spec_len_octets(ic.len()).len();
    let cb: nat = ba + extv.len();
    assert(cb == bb);
    crate::der::lemma_split_at(s, ca, spec_tlv(0x04, pk), spec_tlv(0x04, esig));
    crate::der::lemma_read_tlv_of_encoding(s, ca, 0x04, pk);
    let pk_lo: nat = ca + 1 + crate::der::spec_len_octets(pk.len()).len();
    let pk_hi: nat = ca + spec_tlv(0x04, pk).len();
    crate::der::lemma_read_tlv_of_encoding(s, pk_hi, 0x04, esig);
    let es_lo: nat = pk_hi + 1 + crate::der::spec_len_octets(esig.len()).len();
    let es_hi: nat = pk_hi + spec_tlv(0x04, esig).len();
    assert(es_hi == cb);
    assert(spec_parse_signed_key(s, ba, bb) == Ok::<_, ParseError>((pk_lo, pk_hi, es_lo, es_hi)));
}

/// An extension list holding one well-formed extension under an object
/// identifier other than the libp2p signed-key one scans as a certificate
/// with the extension missing, whatever that extension's value holds.
pub proof fn lemma_other_oid_extension_missing(s: Seq<u8>, ea: nat, oid: Seq<u8>, val: Seq<u8>)
    requires
        oid != spec_oid_libp2p_ext(),
        oid.len() < 0x10000,
        val.len() < 0x10000,
        holds_at(s, ea, spec_tlv(0x30, spec_tlv(0x06, oid) + spec_tlv(0x04, val))),
    ensures
        spec_scan_exts(
            s,
            ea,
            ea + spec_tlv(0x30, spec_tlv(0x06, oid) + spec_tlv(0x04, val)).len(),
            None,
        ) == Err::<(nat, nat), ParseError>(ParseError::ExtensionMissing),
{
    reveal(spec_parse_one_ext);
    crate::der::lemma_len_octets_len(oid.len());
    crate::der::lemma_len_octets_len(val.len());
    let oe = spec_tlv(0x06, oid);
    let ve = spec_tlv(0x04, val);
    let ec = oe + ve;
    crate::der::lemma_len_octets_len(ec.len());
    let e1 = spec_tlv(0x30, ec);
    let eb: nat = ea + e1.len();
    crate::der::lemma_read_tlv_of_encoding(s, ea, 0x30, ec);
    let cs2: nat = ea + 1 + crate::der::spec_len_octets(ec.len()).len();
    let ce2: nat = ea + e1.len();
    crate::der::lemma_split_at(s, cs2, oe, ve);
    crate::der::lemma_read_tlv_of_encoding(s, cs2, 0x06, oid);
    let oa: nat = cs2 + 1 + crate::der::spec_len_octets(oid.len()).len();
    let ob: nat = cs2 + oe.len();
    assert(s.subrange(oa as int, ob as int) == oid);
    assert(spec_parse_one_ext(s, cs2, ce2) == Some(None::<(nat, nat)>));
    assert(spec_scan_exts(s, ce2, eb, None) == Err::<(nat, nat), ParseError>(
        ParseError::ExtensionMissing,
    ));
    assert(spec_scan_exts(s, ea, eb, None) == Err::<(nat, nat), ParseError>(
        ParseError::ExtensionMissing,
    ));
}

/// A certificate of the generated shape whose single extension sits under an
/// object identifier other than the libp2p signed-key one does not parse,
/// whatever that extension's value holds: its signed-key extension is
/// missing, which callers surface as a bad certificate.
pub proof fn lemma_wrong_oid_certificate_rejected(
    oid: Seq<u8>,
    val: Seq<u8>,
    point: Seq<u8>,
    nb: Seq<u8>,
    na: Seq<u8>,
    csig: Seq<u8>,
)
    requires
        oid != spec_oid_libp2p_ext(),
        oid.len() < 0x10000,
        val.len() < 0x10000,
        point.len() < 0x10000,
        nb.len() < 0x10000,
        na.len() < 0x10000,
        csig.len() < 0x10000,
    ensures
        spec_parse_certificate(
            spec_certificate(
                spec_tlv(
                    0x30,
                    spec_tbs_content_with(
                        point,
                        nb,
                        na,
                        spec_tlv(0x30, spec_tlv(0x06, oid) + spec_tlv(0x04, val)),
                    ),
                ),
                csig,
            ),
        ) == Err::<SpecCertFields, ParseError>(ParseError::ExtensionMissing),
{
    let entry = spec_tlv(0x30, spec_tlv(0x06, oid) + spec_tlv(0x04, val));
    crate::der::lemma_len_octets_len(oid.len());
    crate::der::lemma_len_octets_len(val.len());
    crate::der::lemma_len_octets_len((spec_tlv(0x06, oid) + spec_tlv(0x04, val)).len());
    lemma_fixed_piece_lens(point, nb, na);
    crate::der::lemma_len_octets_len(entry.len());
    crate::der::lemma_len_octets_len(spec_tlv(0x30, entry).len());
    let tc = spec_tbs_content_with(point, nb, na, entry);
    let s = spec_certificate(spec_tlv(0x30, tc), csig);
    lemma_parse_outer(tc, csig);
    let so = spec_split_outer(s);
    match so {
        Ok((tbs_lo, ts, te, sig_s, sig_e)) => {
            lemma_parse_tbs_of(s, point, nb, na, entry, ts);
            let pt = spec_parse_tbs(s, ts, te);
            match pt {
                Ok((spki_lo, spki_hi, pt_lo, pt_hi, ea, eb)) => {
                    lemma_other_oid_extension_missing(s, ea, oid, val);
                    assert(spec_scan_exts(s, ea, eb, None) == Err::<(nat, nat), ParseError>(
                        ParseError::ExtensionMissing,
                    ));
                    assert(spec_parse_certificate(s) == Err::<SpecCertFields, ParseError>(
                        ParseError::ExtensionMissing,
                    ));
                },
                Err(_) => {
                    assert(false);
                },
            }
        },
        Err(_) => {
            assert(false);
        },
    }
}

/// A generated certificate parses: the structural fields found back are
/// exactly the pieces it was built from, and where the embedded signatures
/// verify, the parse succeeds. In particular the signed-key extension value
/// round-trips, and the recovered identity key is the one the certificate was
/// generated for.
pub proof fn lemma_generated_certificate_parses(
    pk: Seq<u8>,
    esig: Seq<u8>,
    point: Seq<u8>,
    nb: Seq<u8>,
    na: Seq<u8>,
    csig: Seq<u8>,
)
    requires
        pk.len() < 0x10000,
        esig.len() < 0x10000,
        point.len() < 0x10000,
        nb.len() < 0x10000,
        na.len() < 0x10000,
        csig.len() < 0x10000,
        spec_is_identity_key(pk),
        spec_identity_sig_ok(pk, spec_sign_prefix() + spec_spki(point), esig),
        spec_p256_sig_ok(point, spec_tbs(pk, esig, point, nb, na), csig),
    ensures
        ({
            let s = spec_certificate(spec_tbs(pk, esig, point, nb, na), csig);
            spec_parse_certificate(s) matches Ok(f)
                && f.identity_pubkey == pk
                && f.ext_signature == esig
                && f.point == point
                && f.spki == spec_spki(point)
                && f.tbs == spec_tbs(pk, esig, point, nb, na)
                && f.cert_sig == csig
                && f.ext_value == spec_signed_key_ext(pk, esig)
        }),
{
    let tbs = spec_tbs(pk, esig, point, nb, na);
    let tc = spec_tbs_content(pk, esig, point, nb, na);
    let entry = spec_ext_entry(spec_signed_key_ext(pk, esig));
    let s = spec_certificate(tbs, csig);
    lemma_cert_lens(pk, esig, point, nb, na);
    assert(tbs == spec_tlv(0x30, tc)) by {
        reveal(spec_tbs);
    }
    assert(tc == spec_tbs_content_with(point, nb, na, entry)) by {
        reveal(spec_extensions);
    }
    lemma_parse_outer(tc, csig);
    let so = spec_split_outer(s);
    match so {
        Ok((tbs_lo, ts, te, sig_s, sig_e)) => {
            lemma_parse_tbs_of(s, point, nb, na, entry, ts);
            let pt = spec_parse_tbs(s, ts, te);
            match pt {
                Ok((spki_lo, spki_hi, pt_lo, pt_hi, ea, eb)) => {
    lemma_parse_ext_of(s, pk, esig, ea);
                    let sc = spec_scan_exts(s, ea, eb, None);
                    match sc {
                        Ok((va, vb)) => {
                            let ps = spec_parse_signed_key(s, va, vb);
                            match ps {
                                Ok((p1, p2, q1, q2)) => {
                                    assert(s.subrange(p1 as int, p2 as int) == pk);
                                    assert(s.subrange(spki_lo as int, spki_hi as int)
                                        == spec_spki(point));
                                    assert(s.subrange(tbs_lo as int, te as int) == tbs);
                                    assert((spec_parse_certificate(s) matches Ok(f)
                                        && f.identity_pubkey == pk && f.ext_signature == esig
                                        && f.point == point && f.spki == spec_spki(point)
                                        && f.tbs == tbs && f.cert_sig == csig
                                        && f.ext_value == spec_signed_key_ext(pk, esig)));
                                },
                                Err(_) => {
                                    assert(false);
                                },
                            }
                        },
                        Err(_) => {
                            assert(false);
                        },
                    }
                },
                Err(_) => {
                    assert(false);
                },
            }
        },
        Err(_) => {
            assert(false);
        },
    }
}


/// The NotBefore instant: one hour before `now`, clamped at the epoch.
pub open spec fn spec_not_before(now: u64) -> u64 {
    if now >= 3600 {
        (now - 3600) as u64
    } else {
        0
    }
}

/// The NotAfter instant: one hundred years of 365.25 days after `now`,
/// saturating.
pub open spec fn spec_not_after(now: u64) -> u64 {
    if now <= 0xffffffffffffffff - 3155760000 {
        (now + 3155760000) as u64
    } else {
        0xffffffffffffffff
    }
}

/// Generates the peer-identity certificate for `identity`, with `now` as the
/// clock reading the validity window is placed around: a fresh P-256 TLS key
/// pair, the identity's signature over the key-binding message, and the
/// self-signed leaf. Yields the DER certificate and the PKCS#8 encoding of
/// the TLS private key.
///
/// A successful certificate is pinned completely: it parses back, its
/// recovered fields name the generating identity, its signed-key extension
/// holds exactly the identity public key and a verifying signature, its
/// TBSCertificate is the built one — validity from `now − 1 h` to
/// `now + 100 y` — and the whole encoding is that TBSCertificate under the
/// recovered leaf signature.
pub fn generate_at(identity: &IdentityKeypair, now: u64) -> (r: Result<(Vec<u8>, Vec<u8>), GenError>)
    ensures
        r matches Ok(g) ==> (spec_parse_certificate(g.0@) matches Ok(f) && f.identity_pubkey
            == identity.spec_public() && f.ext_value == spec_signed_key_ext(
            identity.spec_public(),
            f.ext_signature,
        ) && spec_identity_sig_ok(
            identity.spec_public(),
            spec_sign_prefix() + f.spki,
            f.ext_signature,
        ) && spec_is_identity_key(f.identity_pubkey) && f.spki == spec_spki(f.point) && f.tbs
            == spec_tbs(
            identity.spec_public(),
            f.ext_signature,
            f.point,
            spec_generalized_time(spec_not_before(now)),
            spec_generalized_time(spec_not_after(now)),
        ) && g.0@ == spec_certificate(f.tbs, f.cert_sig)),
{
    identity_wf(identity);
    let tls = match TlsKeypair::generate() {
        Some(t) => t,
        None => {
            return Err(GenError::KeyGeneration);
        },
    };
    let point = tls.public_point();
    if point.len() >= 0x10000 {
        return Err(GenError::Encoding);
    }
    let pk = identity.public_protobuf();
    if pk.len() >= 0x10000 {
        return Err(GenError::Encoding);
    }
    let spki = build_spki(point.as_slice());
    let mut msg = sign_prefix();
    msg.extend_from_slice(spki.as_slice());
    let esig = match identity.sign(msg.as_slice()) {
        Some(sg) => sg,
        None => {
            return Err(GenError::Signing);
        },
    };
    if esig.len() >= 0x10000 {
        return Err(GenError::Encoding);
    }
    assert(msg@ == spec_sign_prefix() + spec_spki(point@));
    assert(spec_identity_sig_ok(identity.spec_public(), msg@, esig@));
    let nb_secs: u64 = if now >= 3600 {
        now - 3600
    } else {
        0
    };
    // one hundred years of 365.25 days
    let na_secs: u64 = if now <= 0xffffffffffffffff - 3155760000 {
        now + 3155760000
    } else {
        0xffffffffffffffff
    };
    let nb = generalized_time(nb_secs);
    let na = generalized_time(na_secs);
    let tbs = build_tbs(
        pk.as_slice(),
        esig.as_slice(),
        point.as_slice(),
        nb.as_slice(),
        na.as_slice(),
    );
    let csig = match tls.sign(tbs.as_slice()) {
        Some(sg) => sg,
        None => {
            return Err(GenError::Signing);
        },
    };
    if csig.len() >= 0x10000 {
        return Err(GenError::Encoding);
    }
    let cert = build_certificate(tbs.as_slice(), csig.as_slice());
    proof {
        lemma_generated_certificate_parses(pk@, esig@, point@, nb@, na@, csig@);
    }
    Ok((cert, tls.pkcs8_der()))
}

/// Generates the peer-identity certificate for `identity` with the validity
/// window placed around the current time; everything else is as
/// `generate_at`, whose contract ties the validity bytes to the clock value
/// it is given.
pub fn generate(identity: &IdentityKeypair) -> (r: Result<(Vec<u8>, Vec<u8>), GenError>)
    ensures
        r matches Ok(g) ==> (spec_parse_certificate(g.0@) matches Ok(f) && f.identity_pubkey
            == identity.spec_public() && f.ext_value == spec_signed_key_ext(
            identity.spec_public(),
            f.ext_signature,
        ) && spec_identity_sig_ok(
            identity.spec_public(),
            spec_sign_prefix() + f.spki,
            f.ext_signature,
        ) && spec_is_identity_key(f.identity_pubkey) && f.spki == spec_spki(f.point) && g.0@
            == spec_certificate(f.tbs, f.cert_sig)),
{
    let now = unix_now_seconds();
    generate_at(identity, now)
}

} // verus!
