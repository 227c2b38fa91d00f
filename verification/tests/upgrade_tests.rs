//! Upgrade state machine, direction selection, protocol names, and error
//! plumbing.

use p2p_tls_handshake::apply::{
    advance, select_direction, Direction, Endpoint, Role, UpgradeAction, UpgradeEvent, UpgradeState,
};
use p2p_tls_handshake::crypto::IdentityKeypair;
use p2p_tls_handshake::der::{read_tlv, write_tlv};
use p2p_tls_handshake::error::UpgradeError;
use p2p_tls_handshake::upgrade::{alpn_protocol, protocol_name, Config};

#[test]
fn protocol_info_is_tls_1_0_0() {
    let identity = IdentityKeypair::generate();
    let config = Config::new(&identity).expect("config builds");
    assert_eq!(config.protocol_info(), "/tls/1.0.0");
    assert_eq!(protocol_name(), "/tls/1.0.0");
    assert_eq!(alpn_protocol(), b"libp2p".to_vec());
}

#[test]
fn negotiation_failure_fails_with_select() {
    let (state, action) = advance(UpgradeState::Init, UpgradeEvent::NegotiationFailed);
    assert_eq!(state, UpgradeState::Failed);
    assert_eq!(action, UpgradeAction::FailSelect);
}

#[test]
fn upgrade_advances_init_to_done_through_upgrade() {
    let (state, action) = advance(UpgradeState::Init, UpgradeEvent::Negotiated);
    assert_eq!(state, UpgradeState::Upgrade);
    assert_eq!(action, UpgradeAction::StartHandshake);
    let (state, action) = advance(state, UpgradeEvent::HandshakeDone);
    assert_eq!(state, UpgradeState::Done);
    assert_eq!(action, UpgradeAction::Deliver);
}

#[test]
fn handshake_failure_fails_with_apply() {
    let (state, action) = advance(UpgradeState::Upgrade, UpgradeEvent::HandshakeFailed);
    assert_eq!(state, UpgradeState::Failed);
    assert_eq!(action, UpgradeAction::FailApply);
}

#[test]
fn only_a_true_dialer_runs_outbound() {
    assert_eq!(
        select_direction(&Endpoint::Dialer { role_override: Role::Dialer }),
        Direction::Outbound
    );
    assert_eq!(
        select_direction(&Endpoint::Dialer { role_override: Role::Listener }),
        Direction::Inbound
    );
    assert_eq!(select_direction(&Endpoint::Listener), Direction::Inbound);
}

#[test]
fn upgrade_error_maps_only_the_apply_side() {
    let e: UpgradeError<u8> = UpgradeError::Apply(7);
    match e.map_err(|x| x as u32 + 1) {
        UpgradeError::Apply(v) => assert_eq!(v, 8),
        UpgradeError::Select(_) => panic!("apply must stay apply"),
    }
    let e: UpgradeError<u8> = UpgradeError::Apply(7);
    match e.into_err::<u32>() {
        UpgradeError::Apply(v) => assert_eq!(v, 7),
        UpgradeError::Select(_) => panic!("apply must stay apply"),
    }
}

#[test]
fn der_length_forms_round_trip() {
    for &len in &[0usize, 1, 0x7f, 0x80, 0xff, 0x100, 0xffff, 0x10000, 0x100000] {
        let content = vec![0xabu8; len];
        let mut out: Vec<u8> = Vec::new();
        write_tlv(&mut out, 0x04, &content);
        let (tag, cs, ce) = read_tlv(&out, 0).expect("written value reads back");
        assert_eq!(tag, 0x04);
        assert_eq!(ce - cs, len);
        assert_eq!(&out[cs..ce], content.as_slice());
        assert_eq!(ce, out.len());
    }
}

#[test]
fn der_reader_rejects_non_minimal_lengths() {
    // 0x81 with a value below 0x80 is non-minimal.
    assert!(read_tlv(&[0x04, 0x81, 0x01, 0xaa], 0).is_none());
    // 0x82 with a value below 0x100 is non-minimal.
    assert!(read_tlv(&[0x04, 0x82, 0x00, 0x05, 0, 0, 0, 0, 0], 0).is_none());
    // An indefinite length is not DER.
    assert!(read_tlv(&[0x30, 0x80, 0x00, 0x00], 0).is_none());
    // A length overrunning the buffer is rejected.
    assert!(read_tlv(&[0x04, 0x05, 0x00], 0).is_none());
}

#[test]
fn cloned_configs_are_independent() {
    let identity = IdentityKeypair::generate();
    let config = Config::new(&identity).expect("config builds");
    let clones: Vec<Config> = (0..50).map(|_| config.clone()).collect();
    for c in &clones {
        assert_eq!(c.certificate_der, config.certificate_der);
        assert_eq!(c.local_peer.clone().to_bytes(), config.local_peer.clone().to_bytes());
    }
}
