//! The security-upgrade state machine: the decisions that drive one upgrade
//! from protocol negotiation through the TLS handshake, and the choice of
//! direction for a connected endpoint.

use vstd::prelude::*;

verus! {

/// The stage of one security upgrade.
#[derive(Debug, Clone, Copy, PartialEq, Eq, Structural)]
pub enum UpgradeState {
    /// Protocol negotiation is in progress.
    Init,
    /// The TLS handshake is in progress on the negotiated stream.
    Upgrade,
    /// The upgrade completed and authenticated the remote peer.
    Done,
    /// The upgrade failed.
    Failed,
}

/// What the in-flight negotiation or handshake reported.
#[derive(Debug, Clone, Copy, PartialEq, Eq, Structural)]
pub enum UpgradeEvent {
    /// Protocol negotiation completed and selected the protocol.
    Negotiated,
    /// Protocol negotiation failed.
    NegotiationFailed,
    /// The TLS handshake completed.
    HandshakeDone,
    /// The TLS handshake failed.
    HandshakeFailed,
}

/// What the driver must do after one step.
#[derive(Debug, Clone, Copy, PartialEq, Eq, Structural)]
pub enum UpgradeAction {
    /// Start the TLS handshake on the negotiated stream.
    StartHandshake,
    /// Yield the authenticated peer and the encrypted stream.
    Deliver,
    /// Fail the upgrade with the negotiation error.
    FailSelect,
    /// Fail the upgrade with the handshake error.
    FailApply,
}

/// How far along a stage is: negotiating, shaking hands, or over.
pub open spec fn spec_stage_rank(s: UpgradeState) -> nat {
    match s {
        UpgradeState::Init => 0,
        UpgradeState::Upgrade => 1,
        UpgradeState::Done => 2,
        UpgradeState::Failed => 2,
    }
}

/// One step of the upgrade state machine.
pub open spec fn spec_advance(state: UpgradeState, event: UpgradeEvent) -> (
    UpgradeState,
    UpgradeAction,
) {
    match (state, event) {
        (UpgradeState::Init, UpgradeEvent::Negotiated) => (
            UpgradeState::Upgrade,
            UpgradeAction::StartHandshake,
        ),
        (UpgradeState::Init, _) => (UpgradeState::Failed, UpgradeAction::FailSelect),
        (UpgradeState::Upgrade, UpgradeEvent::HandshakeDone) => (
            UpgradeState::Done,
            UpgradeAction::Deliver,
        ),
        _ => (UpgradeState::Failed, UpgradeAction::FailApply),
    }
}

/// Advances the upgrade by one observed event. Polling an upgrade that has
/// already completed or failed is a programmer error and is excluded, as is
/// an event that does not belong to the current stage.
pub fn advance(state: UpgradeState, event: UpgradeEvent) -> (r: (UpgradeState, UpgradeAction))
    requires
        state is Init || state is Upgrade,
        state is Init ==> (event is Negotiated || event is NegotiationFailed),
        state is Upgrade ==> (event is HandshakeDone || event is HandshakeFailed),
    ensures
        r == spec_advance(state, event),
        state is Init && event is Negotiated ==> r == (
            UpgradeState::Upgrade,
            UpgradeAction::StartHandshake,
        ),
        state is Init && event is NegotiationFailed ==> r == (
            UpgradeState::Failed,
            UpgradeAction::FailSelect,
        ),
        state is Upgrade && event is HandshakeDone ==> r == (
            UpgradeState::Done,
            UpgradeAction::Deliver,
        ),
        state is Upgrade && event is HandshakeFailed ==> r == (
            UpgradeState::Failed,
            UpgradeAction::FailApply,
        ),
{
    match (state, event) {
        (UpgradeState::Init, UpgradeEvent::Negotiated) => (
            UpgradeState::Upgrade,
            UpgradeAction::StartHandshake,
        ),
        (UpgradeState::Init, _) => (UpgradeState::Failed, UpgradeAction::FailSelect),
        (UpgradeState::Upgrade, UpgradeEvent::HandshakeDone) => (
            UpgradeState::Done,
            UpgradeAction::Deliver,
        ),
        _ => (UpgradeState::Failed, UpgradeAction::FailApply),
    }
}

/// The stages of one upgrade advance strictly: negotiation comes before the
/// handshake, the handshake before completion, and no step goes backward; in
/// particular no upgrade completes without passing through the handshake
/// stage.
pub proof fn lemma_upgrade_order(state: UpgradeState, event: UpgradeEvent)
    requires
        state is Init || state is Upgrade,
    ensures
        spec_stage_rank(spec_advance(state, event).0) > spec_stage_rank(state),
        state is Init ==> !(spec_advance(state, event).0 is Done),
{
}

/// The role of the local side of a connection. A dialing endpoint may have
/// its role overridden to act as a listener for hole punching.
#[derive(Debug, Clone, Copy, PartialEq, Eq, Structural)]
pub enum Role {
    /// The side that opened the connection.
    Dialer,
    /// The side that accepted the connection.
    Listener,
}

/// The connected endpoint: the local side either dialed, with an effective
/// role, or listened.
#[derive(Debug, Clone, Copy, PartialEq, Eq, Structural)]
pub enum Endpoint {
    /// The local side opened the connection.
    Dialer {
        /// The effective role of the dialer after any override.
        role_override: Role,
    },
    /// The local side accepted the connection.
    Listener,
}

/// The direction in which the security upgrade runs.
#[derive(Debug, Clone, Copy, PartialEq, Eq, Structural)]
pub enum Direction {
    /// Run the listener side of the negotiation and the TLS server.
    Inbound,
    /// Run the dialer side of the negotiation and the TLS client.
    Outbound,
}

/// The outbound upgrade runs only where the local endpoint dialed and its
/// role was not overridden; every other endpoint, a listener-overridden
/// dialer included, runs the inbound upgrade.
pub fn select_direction(endpoint: &Endpoint) -> (r: Direction)
    ensures
        r is Outbound <==> endpoint matches Endpoint::Dialer { role_override: Role::Dialer },
{
    match endpoint {
        Endpoint::Dialer { role_override: Role::Dialer } => Direction::Outbound,
        _ => Direction::Inbound,
    }
}

} // verus!
