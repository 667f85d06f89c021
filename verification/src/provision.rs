//! The provisioning lifecycle of the remote node: first-time signup and the
//! idempotent check-and-provision step ordinary startup performs.
//!
//! The remote exchange itself is the embedding program's job: it observes
//! the node's state on the wire, asks these functions what to do, performs
//! the returned action, and reports the outcome back. Every decision is a
//! pure function of observed state, so the whole lifecycle is checked here.

use vstd::prelude::*;

use crate::errors::ProvisioningError;

verus! {

/// The remote node's provisioning state, as last observed from the backend.
#[derive(Clone, Copy, PartialEq, Eq, Structural, Debug)]
pub enum NodeProvisionState {
    /// No identity is registered yet.
    Unregistered,
    /// Registered and provisioned at the given version.
    Provisioned {
        /// The node version the identity was last provisioned at.
        version: u64,
    },
}

/// The remote work a lifecycle step asks the embedding program to perform.
#[derive(Clone, Copy, PartialEq, Eq, Structural, Debug)]
pub enum ProvisionAction {
    /// Nothing: the node is already provisioned at the required version.
    NoOp,
    /// Run the provisioning flow against the remote node.
    Provision,
    /// Run the first-time signup-and-provision flow.
    Signup,
}

/// The decision of the idempotent check-and-provision step.
pub open spec fn ensure_action_spec(
    state: NodeProvisionState,
    required_version: u64,
) -> ProvisionAction {
    match state {
        NodeProvisionState::Unregistered => ProvisionAction::Provision,
        NodeProvisionState::Provisioned { version } => if version == required_version {
            ProvisionAction::NoOp
        } else {
            ProvisionAction::Provision
        },
    }
}

/// The state an observation reports after a successful provisioning run.
pub open spec fn provisioned_at(required_version: u64) -> NodeProvisionState {
    NodeProvisionState::Provisioned { version: required_version }
}

/// Decide the check-and-provision step: a node already at the required
/// version needs no remote work at all; anything else is (re)provisioned.
pub fn ensure_provisioned_action(state: NodeProvisionState, required_version: u64) -> (a:
    ProvisionAction)
    ensures
        a == ensure_action_spec(state, required_version),
        a == ProvisionAction::NoOp <==> state == provisioned_at(required_version),
{
    match state {
        NodeProvisionState::Unregistered => ProvisionAction::Provision,
        NodeProvisionState::Provisioned { version } => {
            if version == required_version {
                ProvisionAction::NoOp
            } else {
                ProvisionAction::Provision
            }
        },
    }
}

/// The observed state after the remote reports a successful provisioning
/// run at the required version.
pub fn apply_provision_success(required_version: u64) -> (s: NodeProvisionState)
    ensures
        s == provisioned_at(required_version),
{
    NodeProvisionState::Provisioned { version: required_version }
}

/// Decide the one-time signup step: only an unregistered identity may sign
/// up; an already-registered one is refused rather than silently redone.
pub fn signup_action(state: NodeProvisionState) -> (r: Result<
    ProvisionAction,
    ProvisioningError,
>)
    ensures
        match r {
            Ok(a) => state == NodeProvisionState::Unregistered && a == ProvisionAction::Signup,
            Err(e) => state is Provisioned && e == ProvisioningError::AlreadyRegistered,
        },
{
    match state {
        NodeProvisionState::Unregistered => Ok(ProvisionAction::Signup),
        NodeProvisionState::Provisioned { .. } => Err(ProvisioningError::AlreadyRegistered),
    }
}

/// Law: the check-and-provision step is idempotent. Whatever it decides for
/// an observed state, the state after that decision is carried out (nothing
/// for a no-op, a successful provisioning run otherwise) decides no remote
/// work on the next step at the same required version.
pub proof fn lemma_ensure_provisioned_idempotent(state: NodeProvisionState, required_version: u64)
    ensures
        ensure_action_spec(
            if ensure_action_spec(state, required_version) == ProvisionAction::NoOp {
                state
            } else {
                provisioned_at(required_version)
            },
            required_version,
        ) == ProvisionAction::NoOp,
{
}

} // verus!
