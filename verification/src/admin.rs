use vstd::prelude::*;

use crate::address::UniversalAddress;
use crate::errors::RouterError;

verus! {

/// The admin-handoff state of one integrator's configuration.
///
/// A configuration starts `Active` with the admin chosen at registration.
/// `transfer_admin` moves it to `TransferPending` until the new admin claims
/// it; `discard_admin` moves it to `Immutable`, from which no transition
/// leaves. Holding the pending admin inside the `TransferPending` variant
/// makes "a transfer pending with no admin" unrepresentable.
#[derive(Clone, Copy, Debug, PartialEq, Eq, Structural)]
pub enum AdminState {
    Active { admin: UniversalAddress },
    TransferPending { admin: UniversalAddress, pending_admin: UniversalAddress },
    Immutable,
}

impl AdminState {
    /// Whether `caller` holds current admin authority: only the admin of an
    /// `Active` configuration does.
    pub open spec fn is_authorized(self, caller: UniversalAddress) -> bool {
        self matches AdminState::Active { admin } && admin == caller
    }

    /// The outcome of the admin guard that every admin-gated mutating
    /// operation runs first: a pending transfer rejects everyone, and an
    /// immutable configuration or a caller other than the admin is rejected
    /// as unauthorized.
    pub open spec fn guard(self, caller: UniversalAddress) -> Result<(), RouterError> {
        if self is TransferPending {
            Err(RouterError::AdminTransferInProgress)
        } else if self.is_authorized(caller) {
            Ok(())
        } else {
            Err(RouterError::CallerNotAuthorized)
        }
    }

    /// The current admin, absent for an immutable configuration.
    pub open spec fn spec_admin(self) -> Option<UniversalAddress> {
        match self {
            AdminState::Active { admin } => Some(admin),
            AdminState::TransferPending { admin, .. } => Some(admin),
            AdminState::Immutable => None,
        }
    }

    /// The admin a pending transfer would hand authority to, if one is pending.
    pub open spec fn spec_pending_admin(self) -> Option<UniversalAddress> {
        match self {
            AdminState::TransferPending { pending_admin, .. } => Some(pending_admin),
            _ => None,
        }
    }

    /// Runs the admin guard.
    pub fn check(&self, caller: UniversalAddress) -> (r: Result<(), RouterError>)
        ensures
            r == self.guard(caller),
    {
        match *self {
            AdminState::TransferPending { .. } => Err(RouterError::AdminTransferInProgress),
            AdminState::Active { admin } => {
                if admin == caller {
                    Ok(())
                } else {
                    Err(RouterError::CallerNotAuthorized)
                }
            },
            AdminState::Immutable => Err(RouterError::CallerNotAuthorized),
        }
    }

    /// The current admin, absent for an immutable configuration.
    pub fn admin(&self) -> (r: Option<UniversalAddress>)
        ensures
            r == self.spec_admin(),
    {
        match *self {
            AdminState::Active { admin } => Some(admin),
            AdminState::TransferPending { admin, .. } => Some(admin),
            AdminState::Immutable => None,
        }
    }

    /// The pending admin, if a transfer is in progress.
    pub fn pending_admin(&self) -> (r: Option<UniversalAddress>)
        ensures
            r == self.spec_pending_admin(),
    {
        match *self {
            AdminState::TransferPending { pending_admin, .. } => Some(pending_admin),
            _ => None,
        }
    }
}

} // verus!
