use gmp_router::address::UniversalAddress;
use gmp_router::errors::RouterError;
use gmp_router::router::Router;

fn setup() -> (Router, UniversalAddress, u64) {
    let owner = UniversalAddress::new(99, 99);
    let admin = UniversalAddress::new(1, 1);
    let mut router = Router::new(owner);
    let integrator_id = router.register(UniversalAddress::new(2, 2), admin).unwrap();
    (router, admin, integrator_id)
}

#[test]
fn test_update_admin_success() {
    let (mut router, admin, integrator_id) = setup();
    let new_admin = UniversalAddress::new(5, 5);

    router.update_admin(admin, integrator_id, new_admin).unwrap();
    assert_eq!(router.get_admin(integrator_id), Some(new_admin));
    assert_eq!(router.get_pending_admin(integrator_id), None);

    // The old admin no longer holds authority
    let result = router.update_admin(admin, integrator_id, admin);
    assert_eq!(result, Err(RouterError::CallerNotAuthorized));
}

#[test]
fn test_update_admin_wrong_caller() {
    let (mut router, admin, integrator_id) = setup();
    let stranger = UniversalAddress::new(50, 50);

    let result = router.update_admin(stranger, integrator_id, stranger);
    assert_eq!(result, Err(RouterError::CallerNotAuthorized));
    assert_eq!(router.get_admin(integrator_id), Some(admin));
}

#[test]
fn test_transfer_and_claim_admin() {
    let (mut router, admin, integrator_id) = setup();
    let new_admin = UniversalAddress::new(5, 5);

    router.transfer_admin(admin, integrator_id, new_admin).unwrap();
    assert_eq!(router.get_admin(integrator_id), Some(admin));
    assert_eq!(router.get_pending_admin(integrator_id), Some(new_admin));

    router.claim_admin(new_admin, integrator_id).unwrap();
    assert_eq!(router.get_admin(integrator_id), Some(new_admin));
    assert_eq!(router.get_pending_admin(integrator_id), None);
}

#[test]
fn test_claim_admin_wrong_caller() {
    let (mut router, admin, integrator_id) = setup();
    let new_admin = UniversalAddress::new(5, 5);
    let stranger = UniversalAddress::new(50, 50);

    router.transfer_admin(admin, integrator_id, new_admin).unwrap();

    // Neither a stranger nor the old admin can claim
    assert_eq!(router.claim_admin(stranger, integrator_id), Err(RouterError::CallerNotAuthorized));
    assert_eq!(router.claim_admin(admin, integrator_id), Err(RouterError::CallerNotAuthorized));
    assert_eq!(router.get_pending_admin(integrator_id), Some(new_admin));
}

#[test]
fn test_claim_admin_without_pending_transfer() {
    let (mut router, admin, integrator_id) = setup();
    let result = router.claim_admin(admin, integrator_id);
    assert_eq!(result, Err(RouterError::CallerNotAuthorized));
}

#[test]
fn test_mutating_calls_rejected_while_transfer_pending() {
    let (mut router, admin, integrator_id) = setup();
    let new_admin = UniversalAddress::new(5, 5);

    router.transfer_admin(admin, integrator_id, new_admin).unwrap();

    // Every admin-gated call is rejected while the transfer is pending
    let t = UniversalAddress::new(3, 3);
    assert_eq!(
        router.add_transceiver(admin, integrator_id, t),
        Err(RouterError::AdminTransferInProgress)
    );
    assert_eq!(
        router.update_admin(admin, integrator_id, admin),
        Err(RouterError::AdminTransferInProgress)
    );
    assert_eq!(
        router.transfer_admin(admin, integrator_id, admin),
        Err(RouterError::AdminTransferInProgress)
    );
    assert_eq!(
        router.discard_admin(admin, integrator_id),
        Err(RouterError::AdminTransferInProgress)
    );
    // And by the pending admin too, until it claims
    assert_eq!(
        router.add_transceiver(new_admin, integrator_id, t),
        Err(RouterError::AdminTransferInProgress)
    );
}

#[test]
fn test_discard_admin_is_terminal() {
    let (mut router, admin, integrator_id) = setup();

    router.discard_admin(admin, integrator_id).unwrap();
    assert_eq!(router.get_admin(integrator_id), None);
    assert_eq!(router.get_pending_admin(integrator_id), None);

    // Every subsequent admin-gated call fails, by anyone, the old admin included
    let t = UniversalAddress::new(3, 3);
    assert_eq!(
        router.add_transceiver(admin, integrator_id, t),
        Err(RouterError::CallerNotAuthorized)
    );
    assert_eq!(
        router.update_admin(admin, integrator_id, admin),
        Err(RouterError::CallerNotAuthorized)
    );
    assert_eq!(
        router.transfer_admin(admin, integrator_id, admin),
        Err(RouterError::CallerNotAuthorized)
    );
    assert_eq!(router.claim_admin(admin, integrator_id), Err(RouterError::CallerNotAuthorized));
    assert_eq!(router.discard_admin(admin, integrator_id), Err(RouterError::CallerNotAuthorized));
    assert_eq!(router.get_admin(integrator_id), None);
}

#[test]
fn test_admins_of_different_integrators_are_independent() {
    let owner = UniversalAddress::new(99, 99);
    let admin_a = UniversalAddress::new(1, 1);
    let admin_b = UniversalAddress::new(2, 2);
    let mut router = Router::new(owner);
    let id_a = router.register(UniversalAddress::new(10, 0), admin_a).unwrap();
    let id_b = router.register(UniversalAddress::new(11, 0), admin_b).unwrap();

    router.discard_admin(admin_a, id_a).unwrap();
    assert_eq!(router.get_admin(id_a), None);
    assert_eq!(router.get_admin(id_b), Some(admin_b));

    let t = UniversalAddress::new(3, 3);
    assert!(router.add_transceiver(admin_b, id_b, t).is_ok());
}
