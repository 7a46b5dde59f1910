use gmp_router::address::UniversalAddress;
use gmp_router::bitmap::Bitmap;
use gmp_router::errors::RouterError;
use gmp_router::router::Router;

fn initialize_test_environment() -> (Router, UniversalAddress, u64, UniversalAddress, u16) {
    let owner = UniversalAddress::new(99, 99);
    let admin = UniversalAddress::new(1, 1);
    let integrator_program = UniversalAddress::new(2, 2);
    let transceiver = UniversalAddress::new(3, 3);
    let chain_id: u16 = 1;

    let mut router = Router::new(owner);
    let integrator_id = router.register(integrator_program, admin).unwrap();
    router.add_transceiver(admin, integrator_id, transceiver).unwrap();

    (router, admin, integrator_id, transceiver, chain_id)
}

fn verify_transceiver_state(
    router: &Router,
    integrator_id: u64,
    chain_id: u16,
    expected_recv_bitmap: u128,
    expected_send_bitmap: u128,
) {
    let chain_config = router.get_chain_config(integrator_id, chain_id).unwrap();
    assert_eq!(chain_config.recv_transceiver_bitmap, Bitmap::from_value(expected_recv_bitmap));
    assert_eq!(chain_config.send_transceiver_bitmap, Bitmap::from_value(expected_send_bitmap));
    assert_eq!(chain_config.chain_id, chain_id);
    assert_eq!(chain_config.integrator_id, integrator_id);
}

#[test]
fn test_enable_in_transceivers_success() {
    let (mut router, admin, integrator_id, transceiver, chain_id) = initialize_test_environment();

    let result = router.enable_recv_transceiver(admin, integrator_id, chain_id, transceiver);
    assert!(result.is_ok());

    verify_transceiver_state(&router, integrator_id, chain_id, 1, 0);
}

#[test]
fn test_enable_in_transceivers_multiple_sets_success() {
    let (mut router, admin, integrator_id, transceiver, chain_id) = initialize_test_environment();

    let result = router.enable_recv_transceiver(admin, integrator_id, chain_id, transceiver);
    assert!(result.is_ok());

    // Register a second transceiver
    let transceiver2 = UniversalAddress::new(4, 4);
    router.add_transceiver(admin, integrator_id, transceiver2).unwrap();

    let result = router.enable_recv_transceiver(admin, integrator_id, chain_id, transceiver2);
    assert!(result.is_ok());

    // Verify that both transceivers are set
    verify_transceiver_state(&router, integrator_id, chain_id, 3, 0);
}

#[test]
fn test_enable_out_transceivers_success() {
    let (mut router, admin, integrator_id, transceiver, chain_id) = initialize_test_environment();

    let result = router.enable_send_transceiver(admin, integrator_id, chain_id, transceiver);
    assert!(result.is_ok());

    verify_transceiver_state(&router, integrator_id, chain_id, 0, 1);
}

#[test]
fn test_enable_transceiver_invalid_admin() {
    let (mut router, _admin, integrator_id, transceiver, chain_id) = initialize_test_environment();

    let invalid_admin = UniversalAddress::new(50, 50);
    let result = router.enable_recv_transceiver(invalid_admin, integrator_id, chain_id, transceiver);

    assert_eq!(result, Err(RouterError::CallerNotAuthorized));
}

#[test]
fn test_enable_transceiver_invalid_transceiver_id() {
    let (mut router, admin, integrator_id, _transceiver, chain_id) = initialize_test_environment();

    // A transceiver identity that was never registered for this integrator
    let invalid_transceiver = UniversalAddress::new(60, 60);
    let result =
        router.enable_recv_transceiver(admin, integrator_id, chain_id, invalid_transceiver);

    assert_eq!(result, Err(RouterError::UnknownAdapter));
}

#[test]
fn test_enable_already_enabled_transceiver() {
    let (mut router, admin, integrator_id, transceiver, chain_id) = initialize_test_environment();

    // First attempt: should succeed
    let result = router.enable_recv_transceiver(admin, integrator_id, chain_id, transceiver);
    assert!(result.is_ok());

    verify_transceiver_state(&router, integrator_id, chain_id, 1, 0);

    // Second attempt: should fail with TransceiverAlreadyEnabled
    let result = router.enable_recv_transceiver(admin, integrator_id, chain_id, transceiver);
    assert!(result.is_err());
    assert_eq!(result, Err(RouterError::TransceiverAlreadyEnabled));

    // Verify that the state hasn't changed
    verify_transceiver_state(&router, integrator_id, chain_id, 1, 0);
}

#[test]
fn test_enable_transceiver_with_transfer_in_progress() {
    let (mut router, admin, integrator_id, transceiver, chain_id) = initialize_test_environment();

    let pending_admin = UniversalAddress::new(70, 70);
    router.transfer_admin(admin, integrator_id, pending_admin).unwrap();

    // Now try to enable the receive transceiver
    let result = router.enable_recv_transceiver(admin, integrator_id, chain_id, transceiver);
    assert!(result.is_err());
    assert_eq!(result, Err(RouterError::AdminTransferInProgress));

    // Verify that no chain config was created by the rejected call
    assert!(router.get_chain_config(integrator_id, chain_id).is_none());

    // Try to enable the send transceiver
    let result = router.enable_send_transceiver(admin, integrator_id, chain_id, transceiver);
    assert!(result.is_err());
    assert_eq!(result, Err(RouterError::AdminTransferInProgress));

    // Verify that the chain config still does not exist
    assert!(router.get_chain_config(integrator_id, chain_id).is_none());
}

#[test]
fn test_enable_transceiver_with_immutable_config() {
    let (mut router, admin, integrator_id, transceiver, chain_id) = initialize_test_environment();

    // Discard the admin to make the config immutable
    router.discard_admin(admin, integrator_id).unwrap();

    // Now try to enable the receive transceiver
    let result = router.enable_recv_transceiver(admin, integrator_id, chain_id, transceiver);
    assert!(result.is_err());
    assert_eq!(result, Err(RouterError::CallerNotAuthorized));

    // Verify that the integrator config is immutable
    assert_eq!(router.get_admin(integrator_id), None);
}

#[test]
fn test_disable_clear_bit_rejected() {
    let (mut router, admin, integrator_id, transceiver, chain_id) = initialize_test_environment();

    // Disabling before any enable: the bit is clear, and no config exists yet
    let result = router.disable_recv_transceiver(admin, integrator_id, chain_id, transceiver);
    assert_eq!(result, Err(RouterError::TransceiverAlreadyDisabled));
    assert!(router.get_chain_config(integrator_id, chain_id).is_none());

    // Enable, disable, then disable again
    router.enable_recv_transceiver(admin, integrator_id, chain_id, transceiver).unwrap();
    router.disable_recv_transceiver(admin, integrator_id, chain_id, transceiver).unwrap();
    verify_transceiver_state(&router, integrator_id, chain_id, 0, 0);
    let result = router.disable_recv_transceiver(admin, integrator_id, chain_id, transceiver);
    assert_eq!(result, Err(RouterError::TransceiverAlreadyDisabled));

    // The send side behaves the same way
    router.enable_send_transceiver(admin, integrator_id, chain_id, transceiver).unwrap();
    router.disable_send_transceiver(admin, integrator_id, chain_id, transceiver).unwrap();
    let result = router.disable_send_transceiver(admin, integrator_id, chain_id, transceiver);
    assert_eq!(result, Err(RouterError::TransceiverAlreadyDisabled));
}

#[test]
fn test_add_transceiver_assigns_sequential_indices() {
    let (mut router, admin, integrator_id, _transceiver, _chain_id) = initialize_test_environment();

    // The environment already registered index 0
    let index1 = router
        .add_transceiver(admin, integrator_id, UniversalAddress::new(4, 4))
        .unwrap();
    let index2 = router
        .add_transceiver(admin, integrator_id, UniversalAddress::new(5, 5))
        .unwrap();
    assert_eq!(index1, 1);
    assert_eq!(index2, 2);
}

#[test]
fn test_add_transceiver_duplicate_rejected() {
    let (mut router, admin, integrator_id, transceiver, _chain_id) = initialize_test_environment();

    let result = router.add_transceiver(admin, integrator_id, transceiver);
    assert_eq!(result, Err(RouterError::AdapterAlreadyRegistered));
}

#[test]
fn test_add_transceiver_ceiling() {
    let owner = UniversalAddress::new(99, 99);
    let admin = UniversalAddress::new(1, 1);
    let mut router = Router::new(owner);
    let integrator_id = router.register(UniversalAddress::new(2, 2), admin).unwrap();

    for i in 0..128u128 {
        let index = router
            .add_transceiver(admin, integrator_id, UniversalAddress::new(1000, i))
            .unwrap();
        assert_eq!(index as u128, i);
    }
    let result = router.add_transceiver(admin, integrator_id, UniversalAddress::new(1000, 128));
    assert_eq!(result, Err(RouterError::TooManyAdapters));
}
