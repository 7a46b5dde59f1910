use gmp_router::address::{Bytes32, UniversalAddress};
use gmp_router::bitmap::{quorum_satisfied, Bitmap};
use gmp_router::errors::RouterError;
use gmp_router::router::Router;

fn setup_sender() -> (Router, UniversalAddress, u64, UniversalAddress, u16) {
    let owner = UniversalAddress::new(99, 99);
    let admin = UniversalAddress::new(1, 1);
    let integrator_program = UniversalAddress::new(2, 2);
    let transceiver = UniversalAddress::new(3, 3);
    let dst_chain: u16 = 4;

    let mut router = Router::new(owner);
    let integrator_id = router.register(integrator_program, admin).unwrap();
    router.add_transceiver(admin, integrator_id, transceiver).unwrap();
    (router, admin, integrator_id, transceiver, dst_chain)
}

#[test]
fn test_send_without_enabled_adapter_rejected() {
    let (mut router, _admin, integrator_id, _transceiver, dst_chain) = setup_sender();

    let result = router.send_message(
        integrator_id,
        dst_chain,
        UniversalAddress::new(8, 8),
        Bytes32::new(1, 2),
        UniversalAddress::new(9, 9),
    );
    assert_eq!(result, Err(RouterError::AdapterNotEnabled));
    assert!(router.outbox.is_empty());
}

#[test]
fn test_send_twice_yields_consecutive_sequences() {
    let (mut router, admin, integrator_id, transceiver, dst_chain) = setup_sender();
    router.enable_send_transceiver(admin, integrator_id, dst_chain, transceiver).unwrap();

    let dst_addr = UniversalAddress::new(8, 8);
    let refund = UniversalAddress::new(9, 9);
    let first = router
        .send_message(integrator_id, dst_chain, dst_addr, Bytes32::new(1, 2), refund)
        .unwrap();
    let second = router
        .send_message(integrator_id, dst_chain, dst_addr, Bytes32::new(3, 4), refund)
        .unwrap();

    assert_eq!(first.sequence, 0);
    assert_eq!(second.sequence, 1);
    assert_eq!(router.outbox.len(), 2);
    assert_eq!(first.src_addr, UniversalAddress::new(2, 2));
    assert_eq!(first.dst_chain, dst_chain);
    assert_eq!(first.dst_addr, dst_addr);
    assert_eq!(first.refund_recipient, refund);
}

#[test]
fn test_send_snapshots_the_send_bitmap() {
    let (mut router, admin, integrator_id, transceiver, dst_chain) = setup_sender();
    router.enable_send_transceiver(admin, integrator_id, dst_chain, transceiver).unwrap();

    let msg = router
        .send_message(
            integrator_id,
            dst_chain,
            UniversalAddress::new(8, 8),
            Bytes32::new(1, 2),
            UniversalAddress::new(9, 9),
        )
        .unwrap();
    assert_eq!(msg.outstanding_adapters, Bitmap::from_value(1));

    // Disabling the adapter afterwards does not change the frozen record
    router.disable_send_transceiver(admin, integrator_id, dst_chain, transceiver).unwrap();
    assert_eq!(router.outbox[0].outstanding_adapters, Bitmap::from_value(1));

    // But a new send is rejected: the live bitmap is now empty
    let result = router.send_message(
        integrator_id,
        dst_chain,
        UniversalAddress::new(8, 8),
        Bytes32::new(5, 6),
        UniversalAddress::new(9, 9),
    );
    assert_eq!(result, Err(RouterError::AdapterNotEnabled));
}

#[test]
fn test_send_sequence_overflow() {
    let (mut router, admin, integrator_id, transceiver, dst_chain) = setup_sender();
    router.enable_send_transceiver(admin, integrator_id, dst_chain, transceiver).unwrap();

    // Forge an exhausted counter: the sequence space is too large to fill
    router.integrators[integrator_id as usize].next_sequence = u64::MAX;
    let result = router.send_message(
        integrator_id,
        dst_chain,
        UniversalAddress::new(8, 8),
        Bytes32::new(1, 2),
        UniversalAddress::new(9, 9),
    );
    assert_eq!(result, Err(RouterError::SequenceOverflow));
}

fn setup_receiver() -> (Router, UniversalAddress, u64, UniversalAddress, UniversalAddress, u16) {
    let owner = UniversalAddress::new(99, 99);
    let admin = UniversalAddress::new(1, 1);
    let integrator_program = UniversalAddress::new(2, 2);
    let adapter0 = UniversalAddress::new(3, 3);
    let adapter1 = UniversalAddress::new(4, 4);
    let src_chain: u16 = 6;

    let mut router = Router::new(owner);
    let integrator_id = router.register(integrator_program, admin).unwrap();
    router.add_transceiver(admin, integrator_id, adapter0).unwrap();
    router.add_transceiver(admin, integrator_id, adapter1).unwrap();
    router.enable_recv_transceiver(admin, integrator_id, src_chain, adapter0).unwrap();
    router.enable_recv_transceiver(admin, integrator_id, src_chain, adapter1).unwrap();
    (router, admin, integrator_id, adapter0, adapter1, src_chain)
}

fn src_addr() -> UniversalAddress {
    UniversalAddress::new(21, 22)
}

const DST_CHAIN: u16 = 1;

fn attest(
    router: &mut Router,
    adapter: UniversalAddress,
    integrator_id: u64,
    src_chain: u16,
) -> Result<(), RouterError> {
    router.attest_message(
        adapter,
        integrator_id,
        src_chain,
        src_addr(),
        0,
        DST_CHAIN,
        Bytes32::new(7, 8),
    )
}

fn attestation_bits(router: &Router, integrator_id: u64, src_chain: u16) -> u128 {
    router
        .get_attestation_info(
            integrator_id,
            src_chain,
            src_addr(),
            0,
            DST_CHAIN,
            Bytes32::new(7, 8),
        )
        .unwrap()
        .attested_adapters
        .as_value()
}

#[test]
fn test_attest_by_unknown_adapter_rejected() {
    let (mut router, _admin, integrator_id, _a0, _a1, src_chain) = setup_receiver();

    let stranger = UniversalAddress::new(77, 77);
    let result = attest(&mut router, stranger, integrator_id, src_chain);
    assert_eq!(result, Err(RouterError::UnknownAdapter));
}

#[test]
fn test_attest_by_disabled_adapter_rejected() {
    let (mut router, admin, integrator_id, adapter0, _a1, src_chain) = setup_receiver();

    // Disable the adapter: the check uses the live bitmap
    router.disable_recv_transceiver(admin, integrator_id, src_chain, adapter0).unwrap();
    let result = attest(&mut router, adapter0, integrator_id, src_chain);
    assert_eq!(result, Err(RouterError::AdapterNotEnabled));

    // An adapter enabled for another chain only is rejected as well
    let other_chain: u16 = 42;
    let result = attest(&mut router, adapter0, integrator_id, other_chain);
    assert_eq!(result, Err(RouterError::AdapterNotEnabled));
}

#[test]
fn test_two_adapters_attest_same_message() {
    let (mut router, _admin, integrator_id, adapter0, adapter1, src_chain) = setup_receiver();

    attest(&mut router, adapter0, integrator_id, src_chain).unwrap();
    assert_eq!(attestation_bits(&router, integrator_id, src_chain), 0b01);

    attest(&mut router, adapter1, integrator_id, src_chain).unwrap();
    // Both bits stand: the second attestation did not clear the first
    assert_eq!(attestation_bits(&router, integrator_id, src_chain), 0b11);
}

#[test]
fn test_duplicate_attestation_rejected() {
    let (mut router, _admin, integrator_id, adapter0, _a1, src_chain) = setup_receiver();

    attest(&mut router, adapter0, integrator_id, src_chain).unwrap();
    assert_eq!(attestation_bits(&router, integrator_id, src_chain), 0b01);

    let result = attest(&mut router, adapter0, integrator_id, src_chain);
    assert_eq!(result, Err(RouterError::DuplicateMessageAttestation));
    // The bitmap is unchanged by the rejected call
    assert_eq!(attestation_bits(&router, integrator_id, src_chain), 0b01);
}

#[test]
fn test_quorum_scenario() {
    let (mut router, admin, integrator_id, adapter0, adapter1, src_chain) = setup_receiver();

    // recv_bitmap is {0, 1}; only adapter 0 has attested: no quorum
    attest(&mut router, adapter0, integrator_id, src_chain).unwrap();
    let recv = router.get_chain_config(integrator_id, src_chain).unwrap().recv_transceiver_bitmap;
    assert_eq!(recv.as_value(), 0b11);
    let attested = Bitmap::from_value(attestation_bits(&router, integrator_id, src_chain));
    assert!(!quorum_satisfied(&recv, &attested));

    // After adapter 1 also attests, quorum is satisfied
    attest(&mut router, adapter1, integrator_id, src_chain).unwrap();
    let attested = Bitmap::from_value(attestation_bits(&router, integrator_id, src_chain));
    assert_eq!(attested.as_value(), 0b11);
    assert!(quorum_satisfied(&recv, &attested));

    // Disabling adapter 1 afterwards does not clear its attested bit
    router.disable_recv_transceiver(admin, integrator_id, src_chain, adapter1).unwrap();
    assert_eq!(attestation_bits(&router, integrator_id, src_chain), 0b11);
}

#[test]
fn test_recv_message_returns_bitmaps_and_consumes() {
    let (mut router, _admin, integrator_id, adapter0, _a1, src_chain) = setup_receiver();

    attest(&mut router, adapter0, integrator_id, src_chain).unwrap();

    let src_addr = src_addr();
    let (enabled, attested) = router
        .recv_message(integrator_id, src_chain, src_addr, 0, DST_CHAIN, Bytes32::new(7, 8))
        .unwrap();
    assert_eq!(enabled.as_value(), 0b11);
    assert_eq!(attested.as_value(), 0b01);

    // A record can be consumed only once
    let result =
        router.recv_message(integrator_id, src_chain, src_addr, 0, DST_CHAIN, Bytes32::new(7, 8));
    assert_eq!(result, Err(RouterError::AlreadyExecuted));
}

#[test]
fn test_exec_message_consumes_without_attestations() {
    let (mut router, _admin, integrator_id, _a0, _a1, src_chain) = setup_receiver();

    let src_addr = src_addr();
    router
        .exec_message(integrator_id, src_chain, src_addr, 5, DST_CHAIN, Bytes32::new(7, 8))
        .unwrap();

    let info = router
        .get_attestation_info(integrator_id, src_chain, src_addr, 5, DST_CHAIN, Bytes32::new(7, 8))
        .unwrap();
    assert!(info.executed);
    assert!(info.attested_adapters.is_empty());

    let result =
        router.exec_message(integrator_id, src_chain, src_addr, 5, DST_CHAIN, Bytes32::new(7, 8));
    assert_eq!(result, Err(RouterError::AlreadyExecuted));
}

#[test]
fn test_messages_with_different_keys_are_independent() {
    let (mut router, _admin, integrator_id, adapter0, _a1, src_chain) = setup_receiver();

    let src_addr = src_addr();
    // Attest to sequence 0, then to sequence 1: separate records
    router
        .attest_message(adapter0, integrator_id, src_chain, src_addr, 0, DST_CHAIN, Bytes32::new(7, 8))
        .unwrap();
    router
        .attest_message(adapter0, integrator_id, src_chain, src_addr, 1, DST_CHAIN, Bytes32::new(7, 8))
        .unwrap();

    let info0 = router
        .get_attestation_info(integrator_id, src_chain, src_addr, 0, DST_CHAIN, Bytes32::new(7, 8))
        .unwrap();
    let info1 = router
        .get_attestation_info(integrator_id, src_chain, src_addr, 1, DST_CHAIN, Bytes32::new(7, 8))
        .unwrap();
    assert_eq!(info0.attested_adapters.as_value(), 0b01);
    assert_eq!(info1.attested_adapters.as_value(), 0b01);
    assert_eq!(info0.message.sequence, 0);
    assert_eq!(info1.message.sequence, 1);
}
