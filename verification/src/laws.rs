use vstd::prelude::*;

use crate::address::UniversalAddress;
use crate::bitmap::{
    bit_set, lemma_set_get_roundtrip, lemma_set_preserves_other_bits, with_bit,
};
use crate::errors::RouterError;
use crate::messages::{MessageKey, OutboxMessage};
use crate::router::{
    attest_outcome, same_integrators, same_state, set_transceiver_outcome, Router,
};

verus! {

/// A rejected operation commits nothing: from the untouched stores it
/// follows that every per-chain view and every per-message view reads as
/// before — in particular, a rejected enable has created no chain config,
/// and a rejected attestation has recorded no bit.
pub proof fn lemma_rejected_call_changes_no_view(pre: Router, post: Router)
    requires
        pre.wf(),
        same_state(pre, post),
    ensures
        forall|i: u64, c: u16| #[trigger]
            post.has_chain_config(i, c) == pre.has_chain_config(i, c) && post.recv_bitmap(i, c)
                == pre.recv_bitmap(i, c) && post.send_bitmap(i, c) == pre.send_bitmap(i, c),
        forall|m: MessageKey| #[trigger]
            post.has_attestation(m) == pre.has_attestation(m) && post.attested_bits(m)
                == pre.attested_bits(m) && post.executed(m) == pre.executed(m),
{
    Router::lemma_same_chain_configs_views(pre, post);
    Router::lemma_same_attestations_views(pre, post);
}

/// Integrator ids never repeat: every registered integrator carries its own
/// position as its id, so no two of them share one.
pub proof fn lemma_integrator_ids_unique(s: Router)
    requires
        s.wf(),
    ensures
        forall|i: int, j: int|
            0 <= i < j < s.integrator_count() ==> (#[trigger] s.integrators@[i]).integrator_id
                != (#[trigger] s.integrators@[j]).integrator_id,
{
}

/// Two successful registrations in a row hand out strictly increasing ids
/// with no gap: each `register` returns the current count and grows it by
/// one, so the ids come out 0, 1, 2, ...
pub proof fn lemma_register_ids_strictly_increase(
    s0: Router,
    s1: Router,
    id1: u64,
    id2: u64,
)
    requires
        id1 as int == s0.integrator_count(),
        s1.integrator_count() == s0.integrator_count() + 1,
        id2 as int == s1.integrator_count(),
    ensures
        id2 == id1 + 1,
        id2 > id1,
{
}

/// Enabling the same adapter a second time on the same chain is rejected: a
/// successful enable sets the adapter's bit, and the idempotence check then
/// refuses the repeat with `TransceiverAlreadyEnabled`.
pub proof fn lemma_enable_twice_rejected(
    pre: Router,
    post: Router,
    caller: UniversalAddress,
    integrator_id: u64,
    chain_id: u16,
    transceiver: UniversalAddress,
)
    requires
        pre.wf(),
        pre.integrator_ok(integrator_id),
        set_transceiver_outcome(
            pre,
            caller,
            integrator_id,
            transceiver,
            pre.recv_bitmap(integrator_id, chain_id),
            true,
        ) == Ok::<(), RouterError>(()),
        post.recv_bitmap(integrator_id, chain_id) == with_bit(
            pre.recv_bitmap(integrator_id, chain_id),
            pre.adapter_index_of(integrator_id, transceiver),
            true,
        ),
        same_integrators(pre, post),
    ensures
        set_transceiver_outcome(
            post,
            caller,
            integrator_id,
            transceiver,
            post.recv_bitmap(integrator_id, chain_id),
            true,
        ) == Err::<(), RouterError>(RouterError::TransceiverAlreadyEnabled),
{
    assert(post.integrators@[integrator_id as int] == pre.integrators@[integrator_id as int]);
    let cfg = pre.integrator_of(integrator_id);
    assert(cfg.wf());
    cfg.lemma_index_bound(transceiver);
    lemma_set_get_roundtrip(
        pre.recv_bitmap(integrator_id, chain_id),
        pre.adapter_index_of(integrator_id, transceiver),
        true,
    );
}

/// While an admin transfer is pending, every admin-gated configuration call
/// is rejected with `AdminTransferInProgress` — the old admin included. The
/// operations' own contracts add that a rejected call changes nothing, so in
/// particular no chain config is created by it.
pub proof fn lemma_pending_transfer_blocks(
    pre: Router,
    caller: UniversalAddress,
    integrator_id: u64,
    transceiver: UniversalAddress,
    current: u128,
    value: bool,
)
    requires
        pre.integrator_of(integrator_id).admin is TransferPending,
    ensures
        set_transceiver_outcome(pre, caller, integrator_id, transceiver, current, value)
            == Err::<(), RouterError>(RouterError::AdminTransferInProgress),
{
}

/// After the admin is discarded the configuration is immutable: every
/// admin-gated call, by anyone, is rejected as unauthorized, and the admin
/// reads as absent.
pub proof fn lemma_immutable_rejects_everyone(
    pre: Router,
    caller: UniversalAddress,
    integrator_id: u64,
    transceiver: UniversalAddress,
    current: u128,
    value: bool,
)
    requires
        pre.integrator_of(integrator_id).admin is Immutable,
    ensures
        set_transceiver_outcome(pre, caller, integrator_id, transceiver, current, value)
            == Err::<(), RouterError>(RouterError::CallerNotAuthorized),
        pre.integrator_of(integrator_id).admin.spec_admin() is None,
{
}

/// Two successful sends in a row from one integrator carry consecutive
/// sequence numbers: no gap and no reuse, whatever the destination chains.
pub proof fn lemma_send_sequences_gapless(
    s0: Router,
    s1: Router,
    integrator_id: u64,
    m1: OutboxMessage,
    m2: OutboxMessage,
)
    requires
        m1.sequence == s0.integrator_of(integrator_id).next_sequence,
        s1.integrator_of(integrator_id).next_sequence == m1.sequence + 1,
        m2.sequence == s1.integrator_of(integrator_id).next_sequence,
    ensures
        m2.sequence == m1.sequence + 1,
{
}

/// Two distinct adapters attesting to the same message each set their own
/// bit and never touch the other's.
pub proof fn lemma_distinct_attestations_compose(
    pre: Router,
    post: Router,
    integrator_id: u64,
    first: UniversalAddress,
    second: UniversalAddress,
    key: MessageKey,
)
    requires
        pre.wf(),
        pre.integrator_ok(integrator_id),
        pre.has_adapter(integrator_id, first),
        pre.has_adapter(integrator_id, second),
        first != second,
        post.attested_bits(key) == with_bit(
            pre.attested_bits(key),
            pre.adapter_index_of(integrator_id, first),
            true,
        ),
        same_integrators(pre, post),
    ensures
        bit_set(post.attested_bits(key), pre.adapter_index_of(integrator_id, first)),
        bit_set(post.attested_bits(key), pre.adapter_index_of(integrator_id, second)) == bit_set(
            pre.attested_bits(key),
            pre.adapter_index_of(integrator_id, second),
        ),
{
    let cfg = pre.integrator_of(integrator_id);
    assert(cfg.wf());
    cfg.lemma_index_bound(first);
    cfg.lemma_index_bound(second);
    cfg.lemma_index_injective(first, second);
    lemma_set_get_roundtrip(
        pre.attested_bits(key),
        pre.adapter_index_of(integrator_id, first),
        true,
    );
    lemma_set_preserves_other_bits(
        pre.attested_bits(key),
        pre.adapter_index_of(integrator_id, first),
        true,
        pre.adapter_index_of(integrator_id, second),
    );
}

/// The same adapter attesting twice to the same message is rejected the
/// second time: after its successful attestation its bit is set, and the
/// duplicate check then refuses it. The operation's own contract adds that
/// the rejected call leaves the bitmap unchanged.
pub proof fn lemma_duplicate_attestation_rejected(
    pre: Router,
    post: Router,
    adapter: UniversalAddress,
    integrator_id: u64,
    key: MessageKey,
)
    requires
        pre.wf(),
        pre.integrator_ok(integrator_id),
        attest_outcome(pre, adapter, integrator_id, key) == Ok::<(), RouterError>(()),
        post.attested_bits(key) == with_bit(
            pre.attested_bits(key),
            pre.adapter_index_of(integrator_id, adapter),
            true,
        ),
        post.recv_bitmap(integrator_id, key.src_chain) == pre.recv_bitmap(
            integrator_id,
            key.src_chain,
        ),
        same_integrators(pre, post),
    ensures
        attest_outcome(post, adapter, integrator_id, key) == Err::<(), RouterError>(
            RouterError::DuplicateMessageAttestation,
        ),
{
    assert(post.integrators@[integrator_id as int] == pre.integrators@[integrator_id as int]);
    let cfg = pre.integrator_of(integrator_id);
    assert(cfg.wf());
    cfg.lemma_index_bound(adapter);
    lemma_set_get_roundtrip(
        pre.attested_bits(key),
        pre.adapter_index_of(integrator_id, adapter),
        true,
    );
}

/// Attestation is monotone: a bit once set stays set through any further
/// attestation for the same message.
pub proof fn lemma_attestation_monotone(bits: u128, index: u8, other: u8)
    requires
        index < 128,
        other < 128,
        bit_set(bits, other),
    ensures
        bit_set(with_bit(bits, index, true), other),
{
    if index == other {
        lemma_set_get_roundtrip(bits, index, true);
    } else {
        lemma_set_preserves_other_bits(bits, index, true, other);
    }
}

} // verus!
