use vstd::prelude::*;

use crate::address::{Bytes32, UniversalAddress};
use crate::admin::AdminState;
use crate::bitmap::{bit_set, with_bit, Bitmap};
use crate::chain_config::IntegratorChainConfig;
use crate::config::Config;
use crate::errors::RouterError;
use crate::integrator::{IntegratorConfig, RegisteredTransceiver, MAX_TRANSCEIVERS};
use crate::messages::{AttestationInfo, MessageKey, OutboxMessage};

verus! {

/// The whole router state: the global record, one entry per integrator, the
/// lazily created per-chain adapter configurations, the outbox of sent
/// messages, and the attestation records keyed by message.
///
/// Every operation either commits its whole effect or returns an error and
/// leaves the state exactly as it was.
pub struct Router {
    /// The global record.
    pub config: Config,
    /// Entry `i` is the integrator with id `i`.
    pub integrators: Vec<IntegratorConfig>,
    /// At most one record per `(integrator_id, chain_id)` pair.
    pub chain_configs: Vec<IntegratorChainConfig>,
    /// Every message ever sent, in send order.
    pub outbox: Vec<OutboxMessage>,
    /// At most one record per message key.
    pub attestations: Vec<AttestationInfo>,
}

/// What an operation leaves untouched, field by field.
pub open spec fn same_config(pre: Router, post: Router) -> bool {
    post.config == pre.config
}

pub open spec fn same_integrators(pre: Router, post: Router) -> bool {
    post.integrators@ == pre.integrators@
}

pub open spec fn same_chain_configs(pre: Router, post: Router) -> bool {
    post.chain_configs@ == pre.chain_configs@
}

pub open spec fn same_outbox(pre: Router, post: Router) -> bool {
    post.outbox@ == pre.outbox@
}

pub open spec fn same_attestations(pre: Router, post: Router) -> bool {
    post.attestations@ == pre.attestations@
}

/// Nothing observable changed: a failed operation leaves the state exactly
/// as it was.
pub open spec fn same_state(pre: Router, post: Router) -> bool {
    &&& same_config(pre, post)
    &&& same_integrators(pre, post)
    &&& same_chain_configs(pre, post)
    &&& same_outbox(pre, post)
    &&& same_attestations(pre, post)
}

/// The outcome of an enable or disable call on the bitmap whose pre-state is
/// `current`: the admin guard decides first, then the adapter lookup, then
/// the idempotence check — flipping a bit to the value it already has is an
/// error, not a silent no-op.
pub open spec fn set_transceiver_outcome(
    pre: Router,
    caller: UniversalAddress,
    integrator_id: u64,
    transceiver: UniversalAddress,
    current: u128,
    value: bool,
) -> Result<(), RouterError> {
    if pre.integrator_of(integrator_id).admin.guard(caller) is Err {
        pre.integrator_of(integrator_id).admin.guard(caller)
    } else if !pre.has_adapter(integrator_id, transceiver) {
        Err(RouterError::UnknownAdapter)
    } else if bit_set(current, pre.adapter_index_of(integrator_id, transceiver)) == value {
        if value {
            Err(RouterError::TransceiverAlreadyEnabled)
        } else {
            Err(RouterError::TransceiverAlreadyDisabled)
        }
    } else {
        Ok(())
    }
}

/// The outcome of an attestation: the adapter must be registered, currently
/// authorized to receive from the message's source chain (checked against
/// the live bitmap, never a snapshot), and not yet counted for this message.
pub open spec fn attest_outcome(
    pre: Router,
    adapter: UniversalAddress,
    integrator_id: u64,
    key: MessageKey,
) -> Result<(), RouterError> {
    if !pre.has_adapter(integrator_id, adapter) {
        Err(RouterError::UnknownAdapter)
    } else if !bit_set(
        pre.recv_bitmap(integrator_id, key.src_chain),
        pre.adapter_index_of(integrator_id, adapter),
    ) {
        Err(RouterError::AdapterNotEnabled)
    } else if bit_set(pre.attested_bits(key), pre.adapter_index_of(integrator_id, adapter)) {
        Err(RouterError::DuplicateMessageAttestation)
    } else {
        Ok(())
    }
}

impl Router {
    /// Entry `i` describes integrator `i`, well-formed, and the id counter
    /// agrees with the number of registered integrators.
    pub open spec fn integrators_wf(self) -> bool {
        &&& self.config.next_integrator_id as int == self.integrators@.len()
        &&& forall|i: int|
            0 <= i < self.integrators@.len() ==> (#[trigger] self.integrators@[i]).wf()
                && self.integrators@[i].integrator_id as int == i
    }

    /// No two chain-config records share a `(integrator_id, chain_id)` key.
    pub open spec fn chain_configs_unique(self) -> bool {
        forall|j: int, k: int|
            0 <= j < k < self.chain_configs@.len() ==> !((#[trigger] self.chain_configs@[j]).integrator_id
                == (#[trigger] self.chain_configs@[k]).integrator_id
                && self.chain_configs@[j].chain_id == self.chain_configs@[k].chain_id)
    }

    /// No two attestation records share a message key.
    pub open spec fn attestations_unique(self) -> bool {
        forall|j: int, k: int|
            0 <= j < k < self.attestations@.len() ==> (#[trigger] self.attestations@[j]).message
                != (#[trigger] self.attestations@[k]).message
    }

    /// Router well-formedness: every operation requires and preserves it.
    pub open spec fn wf(self) -> bool {
        &&& self.integrators_wf()
        &&& self.chain_configs_unique()
        &&& self.attestations_unique()
    }

    /// How many integrators have registered.
    pub open spec fn integrator_count(self) -> nat {
        self.integrators@.len()
    }

    /// Whether `integrator_id` has been assigned.
    pub open spec fn integrator_ok(self, integrator_id: u64) -> bool {
        integrator_id < self.integrators@.len()
    }

    /// The state of integrator `integrator_id`.
    pub open spec fn integrator_of(self, integrator_id: u64) -> IntegratorConfig {
        self.integrators@[integrator_id as int]
    }

    /// Whether position `j` holds the chain config of `(integrator_id, chain_id)`.
    pub open spec fn cc_matches(self, j: int, integrator_id: u64, chain_id: u16) -> bool {
        &&& 0 <= j < self.chain_configs@.len()
        &&& self.chain_configs@[j].integrator_id == integrator_id
        &&& self.chain_configs@[j].chain_id == chain_id
    }

    /// Whether a chain config exists for `(integrator_id, chain_id)`.
    pub open spec fn has_chain_config(self, integrator_id: u64, chain_id: u16) -> bool {
        exists|j: int| self.cc_matches(j, integrator_id, chain_id)
    }

    /// The position of the chain config of `(integrator_id, chain_id)`;
    /// meaningful when one exists, and unique under `chain_configs_unique`.
    pub open spec fn chain_config_index(self, integrator_id: u64, chain_id: u16) -> int {
        choose|j: int| self.cc_matches(j, integrator_id, chain_id)
    }

    /// The current receive bitmap of `(integrator_id, chain_id)`; all-zero
    /// while no record exists.
    pub open spec fn recv_bitmap(self, integrator_id: u64, chain_id: u16) -> u128 {
        if self.has_chain_config(integrator_id, chain_id) {
            self.chain_configs@[self.chain_config_index(integrator_id, chain_id)].recv_transceiver_bitmap.bits
        } else {
            0
        }
    }

    /// The current send bitmap of `(integrator_id, chain_id)`; all-zero
    /// while no record exists.
    pub open spec fn send_bitmap(self, integrator_id: u64, chain_id: u16) -> u128 {
        if self.has_chain_config(integrator_id, chain_id) {
            self.chain_configs@[self.chain_config_index(integrator_id, chain_id)].send_transceiver_bitmap.bits
        } else {
            0
        }
    }

    /// Whether position `j` holds the attestation record of `key`.
    pub open spec fn att_matches(self, j: int, key: MessageKey) -> bool {
        &&& 0 <= j < self.attestations@.len()
        &&& self.attestations@[j].message == key
    }

    /// Whether an attestation record exists for `key`.
    pub open spec fn has_attestation(self, key: MessageKey) -> bool {
        exists|j: int| self.att_matches(j, key)
    }

    /// The position of the attestation record of `key`; meaningful when one
    /// exists, and unique under `attestations_unique`.
    pub open spec fn attestation_index(self, key: MessageKey) -> int {
        choose|j: int| self.att_matches(j, key)
    }

    /// Which adapters have attested to `key`; all-zero while no record exists.
    pub open spec fn attested_bits(self, key: MessageKey) -> u128 {
        if self.has_attestation(key) {
            self.attestations@[self.attestation_index(key)].attested_adapters.bits
        } else {
            0
        }
    }

    /// Whether `key` has been consumed by a release call.
    pub open spec fn executed(self, key: MessageKey) -> bool {
        if self.has_attestation(key) {
            self.attestations@[self.attestation_index(key)].executed
        } else {
            false
        }
    }

    /// Whether `transceiver` is a registered adapter of `integrator_id`.
    pub open spec fn has_adapter(self, integrator_id: u64, transceiver: UniversalAddress) -> bool {
        self.integrator_of(integrator_id).has_transceiver(transceiver)
    }

    /// The bitmap index assigned to `transceiver` under `integrator_id`;
    /// meaningful when registered.
    pub open spec fn adapter_index_of(self, integrator_id: u64, transceiver: UniversalAddress) -> u8 {
        self.integrator_of(integrator_id).transceivers@[self.integrator_of(
            integrator_id,
        ).transceiver_index(transceiver)].index
    }

    /// The unique key of a message addressed to `integrator_id`: the
    /// destination address is the integrator's own identity.
    pub open spec fn message_key_for(
        self,
        integrator_id: u64,
        src_chain: u16,
        src_addr: UniversalAddress,
        sequence: u64,
        dst_chain: u16,
        payload_hash: Bytes32,
    ) -> MessageKey {
        MessageKey {
            src_chain,
            src_addr,
            sequence,
            dst_chain,
            dst_addr: self.integrator_of(integrator_id).identity,
            payload_hash,
        }
    }

    /// The receive bitmap when `recv` is true, the send bitmap otherwise.
    pub open spec fn dir_bitmap(self, recv: bool, integrator_id: u64, chain_id: u16) -> u128 {
        if recv {
            self.recv_bitmap(integrator_id, chain_id)
        } else {
            self.send_bitmap(integrator_id, chain_id)
        }
    }

    /// A position matching `(integrator_id, chain_id)` pins the chain-config
    /// index down: with unique keys there is only one.
    pub proof fn lemma_cc_index_is(self, integrator_id: u64, chain_id: u16, j: int)
        requires
            self.chain_configs_unique(),
            self.cc_matches(j, integrator_id, chain_id),
        ensures
            self.has_chain_config(integrator_id, chain_id),
            self.chain_config_index(integrator_id, chain_id) == j,
    {
        assert(self.has_chain_config(integrator_id, chain_id));
        let j2 = self.chain_config_index(integrator_id, chain_id);
        if j2 < j {
            assert(!(self.chain_configs@[j2].integrator_id == self.chain_configs@[j].integrator_id
                && self.chain_configs@[j2].chain_id == self.chain_configs@[j].chain_id));
        } else if j < j2 {
            assert(!(self.chain_configs@[j].integrator_id == self.chain_configs@[j2].integrator_id
                && self.chain_configs@[j].chain_id == self.chain_configs@[j2].chain_id));
        }
    }

    /// A position matching `key` pins the attestation index down.
    pub proof fn lemma_att_index_is(self, key: MessageKey, j: int)
        requires
            self.attestations_unique(),
            self.att_matches(j, key),
        ensures
            self.has_attestation(key),
            self.attestation_index(key) == j,
    {
        assert(self.has_attestation(key));
        let j2 = self.attestation_index(key);
        if j2 < j {
            assert(self.attestations@[j2].message != self.attestations@[j].message);
        } else if j < j2 {
            assert(self.attestations@[j].message != self.attestations@[j2].message);
        }
    }

    /// Replacing the chain config at one position without touching its key
    /// keeps the keys unique and leaves every other pair's view alone.
    proof fn lemma_cc_update_frame(pre: Router, post: Router, k: int)
        requires
            pre.chain_configs_unique(),
            0 <= k < pre.chain_configs@.len(),
            post.chain_configs@ == pre.chain_configs@.update(k, post.chain_configs@[k]),
            post.chain_configs@[k].integrator_id == pre.chain_configs@[k].integrator_id,
            post.chain_configs@[k].chain_id == pre.chain_configs@[k].chain_id,
        ensures
            post.chain_configs_unique(),
            post.has_chain_config(
                pre.chain_configs@[k].integrator_id,
                pre.chain_configs@[k].chain_id,
            ),
            post.chain_config_index(
                pre.chain_configs@[k].integrator_id,
                pre.chain_configs@[k].chain_id,
            ) == k,
            forall|i: u64, c: u16|
                !(i == pre.chain_configs@[k].integrator_id && c
                    == pre.chain_configs@[k].chain_id) ==> #[trigger] post.has_chain_config(i, c)
                    == pre.has_chain_config(i, c) && post.recv_bitmap(i, c) == pre.recv_bitmap(
                    i,
                    c,
                ) && post.send_bitmap(i, c) == pre.send_bitmap(i, c),
    {
        let kid = pre.chain_configs@[k].integrator_id;
        let kch = pre.chain_configs@[k].chain_id;
        assert(forall|j: int|
            0 <= j < post.chain_configs@.len() ==> (#[trigger] post.chain_configs@[j]).integrator_id
                == pre.chain_configs@[j].integrator_id && post.chain_configs@[j].chain_id
                == pre.chain_configs@[j].chain_id);
        assert(post.cc_matches(k, kid, kch));
        post.lemma_cc_index_is(kid, kch, k);
        assert forall|i: u64, c: u16|
            !(i == kid && c == kch) implies #[trigger] post.has_chain_config(i, c)
            == pre.has_chain_config(i, c) && post.recv_bitmap(i, c) == pre.recv_bitmap(i, c)
            && post.send_bitmap(i, c) == pre.send_bitmap(i, c) by {
            if pre.has_chain_config(i, c) {
                let j = pre.chain_config_index(i, c);
                assert(pre.cc_matches(j, i, c));
                assert(j != k);
                assert(post.cc_matches(j, i, c));
                pre.lemma_cc_index_is(i, c, j);
                post.lemma_cc_index_is(i, c, j);
                assert(post.chain_configs@[j] == pre.chain_configs@[j]);
            } else {
                if post.has_chain_config(i, c) {
                    let j = post.chain_config_index(i, c);
                    assert(post.cc_matches(j, i, c));
                    assert(pre.cc_matches(j, i, c));
                }
            }
        }
    }

    /// Appending a chain config under a key not seen before keeps the keys
    /// unique and leaves every other pair's view alone.
    proof fn lemma_cc_push_frame(pre: Router, post: Router, entry: IntegratorChainConfig)
        requires
            pre.chain_configs_unique(),
            post.chain_configs@ == pre.chain_configs@.push(entry),
            !pre.has_chain_config(entry.integrator_id, entry.chain_id),
        ensures
            post.chain_configs_unique(),
            post.has_chain_config(entry.integrator_id, entry.chain_id),
            post.chain_config_index(entry.integrator_id, entry.chain_id)
                == pre.chain_configs@.len(),
            forall|i: u64, c: u16|
                !(i == entry.integrator_id && c == entry.chain_id)
                    ==> #[trigger] post.has_chain_config(i, c) == pre.has_chain_config(i, c)
                    && post.recv_bitmap(i, c) == pre.recv_bitmap(i, c) && post.send_bitmap(i, c)
                    == pre.send_bitmap(i, c),
    {
        let n = pre.chain_configs@.len() as int;
        assert forall|j1: int, j2: int|
            0 <= j1 < j2 < post.chain_configs@.len() implies !((
        #[trigger] post.chain_configs@[j1]).integrator_id
            == (#[trigger] post.chain_configs@[j2]).integrator_id
            && post.chain_configs@[j1].chain_id == post.chain_configs@[j2].chain_id) by {
            if j2 == n {
                if post.chain_configs@[j1].integrator_id == entry.integrator_id
                    && post.chain_configs@[j1].chain_id == entry.chain_id {
                    assert(pre.cc_matches(j1, entry.integrator_id, entry.chain_id));
                }
            }
        }
        assert(post.cc_matches(n, entry.integrator_id, entry.chain_id));
        post.lemma_cc_index_is(entry.integrator_id, entry.chain_id, n);
        assert forall|i: u64, c: u16|
            !(i == entry.integrator_id && c == entry.chain_id) implies #[trigger] post.has_chain_config(
            i,
            c,
        ) == pre.has_chain_config(i, c) && post.recv_bitmap(i, c) == pre.recv_bitmap(i, c)
            && post.send_bitmap(i, c) == pre.send_bitmap(i, c) by {
            if pre.has_chain_config(i, c) {
                let j = pre.chain_config_index(i, c);
                assert(pre.cc_matches(j, i, c));
                assert(post.cc_matches(j, i, c));
                pre.lemma_cc_index_is(i, c, j);
                post.lemma_cc_index_is(i, c, j);
                assert(post.chain_configs@[j] == pre.chain_configs@[j]);
            } else {
                if post.has_chain_config(i, c) {
                    let j = post.chain_config_index(i, c);
                    assert(post.cc_matches(j, i, c));
                    assert(j != n);
                    assert(pre.cc_matches(j, i, c));
                }
            }
        }
    }

    /// Equal chain-config stores give equal chain-config views everywhere.
    pub proof fn lemma_same_chain_configs_views(pre: Router, post: Router)
        requires
            pre.chain_configs_unique(),
            same_chain_configs(pre, post),
        ensures
            forall|i: u64, c: u16| #[trigger]
                post.has_chain_config(i, c) == pre.has_chain_config(i, c) && post.recv_bitmap(
                    i,
                    c,
                ) == pre.recv_bitmap(i, c) && post.send_bitmap(i, c) == pre.send_bitmap(i, c),
    {
        assert forall|i: u64, c: u16| #[trigger]
            post.has_chain_config(i, c) == pre.has_chain_config(i, c) && post.recv_bitmap(i, c)
            == pre.recv_bitmap(i, c) && post.send_bitmap(i, c) == pre.send_bitmap(i, c) by {
            if pre.has_chain_config(i, c) {
                let j = pre.chain_config_index(i, c);
                assert(pre.cc_matches(j, i, c));
                assert(post.cc_matches(j, i, c));
                pre.lemma_cc_index_is(i, c, j);
                post.lemma_cc_index_is(i, c, j);
            } else {
                if post.has_chain_config(i, c) {
                    let j = post.chain_config_index(i, c);
                    assert(post.cc_matches(j, i, c));
                    assert(pre.cc_matches(j, i, c));
                }
            }
        }
    }

    /// Replacing the attestation record at one position without touching its
    /// key keeps the keys unique and leaves every other message's view alone.
    proof fn lemma_att_update_frame(pre: Router, post: Router, k: int)
        requires
            pre.attestations_unique(),
            0 <= k < pre.attestations@.len(),
            post.attestations@ == pre.attestations@.update(k, post.attestations@[k]),
            post.attestations@[k].message == pre.attestations@[k].message,
        ensures
            post.attestations_unique(),
            post.has_attestation(pre.attestations@[k].message),
            post.attestation_index(pre.attestations@[k].message) == k,
            forall|m: MessageKey|
                m != pre.attestations@[k].message ==> #[trigger] post.has_attestation(m)
                    == pre.has_attestation(m) && post.attested_bits(m) == pre.attested_bits(m)
                    && post.executed(m) == pre.executed(m),
    {
        let key = pre.attestations@[k].message;
        assert(forall|j: int|
            0 <= j < post.attestations@.len() ==> (#[trigger] post.attestations@[j]).message
                == pre.attestations@[j].message);
        assert(post.att_matches(k, key));
        post.lemma_att_index_is(key, k);
        assert forall|m: MessageKey| m != key implies #[trigger] post.has_attestation(m)
            == pre.has_attestation(m) && post.attested_bits(m) == pre.attested_bits(m)
            && post.executed(m) == pre.executed(m) by {
            if pre.has_attestation(m) {
                let j = pre.attestation_index(m);
                assert(pre.att_matches(j, m));
                assert(j != k);
                assert(post.att_matches(j, m));
                pre.lemma_att_index_is(m, j);
                post.lemma_att_index_is(m, j);
                assert(post.attestations@[j] == pre.attestations@[j]);
            } else {
                if post.has_attestation(m) {
                    let j = post.attestation_index(m);
                    assert(post.att_matches(j, m));
                    assert(pre.att_matches(j, m));
                }
            }
        }
    }

    /// Appending an attestation record under a key not seen before keeps the
    /// keys unique and leaves every other message's view alone.
    proof fn lemma_att_push_frame(pre: Router, post: Router, entry: AttestationInfo)
        requires
            pre.attestations_unique(),
            post.attestations@ == pre.attestations@.push(entry),
            !pre.has_attestation(entry.message),
        ensures
            post.attestations_unique(),
            post.has_attestation(entry.message),
            post.attestation_index(entry.message) == pre.attestations@.len(),
            forall|m: MessageKey|
                m != entry.message ==> #[trigger] post.has_attestation(m) == pre.has_attestation(
                    m,
                ) && post.attested_bits(m) == pre.attested_bits(m) && post.executed(m)
                    == pre.executed(m),
    {
        let n = pre.attestations@.len() as int;
        assert forall|j1: int, j2: int|
            0 <= j1 < j2 < post.attestations@.len() implies (#[trigger] post.attestations@[j1]).message
            != (#[trigger] post.attestations@[j2]).message by {
            if j2 == n {
                if post.attestations@[j1].message == entry.message {
                    assert(pre.att_matches(j1, entry.message));
                }
            }
        }
        assert(post.att_matches(n, entry.message));
        post.lemma_att_index_is(entry.message, n);
        assert forall|m: MessageKey| m != entry.message implies #[trigger] post.has_attestation(m)
            == pre.has_attestation(m) && post.attested_bits(m) == pre.attested_bits(m)
            && post.executed(m) == pre.executed(m) by {
            if pre.has_attestation(m) {
                let j = pre.attestation_index(m);
                assert(pre.att_matches(j, m));
                assert(post.att_matches(j, m));
                pre.lemma_att_index_is(m, j);
                post.lemma_att_index_is(m, j);
                assert(post.attestations@[j] == pre.attestations@[j]);
            } else {
                if post.has_attestation(m) {
                    let j = post.attestation_index(m);
                    assert(post.att_matches(j, m));
                    assert(j != n);
                    assert(pre.att_matches(j, m));
                }
            }
        }
    }

    /// Equal attestation stores give equal attestation views everywhere.
    pub proof fn lemma_same_attestations_views(pre: Router, post: Router)
        requires
            pre.attestations_unique(),
            same_attestations(pre, post),
        ensures
            forall|m: MessageKey| #[trigger]
                post.has_attestation(m) == pre.has_attestation(m) && post.attested_bits(m)
                    == pre.attested_bits(m) && post.executed(m) == pre.executed(m),
    {
        assert forall|m: MessageKey| #[trigger]
            post.has_attestation(m) == pre.has_attestation(m) && post.attested_bits(m)
            == pre.attested_bits(m) && post.executed(m) == pre.executed(m) by {
            if pre.has_attestation(m) {
                let j = pre.attestation_index(m);
                assert(pre.att_matches(j, m));
                assert(post.att_matches(j, m));
                pre.lemma_att_index_is(m, j);
                post.lemma_att_index_is(m, j);
            } else {
                if post.has_attestation(m) {
                    let j = post.attestation_index(m);
                    assert(post.att_matches(j, m));
                    assert(pre.att_matches(j, m));
                }
            }
        }
    }

    /// Finds the chain config of `(integrator_id, chain_id)`, if any.
    fn find_chain_config(&self, integrator_id: u64, chain_id: u16) -> (r: Option<usize>)
        requires
            self.chain_configs_unique(),
        ensures
            match r {
                Some(j) => self.cc_matches(j as int, integrator_id, chain_id) && j as int
                    == self.chain_config_index(integrator_id, chain_id),
                None => !self.has_chain_config(integrator_id, chain_id),
            },
    {
        let n = self.chain_configs.len();
        let mut j: usize = 0;
        while j < n
            invariant
                n == self.chain_configs@.len(),
                j <= n,
                self.chain_configs_unique(),
                forall|k: int|
                    0 <= k < j ==> !self.cc_matches(k, integrator_id, chain_id),
            decreases n - j,
        {
            if self.chain_configs[j].integrator_id == integrator_id
                && self.chain_configs[j].chain_id == chain_id {
                proof {
                    self.lemma_cc_index_is(integrator_id, chain_id, j as int);
                }
                return Some(j);
            }
            j += 1;
        }
        None
    }

    /// Finds the attestation record of `key`, if any.
    fn find_attestation(&self, key: &MessageKey) -> (r: Option<usize>)
        requires
            self.attestations_unique(),
        ensures
            match r {
                Some(j) => self.att_matches(j as int, *key) && j as int == self.attestation_index(
                    *key,
                ),
                None => !self.has_attestation(*key),
            },
    {
        let n = self.attestations.len();
        let mut j: usize = 0;
        while j < n
            invariant
                n == self.attestations@.len(),
                j <= n,
                self.attestations_unique(),
                forall|k: int| 0 <= k < j ==> !self.att_matches(k, *key),
            decreases n - j,
        {
            if self.attestations[j].message == *key {
                proof {
                    self.lemma_att_index_is(*key, j as int);
                }
                return Some(j);
            }
            j += 1;
        }
        None
    }

    /// The vector slot of a registered integrator id: the id fits `usize`
    /// because it is below the vector's length.
    fn integrator_slot(&self, integrator_id: u64) -> (idx: usize)
        requires
            self.integrator_ok(integrator_id),
        ensures
            idx as int == integrator_id as int,
            idx < self.integrators@.len(),
    {
        let n: usize = self.integrators.len();
        proof {
            assert(integrator_id < n);
        }
        integrator_id as usize
    }

    /// The current admin of an integrator, absent once discarded.
    pub fn get_admin(&self, integrator_id: u64) -> (r: Option<UniversalAddress>)
        requires
            self.wf(),
            self.integrator_ok(integrator_id),
        ensures
            r == self.integrator_of(integrator_id).admin.spec_admin(),
    {
        let slot = self.integrator_slot(integrator_id);
        self.integrators[slot].admin.admin()
    }

    /// The pending admin of an integrator, if a transfer is in progress.
    pub fn get_pending_admin(&self, integrator_id: u64) -> (r: Option<UniversalAddress>)
        requires
            self.wf(),
            self.integrator_ok(integrator_id),
        ensures
            r == self.integrator_of(integrator_id).admin.spec_pending_admin(),
    {
        let slot = self.integrator_slot(integrator_id);
        self.integrators[slot].admin.pending_admin()
    }

    /// The chain config of `(integrator_id, chain_id)`, if an enable call has
    /// created one.
    pub fn get_chain_config(&self, integrator_id: u64, chain_id: u16) -> (r: Option<
        IntegratorChainConfig,
    >)
        requires
            self.wf(),
        ensures
            r is Some <==> self.has_chain_config(integrator_id, chain_id),
            r matches Some(cc) ==> cc.integrator_id == integrator_id && cc.chain_id == chain_id
                && cc.recv_transceiver_bitmap.bits == self.recv_bitmap(integrator_id, chain_id)
                && cc.send_transceiver_bitmap.bits == self.send_bitmap(integrator_id, chain_id),
    {
        match self.find_chain_config(integrator_id, chain_id) {
            Some(k) => Some(self.chain_configs[k]),
            None => None,
        }
    }

    /// The attestation record of a message addressed to `integrator_id`, if
    /// any attestation or release call has created one.
    pub fn get_attestation_info(
        &self,
        integrator_id: u64,
        src_chain: u16,
        src_addr: UniversalAddress,
        sequence: u64,
        dst_chain: u16,
        payload_hash: Bytes32,
    ) -> (r: Option<AttestationInfo>)
        requires
            self.wf(),
            self.integrator_ok(integrator_id),
        ensures
            ({
                let key = self.message_key_for(
                    integrator_id,
                    src_chain,
                    src_addr,
                    sequence,
                    dst_chain,
                    payload_hash,
                );
                &&& (r is Some <==> self.has_attestation(key))
                &&& (r matches Some(info) ==> info.message == key && info.attested_adapters.bits
                    == self.attested_bits(key) && info.executed == self.executed(key))
            }),
    {
        let slot = self.integrator_slot(integrator_id);
        let key = MessageKey {
            src_chain,
            src_addr,
            sequence,
            dst_chain,
            dst_addr: self.integrators[slot].identity,
            payload_hash,
        };
        match self.find_attestation(&key) {
            Some(k) => Some(self.attestations[k]),
            None => None,
        }
    }

    /// Whether the message is deliverable right now: every adapter in the
    /// live receive bitmap for its source chain has attested. Adapters
    /// enabled after some attestations arrived block quorum until they
    /// attest too; adapters disabled after attesting no longer count among
    /// the required ones, but their recorded bits stand.
    pub fn is_quorum_satisfied(
        &self,
        integrator_id: u64,
        src_chain: u16,
        src_addr: UniversalAddress,
        sequence: u64,
        dst_chain: u16,
        payload_hash: Bytes32,
    ) -> (r: bool)
        requires
            self.wf(),
            self.integrator_ok(integrator_id),
        ensures
            r == crate::bitmap::spec_quorum(
                self.recv_bitmap(integrator_id, src_chain),
                self.attested_bits(
                    self.message_key_for(
                        integrator_id,
                        src_chain,
                        src_addr,
                        sequence,
                        dst_chain,
                        payload_hash,
                    ),
                ),
            ),
    {
        let slot = self.integrator_slot(integrator_id);
        let required: u128 = match self.find_chain_config(integrator_id, src_chain) {
            Some(k) => self.chain_configs[k].recv_transceiver_bitmap.as_value(),
            None => 0,
        };
        let key = MessageKey {
            src_chain,
            src_addr,
            sequence,
            dst_chain,
            dst_addr: self.integrators[slot].identity,
            payload_hash,
        };
        let attested: u128 = match self.find_attestation(&key) {
            Some(k) => self.attestations[k].attested_adapters.as_value(),
            None => 0,
        };
        attested & required == required
    }

    /// The state created once at deployment: an owner, nothing registered.
    pub fn new(owner: UniversalAddress) -> (r: Self)
        ensures
            r.wf(),
            r.config.owner == owner,
            !r.config.paused,
            r.config.next_integrator_id == 0,
            r.integrator_count() == 0,
            r.chain_configs@.len() == 0,
            r.outbox@.len() == 0,
            r.attestations@.len() == 0,
    {
        Router {
            config: Config::new(owner),
            integrators: Vec::new(),
            chain_configs: Vec::new(),
            outbox: Vec::new(),
            attestations: Vec::new(),
        }
    }

    /// Toggles the pause flag; only the deployment owner may.
    pub fn set_paused(&mut self, caller: UniversalAddress, paused: bool) -> (r: Result<
        (),
        RouterError,
    >)
        requires
            old(self).wf(),
        ensures
            final(self).wf(),
            r is Ok <==> caller == old(self).config.owner,
            r is Err ==> r == Err::<(), RouterError>(RouterError::CallerNotAuthorized)
                && same_state(*old(self), *final(self)),
            r is Ok ==> final(self).config.paused == paused && final(self).config.owner == old(self).config.owner && final(self).config.next_integrator_id == old(self).config.next_integrator_id,
            same_integrators(*old(self), *final(self)),
            same_chain_configs(*old(self), *final(self)),
            same_outbox(*old(self), *final(self)),
            same_attestations(*old(self), *final(self)),
    {
        if caller == self.config.owner {
            self.config.paused = paused;
            Ok(())
        } else {
            Err(RouterError::CallerNotAuthorized)
        }
    }

    /// Registers a new integrator under `identity` with `admin` in authority
    /// and returns its id: ids come out 0, 1, 2, ... and are never reused.
    /// An exhausted id counter is a fatal error, never a silent wrap.
    pub fn register(&mut self, identity: UniversalAddress, admin: UniversalAddress) -> (r: Result<
        u64,
        RouterError,
    >)
        requires
            old(self).wf(),
        ensures
            final(self).wf(),
            r is Ok <==> old(self).config.next_integrator_id < u64::MAX,
            r is Err ==> r == Err::<u64, RouterError>(RouterError::IntegratorIdOverflow)
                && same_state(*old(self), *final(self)),
            r matches Ok(id) ==> {
                &&& id as int == old(self).integrator_count()
                &&& id == old(self).config.next_integrator_id
                &&& final(self).config.next_integrator_id == id + 1
                &&& final(self).integrator_count() == old(self).integrator_count() + 1
                &&& forall|i: int|
                    0 <= i < old(self).integrators@.len() ==> final(self).integrators@[i] == old(self).integrators@[i]
                &&& final(self).integrator_of(id).integrator_id == id
                &&& final(self).integrator_of(id).identity == identity
                &&& final(self).integrator_of(id).admin == (AdminState::Active { admin })
                &&& final(self).integrator_of(id).transceivers@.len() == 0
                &&& final(self).integrator_of(id).next_sequence == 0
            },
            final(self).config.owner == old(self).config.owner,
            final(self).config.paused == old(self).config.paused,
            same_chain_configs(*old(self), *final(self)),
            same_outbox(*old(self), *final(self)),
            same_attestations(*old(self), *final(self)),
    {
        let id = self.config.next_integrator_id;
        if id == u64::MAX {
            return Err(RouterError::IntegratorIdOverflow);
        }
        let entry = IntegratorConfig::new(id, identity, admin);
        self.integrators.push(entry);
        self.config.next_integrator_id = id + 1;
        Ok(id)
    }

    /// Replaces the admin of `integrator_id` in one step; gated by the admin
    /// guard.
    pub fn update_admin(
        &mut self,
        caller: UniversalAddress,
        integrator_id: u64,
        new_admin: UniversalAddress,
    ) -> (r: Result<(), RouterError>)
        requires
            old(self).wf(),
            old(self).integrator_ok(integrator_id),
        ensures
            final(self).wf(),
            r == old(self).integrator_of(integrator_id).admin.guard(caller),
            r is Err ==> same_state(*old(self), *final(self)),
            r is Ok ==> final(self).integrator_of(integrator_id).admin == (AdminState::Active {
                admin: new_admin,
            }),
            crate::integrator::same_but_admin(
                old(self).integrator_of(integrator_id),
                final(self).integrator_of(integrator_id),
            ),
            final(self).integrator_count() == old(self).integrator_count(),
            forall|i: int|
                0 <= i < old(self).integrators@.len() && i != integrator_id as int ==> final(self).integrators@[i] == old(self).integrators@[i],
            same_config(*old(self), *final(self)),
            same_chain_configs(*old(self), *final(self)),
            same_outbox(*old(self), *final(self)),
            same_attestations(*old(self), *final(self)),
    {
        let idx = self.integrator_slot(integrator_id);
        let cfg = &mut self.integrators[idx];
        let r = cfg.update_admin(caller, new_admin);
        proof {
            if r is Err {
                assert(self.integrators@ =~= old(self).integrators@);
            }
        }
        r
    }

    /// Starts a two-phase admin handoff on `integrator_id`; gated by the
    /// admin guard.
    pub fn transfer_admin(
        &mut self,
        caller: UniversalAddress,
        integrator_id: u64,
        new_admin: UniversalAddress,
    ) -> (r: Result<(), RouterError>)
        requires
            old(self).wf(),
            old(self).integrator_ok(integrator_id),
        ensures
            final(self).wf(),
            r == old(self).integrator_of(integrator_id).admin.guard(caller),
            r is Err ==> same_state(*old(self), *final(self)),
            r is Ok ==> final(self).integrator_of(integrator_id).admin
                == (AdminState::TransferPending { admin: caller, pending_admin: new_admin }),
            crate::integrator::same_but_admin(
                old(self).integrator_of(integrator_id),
                final(self).integrator_of(integrator_id),
            ),
            final(self).integrator_count() == old(self).integrator_count(),
            forall|i: int|
                0 <= i < old(self).integrators@.len() && i != integrator_id as int ==> final(self).integrators@[i] == old(self).integrators@[i],
            same_config(*old(self), *final(self)),
            same_chain_configs(*old(self), *final(self)),
            same_outbox(*old(self), *final(self)),
            same_attestations(*old(self), *final(self)),
    {
        let idx = self.integrator_slot(integrator_id);
        let cfg = &mut self.integrators[idx];
        let r = cfg.transfer_admin(caller, new_admin);
        proof {
            if r is Err {
                assert(self.integrators@ =~= old(self).integrators@);
            }
        }
        r
    }

    /// Completes a pending handoff on `integrator_id`: only the pending
    /// admin may claim.
    pub fn claim_admin(&mut self, caller: UniversalAddress, integrator_id: u64) -> (r: Result<
        (),
        RouterError,
    >)
        requires
            old(self).wf(),
            old(self).integrator_ok(integrator_id),
        ensures
            final(self).wf(),
            r is Ok <==> (old(self).integrator_of(integrator_id).admin
                matches AdminState::TransferPending { pending_admin, .. } && pending_admin
                == caller),
            r is Err ==> r == Err::<(), RouterError>(RouterError::CallerNotAuthorized)
                && same_state(*old(self), *final(self)),
            r is Ok ==> final(self).integrator_of(integrator_id).admin == (AdminState::Active {
                admin: caller,
            }),
            crate::integrator::same_but_admin(
                old(self).integrator_of(integrator_id),
                final(self).integrator_of(integrator_id),
            ),
            final(self).integrator_count() == old(self).integrator_count(),
            forall|i: int|
                0 <= i < old(self).integrators@.len() && i != integrator_id as int ==> final(self).integrators@[i] == old(self).integrators@[i],
            same_config(*old(self), *final(self)),
            same_chain_configs(*old(self), *final(self)),
            same_outbox(*old(self), *final(self)),
            same_attestations(*old(self), *final(self)),
    {
        let idx = self.integrator_slot(integrator_id);
        let cfg = &mut self.integrators[idx];
        let r = cfg.claim_admin(caller);
        proof {
            if r is Err {
                assert(self.integrators@ =~= old(self).integrators@);
            }
        }
        r
    }

    /// Discards the admin of `integrator_id` for good; gated by the admin
    /// guard, and irreversible.
    pub fn discard_admin(&mut self, caller: UniversalAddress, integrator_id: u64) -> (r: Result<
        (),
        RouterError,
    >)
        requires
            old(self).wf(),
            old(self).integrator_ok(integrator_id),
        ensures
            final(self).wf(),
            r == old(self).integrator_of(integrator_id).admin.guard(caller),
            r is Err ==> same_state(*old(self), *final(self)),
            r is Ok ==> final(self).integrator_of(integrator_id).admin == AdminState::Immutable,
            crate::integrator::same_but_admin(
                old(self).integrator_of(integrator_id),
                final(self).integrator_of(integrator_id),
            ),
            final(self).integrator_count() == old(self).integrator_count(),
            forall|i: int|
                0 <= i < old(self).integrators@.len() && i != integrator_id as int ==> final(self).integrators@[i] == old(self).integrators@[i],
            same_config(*old(self), *final(self)),
            same_chain_configs(*old(self), *final(self)),
            same_outbox(*old(self), *final(self)),
            same_attestations(*old(self), *final(self)),
    {
        let idx = self.integrator_slot(integrator_id);
        let cfg = &mut self.integrators[idx];
        let r = cfg.discard_admin(caller);
        proof {
            if r is Err {
                assert(self.integrators@ =~= old(self).integrators@);
            }
        }
        r
    }

    /// Registers a new adapter for `integrator_id` and returns its index, the
    /// count of adapters already registered. Gated by the admin guard; then a
    /// duplicate identity and a full registry are rejected, in that order.
    pub fn add_transceiver(
        &mut self,
        caller: UniversalAddress,
        integrator_id: u64,
        transceiver: UniversalAddress,
    ) -> (r: Result<u8, RouterError>)
        requires
            old(self).wf(),
            old(self).integrator_ok(integrator_id),
        ensures
            final(self).wf(),
            old(self).integrator_of(integrator_id).admin.guard(caller) matches Err(e) ==> r
                == Err::<u8, RouterError>(e),
            old(self).integrator_of(integrator_id).admin.guard(caller) is Ok ==> {
                &&& r == Err::<u8, RouterError>(RouterError::AdapterAlreadyRegistered) <==> old(self).integrator_of(integrator_id).has_transceiver(transceiver)
                &&& r == Err::<u8, RouterError>(RouterError::TooManyAdapters) <==> !old(self).integrator_of(integrator_id).has_transceiver(transceiver) && old(self).integrator_of(integrator_id).transceivers@.len() >= MAX_TRANSCEIVERS
                &&& r is Ok <==> !old(self).integrator_of(integrator_id).has_transceiver(
                    transceiver,
                ) && old(self).integrator_of(integrator_id).transceivers@.len() < MAX_TRANSCEIVERS
            },
            r is Err ==> same_state(*old(self), *final(self)),
            r matches Ok(index) ==> {
                &&& index as int == old(self).integrator_of(integrator_id).transceivers@.len()
                &&& final(self).integrator_of(integrator_id).transceivers@ == old(self).integrator_of(integrator_id).transceivers@.push(
                    RegisteredTransceiver { integrator_id, index, address: transceiver },
                )
                &&& final(self).integrator_of(integrator_id).admin == old(self).integrator_of(
                    integrator_id,
                ).admin
                &&& final(self).integrator_of(integrator_id).identity == old(self).integrator_of(
                    integrator_id,
                ).identity
                &&& final(self).integrator_of(integrator_id).next_sequence == old(self).integrator_of(integrator_id).next_sequence
            },
            final(self).integrator_count() == old(self).integrator_count(),
            forall|i: int|
                0 <= i < old(self).integrators@.len() && i != integrator_id as int ==> final(self).integrators@[i] == old(self).integrators@[i],
            same_config(*old(self), *final(self)),
            same_chain_configs(*old(self), *final(self)),
            same_outbox(*old(self), *final(self)),
            same_attestations(*old(self), *final(self)),
    {
        let slot = self.integrator_slot(integrator_id);
        let guard = self.integrators[slot].admin.check(caller);
        if let Err(e) = guard {
            return Err(e);
        }
        let cfg = &mut self.integrators[slot];
        let r = cfg.add_transceiver(transceiver);
        proof {
            if r is Err {
                assert(self.integrators@ =~= old(self).integrators@);
            }
        }
        r
    }

    /// Shared body of the four enable/disable operations: the admin guard
    /// first, then the adapter lookup, then the bit flip. An enable creates
    /// the chain config lazily; a rejected call creates nothing.
    fn set_transceiver_bit(
        &mut self,
        caller: UniversalAddress,
        integrator_id: u64,
        chain_id: u16,
        transceiver: UniversalAddress,
        recv: bool,
        value: bool,
    ) -> (r: Result<(), RouterError>)
        requires
            old(self).wf(),
            old(self).integrator_ok(integrator_id),
        ensures
            final(self).wf(),
            r == set_transceiver_outcome(
                *old(self),
                caller,
                integrator_id,
                transceiver,
                old(self).dir_bitmap(recv, integrator_id, chain_id),
                value,
            ),
            r is Err ==> same_state(*old(self), *final(self)),
            r is Ok ==> {
                &&& final(self).dir_bitmap(recv, integrator_id, chain_id) == with_bit(
                    old(self).dir_bitmap(recv, integrator_id, chain_id),
                    old(self).adapter_index_of(integrator_id, transceiver),
                    value,
                )
                &&& final(self).dir_bitmap(!recv, integrator_id, chain_id) == old(self).dir_bitmap(
                    !recv,
                    integrator_id,
                    chain_id,
                )
                &&& final(self).has_chain_config(integrator_id, chain_id)
                &&& forall|i: u64, c: u16|
                    !(i == integrator_id && c == chain_id) ==> #[trigger] final(self).has_chain_config(i, c) == old(self).has_chain_config(i, c) && final(self).recv_bitmap(i, c) == old(self).recv_bitmap(i, c) && final(self).send_bitmap(
                        i,
                        c,
                    ) == old(self).send_bitmap(i, c)
                &&& same_config(*old(self), *final(self))
                &&& same_integrators(*old(self), *final(self))
                &&& same_outbox(*old(self), *final(self))
                &&& same_attestations(*old(self), *final(self))
            },
    {
        let slot = self.integrator_slot(integrator_id);
        let guard = self.integrators[slot].admin.check(caller);
        if let Err(e) = guard {
            return Err(e);
        }
        let index = match self.integrators[slot].find_transceiver(transceiver) {
            None => {
                return Err(RouterError::UnknownAdapter);
            },
            Some(ix) => ix,
        };
        match self.find_chain_config(integrator_id, chain_id) {
            Some(k) => {
                let got = if recv {
                    self.chain_configs[k].get_recv_transceiver(index)
                } else {
                    self.chain_configs[k].get_send_transceiver(index)
                };
                let already = match got {
                    Ok(b) => b,
                    Err(e) => {
                        return Err(e);
                    },
                };
                if already == value {
                    return Err(
                        if value {
                            RouterError::TransceiverAlreadyEnabled
                        } else {
                            RouterError::TransceiverAlreadyDisabled
                        },
                    );
                }
                let cc = &mut self.chain_configs[k];
                let res = if recv {
                    cc.set_recv_transceiver(index, value)
                } else {
                    cc.set_send_transceiver(index, value)
                };
                proof {
                    Router::lemma_cc_update_frame(*old(self), *self, k as int);
                }
                res
            },
            None => {
                proof {
                    assert(0u128 & (1u128 << index) == 0) by (bit_vector);
                }
                if !value {
                    return Err(RouterError::TransceiverAlreadyDisabled);
                }
                let mut entry = IntegratorChainConfig::new(integrator_id, chain_id);
                let res = if recv {
                    entry.set_recv_transceiver(index, true)
                } else {
                    entry.set_send_transceiver(index, true)
                };
                if let Err(e) = res {
                    return Err(e);
                }
                self.chain_configs.push(entry);
                proof {
                    Router::lemma_cc_push_frame(*old(self), *self, entry);
                }
                Ok(())
            },
        }
    }

    /// Authorizes a registered adapter to receive messages from `chain_id`
    /// for `integrator_id`. Gated by the admin guard; enabling an adapter
    /// whose bit is already set is an error, and the chain config is created
    /// lazily, all-zero, on the first enable for its pair.
    pub fn enable_recv_transceiver(
        &mut self,
        caller: UniversalAddress,
        integrator_id: u64,
        chain_id: u16,
        transceiver: UniversalAddress,
    ) -> (r: Result<(), RouterError>)
        requires
            old(self).wf(),
            old(self).integrator_ok(integrator_id),
        ensures
            final(self).wf(),
            r == set_transceiver_outcome(
                *old(self),
                caller,
                integrator_id,
                transceiver,
                old(self).recv_bitmap(integrator_id, chain_id),
                true,
            ),
            r is Err ==> same_state(*old(self), *final(self)),
            r is Ok ==> {
                &&& final(self).recv_bitmap(integrator_id, chain_id) == with_bit(
                    old(self).recv_bitmap(integrator_id, chain_id),
                    old(self).adapter_index_of(integrator_id, transceiver),
                    true,
                )
                &&& final(self).send_bitmap(integrator_id, chain_id) == old(self).send_bitmap(
                    integrator_id,
                    chain_id,
                )
                &&& final(self).has_chain_config(integrator_id, chain_id)
                &&& forall|i: u64, c: u16|
                    !(i == integrator_id && c == chain_id) ==> #[trigger] final(self).has_chain_config(i, c) == old(self).has_chain_config(i, c) && final(self).recv_bitmap(i, c) == old(self).recv_bitmap(i, c) && final(self).send_bitmap(
                        i,
                        c,
                    ) == old(self).send_bitmap(i, c)
                &&& same_config(*old(self), *final(self))
                &&& same_integrators(*old(self), *final(self))
                &&& same_outbox(*old(self), *final(self))
                &&& same_attestations(*old(self), *final(self))
            },
    {
        self.set_transceiver_bit(caller, integrator_id, chain_id, transceiver, true, true)
    }

    /// Authorizes a registered adapter to carry messages to `chain_id` for
    /// `integrator_id`; the send-side twin of `enable_recv_transceiver`.
    pub fn enable_send_transceiver(
        &mut self,
        caller: UniversalAddress,
        integrator_id: u64,
        chain_id: u16,
        transceiver: UniversalAddress,
    ) -> (r: Result<(), RouterError>)
        requires
            old(self).wf(),
            old(self).integrator_ok(integrator_id),
        ensures
            final(self).wf(),
            r == set_transceiver_outcome(
                *old(self),
                caller,
                integrator_id,
                transceiver,
                old(self).send_bitmap(integrator_id, chain_id),
                true,
            ),
            r is Err ==> same_state(*old(self), *final(self)),
            r is Ok ==> {
                &&& final(self).send_bitmap(integrator_id, chain_id) == with_bit(
                    old(self).send_bitmap(integrator_id, chain_id),
                    old(self).adapter_index_of(integrator_id, transceiver),
                    true,
                )
                &&& final(self).recv_bitmap(integrator_id, chain_id) == old(self).recv_bitmap(
                    integrator_id,
                    chain_id,
                )
                &&& final(self).has_chain_config(integrator_id, chain_id)
                &&& forall|i: u64, c: u16|
                    !(i == integrator_id && c == chain_id) ==> #[trigger] final(self).has_chain_config(i, c) == old(self).has_chain_config(i, c) && final(self).recv_bitmap(i, c) == old(self).recv_bitmap(i, c) && final(self).send_bitmap(
                        i,
                        c,
                    ) == old(self).send_bitmap(i, c)
                &&& same_config(*old(self), *final(self))
                &&& same_integrators(*old(self), *final(self))
                &&& same_outbox(*old(self), *final(self))
                &&& same_attestations(*old(self), *final(self))
            },
    {
        self.set_transceiver_bit(caller, integrator_id, chain_id, transceiver, false, true)
    }

    /// Withdraws a registered adapter's authority to receive from `chain_id`.
    /// Gated by the admin guard; disabling an adapter whose bit is already
    /// clear is an error, and no chain config is ever created by a disable.
    pub fn disable_recv_transceiver(
        &mut self,
        caller: UniversalAddress,
        integrator_id: u64,
        chain_id: u16,
        transceiver: UniversalAddress,
    ) -> (r: Result<(), RouterError>)
        requires
            old(self).wf(),
            old(self).integrator_ok(integrator_id),
        ensures
            final(self).wf(),
            r == set_transceiver_outcome(
                *old(self),
                caller,
                integrator_id,
                transceiver,
                old(self).recv_bitmap(integrator_id, chain_id),
                false,
            ),
            r is Err ==> same_state(*old(self), *final(self)),
            r is Ok ==> {
                &&& final(self).recv_bitmap(integrator_id, chain_id) == with_bit(
                    old(self).recv_bitmap(integrator_id, chain_id),
                    old(self).adapter_index_of(integrator_id, transceiver),
                    false,
                )
                &&& final(self).send_bitmap(integrator_id, chain_id) == old(self).send_bitmap(
                    integrator_id,
                    chain_id,
                )
                &&& final(self).has_chain_config(integrator_id, chain_id)
                &&& forall|i: u64, c: u16|
                    !(i == integrator_id && c == chain_id) ==> #[trigger] final(self).has_chain_config(i, c) == old(self).has_chain_config(i, c) && final(self).recv_bitmap(i, c) == old(self).recv_bitmap(i, c) && final(self).send_bitmap(
                        i,
                        c,
                    ) == old(self).send_bitmap(i, c)
                &&& same_config(*old(self), *final(self))
                &&& same_integrators(*old(self), *final(self))
                &&& same_outbox(*old(self), *final(self))
                &&& same_attestations(*old(self), *final(self))
            },
    {
        self.set_transceiver_bit(caller, integrator_id, chain_id, transceiver, true, false)
    }

    /// Withdraws a registered adapter's authority to carry messages to
    /// `chain_id`; the send-side twin of `disable_recv_transceiver`.
    pub fn disable_send_transceiver(
        &mut self,
        caller: UniversalAddress,
        integrator_id: u64,
        chain_id: u16,
        transceiver: UniversalAddress,
    ) -> (r: Result<(), RouterError>)
        requires
            old(self).wf(),
            old(self).integrator_ok(integrator_id),
        ensures
            final(self).wf(),
            r == set_transceiver_outcome(
                *old(self),
                caller,
                integrator_id,
                transceiver,
                old(self).send_bitmap(integrator_id, chain_id),
                false,
            ),
            r is Err ==> same_state(*old(self), *final(self)),
            r is Ok ==> {
                &&& final(self).send_bitmap(integrator_id, chain_id) == with_bit(
                    old(self).send_bitmap(integrator_id, chain_id),
                    old(self).adapter_index_of(integrator_id, transceiver),
                    false,
                )
                &&& final(self).recv_bitmap(integrator_id, chain_id) == old(self).recv_bitmap(
                    integrator_id,
                    chain_id,
                )
                &&& final(self).has_chain_config(integrator_id, chain_id)
                &&& forall|i: u64, c: u16|
                    !(i == integrator_id && c == chain_id) ==> #[trigger] final(self).has_chain_config(i, c) == old(self).has_chain_config(i, c) && final(self).recv_bitmap(i, c) == old(self).recv_bitmap(i, c) && final(self).send_bitmap(
                        i,
                        c,
                    ) == old(self).send_bitmap(i, c)
                &&& same_config(*old(self), *final(self))
                &&& same_integrators(*old(self), *final(self))
                &&& same_outbox(*old(self), *final(self))
                &&& same_attestations(*old(self), *final(self))
            },
    {
        self.set_transceiver_bit(caller, integrator_id, chain_id, transceiver, false, false)
    }

    /// Sends a message from `integrator_id` to `dst_chain`: rejected outright
    /// when no send adapter is enabled for that chain, otherwise it issues
    /// the integrator's next sequence number, snapshots the current send
    /// bitmap into the immutable outbox record, and returns the record.
    pub fn send_message(
        &mut self,
        integrator_id: u64,
        dst_chain: u16,
        dst_addr: UniversalAddress,
        payload_hash: Bytes32,
        refund_recipient: UniversalAddress,
    ) -> (r: Result<OutboxMessage, RouterError>)
        requires
            old(self).wf(),
            old(self).integrator_ok(integrator_id),
        ensures
            final(self).wf(),
            r == Err::<OutboxMessage, RouterError>(RouterError::AdapterNotEnabled) <==> old(self).send_bitmap(integrator_id, dst_chain) == 0,
            r == Err::<OutboxMessage, RouterError>(RouterError::SequenceOverflow) <==> old(self).send_bitmap(integrator_id, dst_chain) != 0 && old(self).integrator_of(
                integrator_id,
            ).next_sequence == u64::MAX,
            r is Ok <==> old(self).send_bitmap(integrator_id, dst_chain) != 0 && old(self).integrator_of(integrator_id).next_sequence < u64::MAX,
            r is Err ==> same_state(*old(self), *final(self)),
            r matches Ok(msg) ==> {
                &&& msg.src_addr == old(self).integrator_of(integrator_id).identity
                &&& msg.sequence == old(self).integrator_of(integrator_id).next_sequence
                &&& msg.dst_chain == dst_chain
                &&& msg.dst_addr == dst_addr
                &&& msg.payload_hash == payload_hash
                &&& msg.outstanding_adapters.bits == old(self).send_bitmap(
                    integrator_id,
                    dst_chain,
                )
                &&& msg.refund_recipient == refund_recipient
                &&& final(self).outbox@ == old(self).outbox@.push(msg)
                &&& final(self).integrator_of(integrator_id).next_sequence == old(self).integrator_of(integrator_id).next_sequence + 1
                &&& final(self).integrator_of(integrator_id).admin == old(self).integrator_of(
                    integrator_id,
                ).admin
                &&& final(self).integrator_of(integrator_id).identity == old(self).integrator_of(
                    integrator_id,
                ).identity
                &&& final(self).integrator_of(integrator_id).transceivers@ == old(self).integrator_of(integrator_id).transceivers@
                &&& final(self).integrator_count() == old(self).integrator_count()
                &&& forall|i: int|
                    0 <= i < old(self).integrators@.len() && i != integrator_id as int ==> final(self).integrators@[i] == old(self).integrators@[i]
                &&& same_config(*old(self), *final(self))
                &&& same_chain_configs(*old(self), *final(self))
                &&& same_attestations(*old(self), *final(self))
            },
    {
        let slot = self.integrator_slot(integrator_id);
        let send_bits: u128 = match self.find_chain_config(integrator_id, dst_chain) {
            Some(k) => self.chain_configs[k].send_transceiver_bitmap.as_value(),
            None => 0,
        };
        if send_bits == 0 {
            return Err(RouterError::AdapterNotEnabled);
        }
        let sequence = self.integrators[slot].next_sequence;
        if sequence == u64::MAX {
            return Err(RouterError::SequenceOverflow);
        }
        let msg = OutboxMessage {
            src_addr: self.integrators[slot].identity,
            sequence,
            dst_chain,
            dst_addr,
            payload_hash,
            outstanding_adapters: Bitmap::from_value(send_bits),
            refund_recipient,
        };
        let cfg = &mut self.integrators[slot];
        cfg.next_sequence = sequence + 1;
        self.outbox.push(msg);
        Ok(msg)
    }

    /// Records that `adapter` has observed the message: the first attestation
    /// for a key creates its record all-zero, every attestation sets the
    /// adapter's own bit, and a bit once set is never cleared. The receive
    /// authorization is checked against the live bitmap, so a disable takes
    /// effect for every attestation not yet submitted.
    pub fn attest_message(
        &mut self,
        adapter: UniversalAddress,
        integrator_id: u64,
        src_chain: u16,
        src_addr: UniversalAddress,
        sequence: u64,
        dst_chain: u16,
        payload_hash: Bytes32,
    ) -> (r: Result<(), RouterError>)
        requires
            old(self).wf(),
            old(self).integrator_ok(integrator_id),
        ensures
            final(self).wf(),
            r == attest_outcome(
                *old(self),
                adapter,
                integrator_id,
                old(self).message_key_for(
                    integrator_id,
                    src_chain,
                    src_addr,
                    sequence,
                    dst_chain,
                    payload_hash,
                ),
            ),
            r is Err ==> same_state(*old(self), *final(self)),
            r is Ok ==> {
                let key = old(self).message_key_for(
                    integrator_id,
                    src_chain,
                    src_addr,
                    sequence,
                    dst_chain,
                    payload_hash,
                );
                &&& final(self).has_attestation(key)
                &&& final(self).attested_bits(key) == with_bit(
                    old(self).attested_bits(key),
                    old(self).adapter_index_of(integrator_id, adapter),
                    true,
                )
                &&& final(self).executed(key) == old(self).executed(key)
                &&& forall|m: MessageKey|
                    m != key ==> #[trigger] final(self).has_attestation(m) == old(self).has_attestation(m) && final(self).attested_bits(m) == old(self).attested_bits(m) && final(self).executed(m) == old(self).executed(m)
                &&& same_config(*old(self), *final(self))
                &&& same_integrators(*old(self), *final(self))
                &&& same_chain_configs(*old(self), *final(self))
                &&& same_outbox(*old(self), *final(self))
            },
    {
        let slot = self.integrator_slot(integrator_id);
        let index = match self.integrators[slot].find_transceiver(adapter) {
            None => {
                return Err(RouterError::UnknownAdapter);
            },
            Some(ix) => ix,
        };
        let enabled = match self.find_chain_config(integrator_id, src_chain) {
            Some(k) => {
                match self.chain_configs[k].get_recv_transceiver(index) {
                    Ok(b) => b,
                    Err(e) => {
                        return Err(e);
                    },
                }
            },
            None => {
                proof {
                    assert(0u128 & (1u128 << index) == 0) by (bit_vector);
                }
                false
            },
        };
        if !enabled {
            return Err(RouterError::AdapterNotEnabled);
        }
        let key = MessageKey {
            src_chain,
            src_addr,
            sequence,
            dst_chain,
            dst_addr: self.integrators[slot].identity,
            payload_hash,
        };
        match self.find_attestation(&key) {
            Some(k) => {
                let already = match self.attestations[k].attested_adapters.get(index) {
                    Ok(b) => b,
                    Err(e) => {
                        return Err(e);
                    },
                };
                if already {
                    return Err(RouterError::DuplicateMessageAttestation);
                }
                let rec = &mut self.attestations[k];
                let res = rec.attested_adapters.set(index, true);
                proof {
                    Router::lemma_att_update_frame(*old(self), *self, k as int);
                }
                res
            },
            None => {
                proof {
                    assert(0u128 & (1u128 << index) == 0) by (bit_vector);
                }
                let mut rec = AttestationInfo::new(key);
                let res = rec.attested_adapters.set(index, true);
                if let Err(e) = res {
                    return Err(e);
                }
                self.attestations.push(rec);
                proof {
                    Router::lemma_att_push_frame(*old(self), *self, rec);
                }
                Ok(())
            },
        }
    }

    /// Releases the message to its integrator: consumes the attestation
    /// record — creating it first if no adapter attested yet — and returns a
    /// snapshot of the current receive bitmap for the source chain together
    /// with the attested set, for the integrator's own quorum decision. A
    /// record can be consumed only once.
    pub fn recv_message(
        &mut self,
        integrator_id: u64,
        src_chain: u16,
        src_addr: UniversalAddress,
        sequence: u64,
        dst_chain: u16,
        payload_hash: Bytes32,
    ) -> (r: Result<(Bitmap, Bitmap), RouterError>)
        requires
            old(self).wf(),
            old(self).integrator_ok(integrator_id),
        ensures
            final(self).wf(),
            r is Err <==> old(self).executed(
                old(self).message_key_for(
                    integrator_id,
                    src_chain,
                    src_addr,
                    sequence,
                    dst_chain,
                    payload_hash,
                ),
            ),
            r is Err ==> r == Err::<(Bitmap, Bitmap), RouterError>(RouterError::AlreadyExecuted)
                && same_state(*old(self), *final(self)),
            r matches Ok(bitmaps) ==> {
                let key = old(self).message_key_for(
                    integrator_id,
                    src_chain,
                    src_addr,
                    sequence,
                    dst_chain,
                    payload_hash,
                );
                &&& bitmaps.0.bits == old(self).recv_bitmap(integrator_id, src_chain)
                &&& bitmaps.1.bits == old(self).attested_bits(key)
                &&& final(self).has_attestation(key)
                &&& final(self).executed(key)
                &&& final(self).attested_bits(key) == old(self).attested_bits(key)
                &&& forall|m: MessageKey|
                    m != key ==> #[trigger] final(self).has_attestation(m) == old(self).has_attestation(m) && final(self).attested_bits(m) == old(self).attested_bits(m) && final(self).executed(m) == old(self).executed(m)
                &&& same_config(*old(self), *final(self))
                &&& same_integrators(*old(self), *final(self))
                &&& same_chain_configs(*old(self), *final(self))
                &&& same_outbox(*old(self), *final(self))
            },
    {
        let slot = self.integrator_slot(integrator_id);
        let enabled_bits: u128 = match self.find_chain_config(integrator_id, src_chain) {
            Some(k) => self.chain_configs[k].recv_transceiver_bitmap.as_value(),
            None => 0,
        };
        let key = MessageKey {
            src_chain,
            src_addr,
            sequence,
            dst_chain,
            dst_addr: self.integrators[slot].identity,
            payload_hash,
        };
        match self.find_attestation(&key) {
            Some(k) => {
                if self.attestations[k].executed {
                    return Err(RouterError::AlreadyExecuted);
                }
                let attested = self.attestations[k].attested_adapters;
                let rec = &mut self.attestations[k];
                rec.executed = true;
                proof {
                    Router::lemma_att_update_frame(*old(self), *self, k as int);
                }
                Ok((Bitmap::from_value(enabled_bits), attested))
            },
            None => {
                let mut rec = AttestationInfo::new(key);
                rec.executed = true;
                self.attestations.push(rec);
                proof {
                    Router::lemma_att_push_frame(*old(self), *self, rec);
                }
                Ok((Bitmap::from_value(enabled_bits), Bitmap::new()))
            },
        }
    }

    /// Consumes the attestation record of a message without reading the
    /// bitmaps — creating the record first if no adapter attested yet. A
    /// record can be consumed only once.
    pub fn exec_message(
        &mut self,
        integrator_id: u64,
        src_chain: u16,
        src_addr: UniversalAddress,
        sequence: u64,
        dst_chain: u16,
        payload_hash: Bytes32,
    ) -> (r: Result<(), RouterError>)
        requires
            old(self).wf(),
            old(self).integrator_ok(integrator_id),
        ensures
            final(self).wf(),
            r is Err <==> old(self).executed(
                old(self).message_key_for(
                    integrator_id,
                    src_chain,
                    src_addr,
                    sequence,
                    dst_chain,
                    payload_hash,
                ),
            ),
            r is Err ==> r == Err::<(), RouterError>(RouterError::AlreadyExecuted) && same_state(
                *old(self),
                *final(self),
            ),
            r is Ok ==> {
                let key = old(self).message_key_for(
                    integrator_id,
                    src_chain,
                    src_addr,
                    sequence,
                    dst_chain,
                    payload_hash,
                );
                &&& final(self).has_attestation(key)
                &&& final(self).executed(key)
                &&& final(self).attested_bits(key) == old(self).attested_bits(key)
                &&& forall|m: MessageKey|
                    m != key ==> #[trigger] final(self).has_attestation(m) == old(self).has_attestation(m) && final(self).attested_bits(m) == old(self).attested_bits(m) && final(self).executed(m) == old(self).executed(m)
                &&& same_config(*old(self), *final(self))
                &&& same_integrators(*old(self), *final(self))
                &&& same_chain_configs(*old(self), *final(self))
                &&& same_outbox(*old(self), *final(self))
            },
    {
        let slot = self.integrator_slot(integrator_id);
        let key = MessageKey {
            src_chain,
            src_addr,
            sequence,
            dst_chain,
            dst_addr: self.integrators[slot].identity,
            payload_hash,
        };
        match self.find_attestation(&key) {
            Some(k) => {
                if self.attestations[k].executed {
                    return Err(RouterError::AlreadyExecuted);
                }
                let rec = &mut self.attestations[k];
                rec.executed = true;
                proof {
                    Router::lemma_att_update_frame(*old(self), *self, k as int);
                }
                Ok(())
            },
            None => {
                let mut rec = AttestationInfo::new(key);
                rec.executed = true;
                self.attestations.push(rec);
                proof {
                    Router::lemma_att_push_frame(*old(self), *self, rec);
                }
                Ok(())
            },
        }
    }
}

} // verus!
