use vstd::prelude::*;

use crate::address::UniversalAddress;
use crate::admin::AdminState;
use crate::errors::RouterError;

verus! {

/// The largest number of adapters one integrator can register, matching the
/// width of the enablement and attestation bitmaps.
pub const MAX_TRANSCEIVERS: usize = 128;

/// One registered adapter: its identity and the small stable index assigned
/// at registration. Immutable once created.
#[derive(Clone, Copy, Debug, PartialEq, Eq, Structural)]
pub struct RegisteredTransceiver {
    /// The integrator this adapter was registered under.
    pub integrator_id: u64,
    /// The index assigned at registration, 0-based and sequential; this is
    /// the adapter's bit position in every bitmap of its integrator.
    pub index: u8,
    /// The adapter's program or service identity.
    pub address: UniversalAddress,
}

/// Everything the router keeps per integrator: the admin-handoff state, the
/// adapter registry, and the outbound sequence counter.
#[derive(Debug)]
pub struct IntegratorConfig {
    /// The id assigned at registration, immutable; equal to this record's
    /// position in the router's integrator list.
    pub integrator_id: u64,
    /// The integrator program's own identity, used as the source address of
    /// every message it sends.
    pub identity: UniversalAddress,
    /// The admin-handoff state gating every mutating configuration call.
    pub admin: AdminState,
    /// The adapter registry: entry `j` holds the adapter with index `j`.
    pub transceivers: Vec<RegisteredTransceiver>,
    /// The sequence number the next outbound message will carry.
    pub next_sequence: u64,
}

/// What an admin transition leaves untouched: everything but the admin state.
pub open spec fn same_but_admin(pre: IntegratorConfig, post: IntegratorConfig) -> bool {
    &&& post.integrator_id == pre.integrator_id
    &&& post.identity == pre.identity
    &&& post.transceivers@ == pre.transceivers@
    &&& post.next_sequence == pre.next_sequence
}

impl IntegratorConfig {
    /// Registry well-formedness: at most 128 adapters, entry `j` carries
    /// index `j` and this integrator's id, and no identity appears twice.
    pub open spec fn wf(self) -> bool {
        &&& self.transceivers@.len() <= MAX_TRANSCEIVERS
        &&& forall|j: int|
            0 <= j < self.transceivers@.len() ==> {
                &&& (#[trigger] self.transceivers@[j]).integrator_id == self.integrator_id
                &&& self.transceivers@[j].index as int == j
            }
        &&& forall|j: int, k: int|
            0 <= j < k < self.transceivers@.len()
                ==> (#[trigger] self.transceivers@[j]).address
                    != (#[trigger] self.transceivers@[k]).address
    }

    /// Whether `address` is a registered adapter of this integrator.
    pub open spec fn has_transceiver(self, address: UniversalAddress) -> bool {
        exists|j: int|
            0 <= j < self.transceivers@.len()
                && (#[trigger] self.transceivers@[j]).address == address
    }

    /// The registry position of `address`; meaningful when registered, and
    /// with `wf` it is the one position holding `address`.
    pub open spec fn transceiver_index(self, address: UniversalAddress) -> int {
        choose|j: int|
            0 <= j < self.transceivers@.len()
                && (#[trigger] self.transceivers@[j]).address == address
    }

    /// A fresh configuration as registration creates it: the chosen admin in
    /// authority, no adapters, sequence counter at zero.
    pub fn new(integrator_id: u64, identity: UniversalAddress, admin: UniversalAddress) -> (r:
        Self)
        ensures
            r.integrator_id == integrator_id,
            r.identity == identity,
            r.admin == (AdminState::Active { admin }),
            r.transceivers@.len() == 0,
            r.next_sequence == 0,
            r.wf(),
    {
        IntegratorConfig {
            integrator_id,
            identity,
            admin: AdminState::Active { admin },
            transceivers: Vec::new(),
            next_sequence: 0,
        }
    }

    /// A position holding `address` pins down `transceiver_index`: with
    /// distinct addresses there can be only one.
    pub proof fn lemma_transceiver_index_is(self, address: UniversalAddress, j: int)
        requires
            self.wf(),
            0 <= j < self.transceivers@.len(),
            self.transceivers@[j].address == address,
        ensures
            self.has_transceiver(address),
            self.transceiver_index(address) == j,
    {
        assert(self.has_transceiver(address));
        let j2 = self.transceiver_index(address);
        if j2 != j {
            if j2 < j {
                assert(self.transceivers@[j2].address != self.transceivers@[j].address);
            } else {
                assert(self.transceivers@[j].address != self.transceivers@[j2].address);
            }
        }
    }

    /// A registered adapter's index is its registry position, so it is always
    /// below 128 and in particular a valid bitmap index.
    pub proof fn lemma_index_bound(self, address: UniversalAddress)
        requires
            self.wf(),
            self.has_transceiver(address),
        ensures
            0 <= self.transceiver_index(address) < self.transceivers@.len(),
            self.transceivers@[self.transceiver_index(address)].index < 128,
            self.transceivers@[self.transceiver_index(address)].address == address,
    {
        let j = self.transceiver_index(address);
        assert(0 <= j < self.transceivers@.len() && self.transceivers@[j].address == address);
    }

    /// Distinct adapter identities hold distinct indices: one adapter's bit
    /// is never another's.
    pub proof fn lemma_index_injective(self, a1: UniversalAddress, a2: UniversalAddress)
        requires
            self.wf(),
            self.has_transceiver(a1),
            self.has_transceiver(a2),
            a1 != a2,
        ensures
            self.transceivers@[self.transceiver_index(a1)].index
                != self.transceivers@[self.transceiver_index(a2)].index,
    {
        let j1 = self.transceiver_index(a1);
        let j2 = self.transceiver_index(a2);
        assert(0 <= j1 < self.transceivers@.len() && self.transceivers@[j1].address == a1);
        assert(0 <= j2 < self.transceivers@.len() && self.transceivers@[j2].address == a2);
        assert(j1 != j2);
    }

    /// Looks `address` up in the registry and returns its index.
    pub fn find_transceiver(&self, address: UniversalAddress) -> (r: Option<u8>)
        requires
            self.wf(),
        ensures
            match r {
                Some(index) => self.has_transceiver(address) && index as int
                    == self.transceiver_index(address) && index < self.transceivers@.len()
                    && self.transceivers@[index as int].address == address,
                None => !self.has_transceiver(address),
            },
    {
        let n = self.transceivers.len();
        let mut j: usize = 0;
        while j < n
            invariant
                n == self.transceivers@.len(),
                j <= n,
                self.wf(),
                forall|k: int|
                    0 <= k < j ==> (#[trigger] self.transceivers@[k]).address != address,
            decreases n - j,
        {
            if self.transceivers[j].address == address {
                proof {
                    self.lemma_transceiver_index_is(address, j as int);
                }
                return Some(self.transceivers[j].index);
            }
            j += 1;
        }
        None
    }

    /// Registers `address` as a new adapter and returns its index: the count
    /// of adapters already registered. Rejects a duplicate identity and a
    /// full registry, in that order.
    pub fn add_transceiver(&mut self, address: UniversalAddress) -> (r: Result<
        u8,
        RouterError,
    >)
        requires
            old(self).wf(),
        ensures
            final(self).wf(),
            r matches Ok(index) ==> {
                &&& !old(self).has_transceiver(address)
                &&& old(self).transceivers@.len() < MAX_TRANSCEIVERS
                &&& index as int == old(self).transceivers@.len()
                &&& final(self).transceivers@ == old(self).transceivers@.push(
                    RegisteredTransceiver {
                        integrator_id: old(self).integrator_id,
                        index,
                        address,
                    },
                )
            },
            r == Err::<u8, RouterError>(RouterError::AdapterAlreadyRegistered) <==> old(
                self,
            ).has_transceiver(address),
            r == Err::<u8, RouterError>(RouterError::TooManyAdapters) <==> !old(
                self,
            ).has_transceiver(address) && old(self).transceivers@.len() >= MAX_TRANSCEIVERS,
            r is Err ==> *final(self) == *old(self),
            r is Ok <==> !old(self).has_transceiver(address) && old(self).transceivers@.len()
                < MAX_TRANSCEIVERS,
            final(self).integrator_id == old(self).integrator_id,
            final(self).identity == old(self).identity,
            final(self).admin == old(self).admin,
            final(self).next_sequence == old(self).next_sequence,
    {
        if self.find_transceiver(address).is_some() {
            return Err(RouterError::AdapterAlreadyRegistered);
        }
        let count = self.transceivers.len();
        if count >= MAX_TRANSCEIVERS {
            return Err(RouterError::TooManyAdapters);
        }
        let index = count as u8;
        let entry = RegisteredTransceiver { integrator_id: self.integrator_id, index, address };
        self.transceivers.push(entry);
        proof {
            self.lemma_transceiver_index_is(address, count as int);
        }
        Ok(index)
    }

    /// Replaces the admin in one step. Only the current admin of an `Active`
    /// configuration may do this; a pending transfer or an immutable
    /// configuration rejects it.
    pub fn update_admin(&mut self, caller: UniversalAddress, new_admin: UniversalAddress) -> (r:
        Result<(), RouterError>)
        ensures
            r == old(self).admin.guard(caller),
            r is Ok ==> final(self).admin == (AdminState::Active { admin: new_admin }),
            r is Err ==> *final(self) == *old(self),
            same_but_admin(*old(self), *final(self)),
    {
        let guard = self.admin.check(caller);
        if let Err(e) = guard {
            return Err(e);
        }
        self.admin = AdminState::Active { admin: new_admin };
        Ok(())
    }

    /// Starts a two-phase handoff to `new_admin`; the configuration stays
    /// under the old admin's name but rejects every mutating call until the
    /// new admin claims it.
    pub fn transfer_admin(&mut self, caller: UniversalAddress, new_admin: UniversalAddress) -> (r:
        Result<(), RouterError>)
        ensures
            r == old(self).admin.guard(caller),
            r is Ok ==> final(self).admin == (AdminState::TransferPending {
                admin: caller,
                pending_admin: new_admin,
            }),
            r is Err ==> *final(self) == *old(self),
            same_but_admin(*old(self), *final(self)),
    {
        let guard = self.admin.check(caller);
        if let Err(e) = guard {
            return Err(e);
        }
        self.admin = AdminState::TransferPending { admin: caller, pending_admin: new_admin };
        Ok(())
    }

    /// Completes a pending handoff: the pending admin, and nobody else,
    /// becomes the active admin.
    pub fn claim_admin(&mut self, caller: UniversalAddress) -> (r: Result<(), RouterError>)
        ensures
            r is Ok <==> (old(self).admin matches AdminState::TransferPending { pending_admin, .. }
                && pending_admin == caller),
            r is Err ==> r == Err::<(), RouterError>(RouterError::CallerNotAuthorized)
                && *final(self) == *old(self),
            r is Ok ==> final(self).admin == (AdminState::Active { admin: caller }),
            same_but_admin(*old(self), *final(self)),
    {
        match self.admin {
            AdminState::TransferPending { pending_admin, .. } => {
                if pending_admin == caller {
                    self.admin = AdminState::Active { admin: caller };
                    Ok(())
                } else {
                    Err(RouterError::CallerNotAuthorized)
                }
            },
            _ => Err(RouterError::CallerNotAuthorized),
        }
    }

    /// Gives up admin authority for good: the configuration becomes
    /// immutable and no call can ever mutate it again.
    pub fn discard_admin(&mut self, caller: UniversalAddress) -> (r: Result<(), RouterError>)
        ensures
            r == old(self).admin.guard(caller),
            r is Ok ==> final(self).admin == AdminState::Immutable,
            r is Err ==> *final(self) == *old(self),
            same_but_admin(*old(self), *final(self)),
    {
        let guard = self.admin.check(caller);
        if let Err(e) = guard {
            return Err(e);
        }
        self.admin = AdminState::Immutable;
        Ok(())
    }
}

} // verus!
