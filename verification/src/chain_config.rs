use vstd::prelude::*;

use crate::bitmap::{bit_set, with_bit, Bitmap};
use crate::errors::RouterError;

verus! {

/// Which adapters of one integrator are authorized to receive from and to
/// send to one chain, one bit per adapter index.
///
/// Created lazily, all-zero, the first time an enable call names a
/// `(integrator_id, chain_id)` pair; mutated only through the enable and
/// disable operations, which the admin guard fronts.
#[derive(Clone, Copy, Debug, PartialEq, Eq, Structural)]
pub struct IntegratorChainConfig {
    /// The integrator this record belongs to.
    pub integrator_id: u64,
    /// The chain this record describes.
    pub chain_id: u16,
    /// Bit `i` set: adapter `i` may receive messages from this chain.
    pub recv_transceiver_bitmap: Bitmap,
    /// Bit `i` set: adapter `i` may carry messages to this chain.
    pub send_transceiver_bitmap: Bitmap,
}

impl IntegratorChainConfig {
    /// The all-zero record lazy creation starts from.
    pub fn new(integrator_id: u64, chain_id: u16) -> (r: Self)
        ensures
            r.integrator_id == integrator_id,
            r.chain_id == chain_id,
            r.recv_transceiver_bitmap.bits == 0,
            r.send_transceiver_bitmap.bits == 0,
    {
        IntegratorChainConfig {
            integrator_id,
            chain_id,
            recv_transceiver_bitmap: Bitmap::new(),
            send_transceiver_bitmap: Bitmap::new(),
        }
    }

    /// Forces the receive bit of adapter `index`.
    pub fn set_recv_transceiver(&mut self, index: u8, value: bool) -> (r: Result<
        (),
        RouterError,
    >)
        ensures
            index >= 128 ==> r == Err::<(), RouterError>(RouterError::IndexOutOfRange)
                && *final(self) == *old(self),
            index < 128 ==> r == Ok::<(), RouterError>(())
                && final(self).recv_transceiver_bitmap.bits == with_bit(
                old(self).recv_transceiver_bitmap.bits,
                index,
                value,
            ),
            final(self).integrator_id == old(self).integrator_id,
            final(self).chain_id == old(self).chain_id,
            final(self).send_transceiver_bitmap == old(self).send_transceiver_bitmap,
    {
        self.recv_transceiver_bitmap.set(index, value)
    }

    /// Forces the send bit of adapter `index`.
    pub fn set_send_transceiver(&mut self, index: u8, value: bool) -> (r: Result<
        (),
        RouterError,
    >)
        ensures
            index >= 128 ==> r == Err::<(), RouterError>(RouterError::IndexOutOfRange)
                && *final(self) == *old(self),
            index < 128 ==> r == Ok::<(), RouterError>(())
                && final(self).send_transceiver_bitmap.bits == with_bit(
                old(self).send_transceiver_bitmap.bits,
                index,
                value,
            ),
            final(self).integrator_id == old(self).integrator_id,
            final(self).chain_id == old(self).chain_id,
            final(self).recv_transceiver_bitmap == old(self).recv_transceiver_bitmap,
    {
        self.send_transceiver_bitmap.set(index, value)
    }

    /// Reads the receive bit of adapter `index`.
    pub fn get_recv_transceiver(&self, index: u8) -> (r: Result<bool, RouterError>)
        ensures
            index >= 128 ==> r == Err::<bool, RouterError>(RouterError::IndexOutOfRange),
            index < 128 ==> r == Ok::<bool, RouterError>(
                bit_set(self.recv_transceiver_bitmap.bits, index),
            ),
    {
        self.recv_transceiver_bitmap.get(index)
    }

    /// Reads the send bit of adapter `index`.
    pub fn get_send_transceiver(&self, index: u8) -> (r: Result<bool, RouterError>)
        ensures
            index >= 128 ==> r == Err::<bool, RouterError>(RouterError::IndexOutOfRange),
            index < 128 ==> r == Ok::<bool, RouterError>(
                bit_set(self.send_transceiver_bitmap.bits, index),
            ),
    {
        self.send_transceiver_bitmap.get(index)
    }
}

} // verus!
