use vstd::prelude::*;

use crate::address::{Bytes32, UniversalAddress};
use crate::bitmap::Bitmap;

verus! {

/// The six fields that make a logical message unique, independent of who
/// stored or relayed it. The attestation store is keyed by this value.
#[derive(Clone, Copy, Debug, PartialEq, Eq, Structural)]
pub struct MessageKey {
    /// The chain the message was sent from.
    pub src_chain: u16,
    /// The sending integrator's identity on the source chain.
    pub src_addr: UniversalAddress,
    /// The sender's outbound sequence number.
    pub sequence: u64,
    /// The chain the message is addressed to.
    pub dst_chain: u16,
    /// The receiving integrator's identity.
    pub dst_addr: UniversalAddress,
    /// The hash of the message payload.
    pub payload_hash: Bytes32,
}

/// One outbound message, created by a send and immutable afterwards.
#[derive(Clone, Copy, Debug, PartialEq, Eq, Structural)]
pub struct OutboxMessage {
    /// The sending integrator's identity.
    pub src_addr: UniversalAddress,
    /// The sequence number issued for this message.
    pub sequence: u64,
    /// The chain the message is addressed to.
    pub dst_chain: u16,
    /// The receiving endpoint's identity.
    pub dst_addr: UniversalAddress,
    /// The hash of the message payload.
    pub payload_hash: Bytes32,
    /// A snapshot of the send bitmap at send time; enabling or disabling
    /// send adapters later never changes this record.
    pub outstanding_adapters: Bitmap,
    /// Where any unspent storage deposit is returned.
    pub refund_recipient: UniversalAddress,
}

/// The attestation record of one logical message: which adapters have
/// attested to it, and whether it has been consumed by a release call.
///
/// Created all-zero by the first attestation (or release probe) for its key;
/// a set attestation bit is never cleared again, and `executed` never goes
/// back to false.
#[derive(Clone, Copy, Debug, PartialEq, Eq, Structural)]
pub struct AttestationInfo {
    /// The message this record aggregates attestations for.
    pub message: MessageKey,
    /// Bit `i` set: adapter `i` has attested to this message.
    pub attested_adapters: Bitmap,
    /// Whether a release call has consumed this record.
    pub executed: bool,
}

impl AttestationInfo {
    /// The fresh record for `message`: no attestations, not yet consumed.
    pub fn new(message: MessageKey) -> (r: Self)
        ensures
            r.message == message,
            r.attested_adapters.bits == 0,
            !r.executed,
    {
        AttestationInfo { message, attested_adapters: Bitmap::new(), executed: false }
    }
}

} // verus!
