//! The error taxonomy of the bridge: every rejected call names its reason.

use vstd::prelude::*;

verus! {

/// Why a call on the bridge was rejected.  Validation errors leave the state
/// untouched; ledger-consistency errors (`UserNotFound` during an unlock
/// acknowledgment) abort the resolving call without a partial update.
#[derive(Clone, Copy, Debug, PartialEq, Eq, Structural)]
pub enum ContractError {
    /// Only the configured admin may change the contract settings.
    NotAdmin,
    /// The depositing collection is not in the supported allow-list.
    CollectionNotSupported,
    /// No channel record exists, so nothing can be sent.
    ChannelNotAvailable,
    /// The channel handshake has not completed, so nothing can be sent.
    ChannelNotFinalized,
    /// A channel record already exists; only one channel may ever exist.
    ChannelAlreadyExists,
    /// The handshake for the existing channel already completed.
    ChannelAlreadyFinalized,
    /// Only unordered delivery is accepted on the channel.
    OnlyUnorderedChannels,
    /// The counterpart offered a protocol version other than the expected one.
    InvalidCounterpartyVersion,
    /// A credit purchase arrived without any attached payment.
    NoFundsSent,
    /// The attached payment does not cover the requested credits.
    InvalidFundsSent,
    /// Locks are credit-gated and the caller holds too little credit.
    InsufficientCredits,
    /// The caller has no user record.
    UserNotFound,
    /// The requested token is not locked in the contract for the caller.
    TokenNotLocked,
}

} // verus!
