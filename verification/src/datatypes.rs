//! The data carried by the bridge: configuration, user ledgers, outgoing and
//! incoming packets, and the channel record, together with their mathematical
//! views (`*V` types, over `Seq<char>` and `Seq`) that all contracts speak of.

use vstd::prelude::*;

verus! {

// ---------------------------------------------------------------------------
// Small helpers shared by the views.

/// The view of an optional string.
pub open spec fn opt_str_view(o: Option<String>) -> Option<Seq<char>> {
    match o {
        Some(s) => Some(s@),
        None => None,
    }
}

/// The views of a vector of strings.
pub open spec fn str_seq_view(s: Seq<String>) -> Seq<Seq<char>> {
    s.map_values(|x: String| x@)
}

/// Copies an optional string.
pub fn dup_opt_str(o: &Option<String>) -> (r: Option<String>)
    ensures
        opt_str_view(r) == opt_str_view(*o),
{
    match o {
        Some(s) => Some(s.clone()),
        None => None,
    }
}

/// Copies a vector of strings.
pub fn dup_str_vec(v: &Vec<String>) -> (r: Vec<String>)
    ensures
        str_seq_view(r@) == str_seq_view(v@),
{
    let mut r: Vec<String> = Vec::new();
    let mut i: usize = 0;
    while i < v.len()
        invariant
            i <= v@.len(),
            r@.len() == i,
            forall|j: int| 0 <= j < i ==> r@[j]@ == v@[j]@,
        decreases v@.len() - i,
    {
        r.push(v[i].clone());
        i = i + 1;
    }
    proof {
        assert(str_seq_view(r@) =~= str_seq_view(v@));
    }
    r
}

// ---------------------------------------------------------------------------
// Configuration.

/// Transport settings: the relative delivery deadline of an outgoing request,
/// and how many consecutive timeouts an unlock may suffer before the asset is
/// force-released.
#[derive(Clone, Copy, Debug, PartialEq, Eq, Structural)]
pub struct IbcSettings {
    pub timeout: u64,
    pub max_timeouts: u8,
}

/// One supported collection, named by its contract address.
#[derive(Clone, Debug, PartialEq, Eq)]
pub struct CollectionInfo {
    pub address: String,
}

impl View for CollectionInfo {
    type V = Seq<char>;

    open spec fn view(&self) -> Seq<char> {
        self.address@
    }
}

/// An amount of one payment denomination.
#[derive(Clone, Debug, PartialEq, Eq)]
pub struct Coin {
    pub denom: String,
    pub amount: u128,
}

#[verifier::ext_equal]
pub struct CoinV {
    pub denom: Seq<char>,
    pub amount: u128,
}

impl View for Coin {
    type V = CoinV;

    open spec fn view(&self) -> CoinV {
        CoinV { denom: self.denom@, amount: self.amount }
    }
}

/// The credit gate on locks: how many credits one lock costs, and, when set,
/// the payment that buys one credit.
#[derive(Clone, Debug, PartialEq, Eq)]
pub struct LockCreditSettings {
    pub token: Option<Coin>,
    pub credit_per_lock: u16,
}

#[verifier::ext_equal]
pub struct LockCreditSettingsV {
    pub token: Option<CoinV>,
    pub credit_per_lock: u16,
}

impl View for LockCreditSettings {
    type V = LockCreditSettingsV;

    open spec fn view(&self) -> LockCreditSettingsV {
        LockCreditSettingsV {
            token: match self.token {
                Some(c) => Some(c@),
                None => None,
            },
            credit_per_lock: self.credit_per_lock,
        }
    }
}

/// The global configuration: admin, supported collections, transport
/// settings, the host-chain address prefix, and the credit gate.
#[derive(Clone, Debug, PartialEq, Eq)]
pub struct State {
    pub collections_info: Vec<CollectionInfo>,
    pub admin: String,
    pub ibc_settings: IbcSettings,
    pub host_chain_prefix: String,
    pub lock_credit_settings: LockCreditSettings,
}

#[verifier::ext_equal]
pub struct StateV {
    pub collections: Seq<Seq<char>>,
    pub admin: Seq<char>,
    pub ibc_settings: IbcSettings,
    pub host_chain_prefix: Seq<char>,
    pub lock_credit_settings: LockCreditSettingsV,
}

impl View for State {
    type V = StateV;

    open spec fn view(&self) -> StateV {
        StateV {
            collections: self.collections_info@.map_values(|c: CollectionInfo| c@),
            admin: self.admin@,
            ibc_settings: self.ibc_settings,
            host_chain_prefix: self.host_chain_prefix@,
            lock_credit_settings: self.lock_credit_settings@,
        }
    }
}

// ---------------------------------------------------------------------------
// The user ledger.

/// The token ids of one collection that a user holds in custody here.
#[derive(Clone, Debug, PartialEq, Eq)]
pub struct CollectionTokens {
    pub collection: String,
    pub token_ids: Vec<String>,
}

#[verifier::ext_equal]
pub struct CollectionTokensV {
    pub collection: Seq<char>,
    pub token_ids: Seq<Seq<char>>,
}

impl View for CollectionTokens {
    type V = CollectionTokensV;

    open spec fn view(&self) -> CollectionTokensV {
        CollectionTokensV {
            collection: self.collection@,
            token_ids: str_seq_view(self.token_ids@),
        }
    }
}

/// One user's record: locked tokens per collection, the time of the last
/// confirmed lock, and the prepaid lock-credit balance.
#[derive(Clone, Debug, PartialEq, Eq)]
pub struct UserData {
    pub address: String,
    pub locked_tokens: Vec<CollectionTokens>,
    pub last_lock: u64,
    pub lock_credits: u16,
}

#[verifier::ext_equal]
pub struct UserDataV {
    pub address: Seq<char>,
    pub locked_tokens: Seq<CollectionTokensV>,
    pub last_lock: u64,
    pub lock_credits: u16,
}

impl View for UserData {
    type V = UserDataV;

    open spec fn view(&self) -> UserDataV {
        UserDataV {
            address: self.address@,
            locked_tokens: self.locked_tokens@.map_values(|c: CollectionTokens| c@),
            last_lock: self.last_lock,
            lock_credits: self.lock_credits,
        }
    }
}

impl CollectionTokens {
    /// Copies the record.
    pub fn duplicate(&self) -> (r: CollectionTokens)
        ensures
            r@ == self@,
    {
        CollectionTokens { collection: self.collection.clone(), token_ids: dup_str_vec(&self.token_ids) }
    }
}

impl UserData {
    /// Copies the record.
    pub fn duplicate(&self) -> (r: UserData)
        ensures
            r@ == self@,
    {
        let mut locked: Vec<CollectionTokens> = Vec::new();
        let mut i: usize = 0;
        while i < self.locked_tokens.len()
            invariant
                i <= self.locked_tokens@.len(),
                locked@.len() == i,
                forall|j: int| 0 <= j < i ==> locked@[j]@ == self.locked_tokens@[j]@,
            decreases self.locked_tokens@.len() - i,
        {
            locked.push(self.locked_tokens[i].duplicate());
            i = i + 1;
        }
        let r = UserData {
            address: self.address.clone(),
            locked_tokens: locked,
            last_lock: self.last_lock,
            lock_credits: self.lock_credits,
        };
        proof {
            assert(r@.locked_tokens =~= self@.locked_tokens);
        }
        r
    }
}

// ---------------------------------------------------------------------------
// Packets.

/// The intent an outgoing request carries: take custody of a token, or
/// release one.
#[derive(Clone, Debug, PartialEq, Eq)]
pub enum PacketType {
    LockRequest { user: String, token_id: String, collection: String, native_address: Option<String> },
    UnlockRequest { user: String, token_id: String, collection: String, native_address: Option<String> },
}

#[verifier::ext_equal]
pub enum PacketTypeV {
    LockRequest { user: Seq<char>, token_id: Seq<char>, collection: Seq<char>, native_address: Option<Seq<char>> },
    UnlockRequest { user: Seq<char>, token_id: Seq<char>, collection: Seq<char>, native_address: Option<Seq<char>> },
}

impl View for PacketType {
    type V = PacketTypeV;

    open spec fn view(&self) -> PacketTypeV {
        match self {
            PacketType::LockRequest { user, token_id, collection, native_address } => PacketTypeV::LockRequest {
                user: user@,
                token_id: token_id@,
                collection: collection@,
                native_address: opt_str_view(*native_address),
            },
            PacketType::UnlockRequest { user, token_id, collection, native_address } => PacketTypeV::UnlockRequest {
                user: user@,
                token_id: token_id@,
                collection: collection@,
                native_address: opt_str_view(*native_address),
            },
        }
    }
}

impl PacketType {
    /// Copies the packet payload.
    pub fn duplicate(&self) -> (r: PacketType)
        ensures
            r@ == self@,
    {
        match self {
            PacketType::LockRequest { user, token_id, collection, native_address } => PacketType::LockRequest {
                user: user.clone(),
                token_id: token_id.clone(),
                collection: collection.clone(),
                native_address: dup_opt_str(native_address),
            },
            PacketType::UnlockRequest { user, token_id, collection, native_address } => PacketType::UnlockRequest {
                user: user.clone(),
                token_id: token_id.clone(),
                collection: collection.clone(),
                native_address: dup_opt_str(native_address),
            },
        }
    }
}

/// An outgoing cross-chain request, as serialized onto the wire.
#[derive(Clone, Debug, PartialEq, Eq)]
pub struct IbcPacketOutgoing {
    pub request_id: u128,
    pub timestamp: u64,
    pub chain_prefix: String,
    pub packet_type: PacketType,
}

#[verifier::ext_equal]
pub struct IbcPacketOutgoingV {
    pub request_id: u128,
    pub timestamp: u64,
    pub chain_prefix: Seq<char>,
    pub packet_type: PacketTypeV,
}

impl View for IbcPacketOutgoing {
    type V = IbcPacketOutgoingV;

    open spec fn view(&self) -> IbcPacketOutgoingV {
        IbcPacketOutgoingV {
            request_id: self.request_id,
            timestamp: self.timestamp,
            chain_prefix: self.chain_prefix@,
            packet_type: self.packet_type@,
        }
    }
}

impl IbcPacketOutgoing {
    /// Copies the packet.
    pub fn duplicate(&self) -> (r: IbcPacketOutgoing)
        ensures
            r@ == self@,
    {
        IbcPacketOutgoing {
            request_id: self.request_id,
            timestamp: self.timestamp,
            chain_prefix: self.chain_prefix.clone(),
            packet_type: self.packet_type.duplicate(),
        }
    }
}

/// The resolution value a remote acknowledgment carries.
#[derive(Clone, Debug, PartialEq, Eq)]
pub enum AckMessage {
    Error { error: String },
    Success {},
}

#[verifier::ext_equal]
pub enum AckMessageV {
    Error { error: Seq<char> },
    Success {},
}

impl View for AckMessage {
    type V = AckMessageV;

    open spec fn view(&self) -> AckMessageV {
        match self {
            AckMessage::Error { error } => AckMessageV::Error { error: error@ },
            AckMessage::Success {} => AckMessageV::Success {},
        }
    }
}

/// An incoming cross-chain message, as read off the wire.
#[derive(Clone, Debug, PartialEq, Eq)]
pub struct IbcPacketIncoming {
    pub request_id: u128,
    pub timestamp: u64,
    pub chain_prefix: String,
    pub message: AckMessage,
}

/// What a supported collection hands over together with a deposited token.
#[derive(Clone, Debug, PartialEq, Eq)]
pub enum NftReceiveMsg {
    LockNft { remote_recipient: Option<String> },
}

#[verifier::ext_equal]
pub enum NftReceiveMsgV {
    LockNft { remote_recipient: Option<Seq<char>> },
}

impl View for NftReceiveMsg {
    type V = NftReceiveMsgV;

    open spec fn view(&self) -> NftReceiveMsgV {
        match self {
            NftReceiveMsg::LockNft { remote_recipient } => NftReceiveMsgV::LockNft {
                remote_recipient: opt_str_view(*remote_recipient),
            },
        }
    }
}

/// A deposit notification: which user sent which token, and what to do with
/// it.
#[derive(Clone, Debug, PartialEq, Eq)]
pub struct Cw721ReceiveMsg {
    pub sender: String,
    pub token_id: String,
    pub msg: NftReceiveMsg,
}

#[verifier::ext_equal]
pub struct Cw721ReceiveMsgV {
    pub sender: Seq<char>,
    pub token_id: Seq<char>,
    pub msg: NftReceiveMsgV,
}

impl View for Cw721ReceiveMsg {
    type V = Cw721ReceiveMsgV;

    open spec fn view(&self) -> Cw721ReceiveMsgV {
        Cw721ReceiveMsgV { sender: self.sender@, token_id: self.token_id@, msg: self.msg@ }
    }
}

/// The single channel record: its identifier, whether the handshake has
/// completed, and when it was opened.
#[derive(Clone, Debug, PartialEq, Eq)]
pub struct ChannelInfo {
    pub channel_id: String,
    pub finalized: bool,
    pub opened_at: u64,
}

#[verifier::ext_equal]
pub struct ChannelInfoV {
    pub channel_id: Seq<char>,
    pub finalized: bool,
    pub opened_at: u64,
}

impl View for ChannelInfo {
    type V = ChannelInfoV;

    open spec fn view(&self) -> ChannelInfoV {
        ChannelInfoV { channel_id: self.channel_id@, finalized: self.finalized, opened_at: self.opened_at }
    }
}

// ---------------------------------------------------------------------------
// Caller-facing message and result shapes.

/// What instantiation is given: the initial configuration, minus the admin,
/// who is the instantiating sender.
#[derive(Clone, Debug, PartialEq, Eq)]
pub struct InstantiateMsg {
    pub collections_info: Vec<CollectionInfo>,
    pub ibc_settings: IbcSettings,
    pub host_chain_prefix: String,
    pub lock_credit_settings: LockCreditSettings,
}

/// A version migration carries nothing.
#[derive(Clone, Copy, Debug, PartialEq, Eq, Structural)]
pub struct MigrateMsg {}

/// A partial overwrite of the configuration; `None` keeps a field.
#[derive(Clone, Debug, PartialEq, Eq)]
pub struct UpdateStatePayload {
    pub collections_info: Option<Vec<CollectionInfo>>,
    pub ibc_settings: Option<IbcSettings>,
    pub admin: Option<String>,
    pub host_chain_prefix: Option<String>,
}

#[verifier::ext_equal]
pub struct UpdateStatePayloadV {
    pub collections: Option<Seq<Seq<char>>>,
    pub ibc_settings: Option<IbcSettings>,
    pub admin: Option<Seq<char>>,
    pub host_chain_prefix: Option<Seq<char>>,
}

impl View for UpdateStatePayload {
    type V = UpdateStatePayloadV;

    open spec fn view(&self) -> UpdateStatePayloadV {
        UpdateStatePayloadV {
            collections: match self.collections_info {
                Some(v) => Some(v@.map_values(|c: CollectionInfo| c@)),
                None => None,
            },
            ibc_settings: self.ibc_settings,
            admin: opt_str_view(self.admin),
            host_chain_prefix: opt_str_view(self.host_chain_prefix),
        }
    }
}

/// The instruction to hand custody of a token back to its owner; the host
/// environment turns it into a transfer call on the collection.
#[derive(Clone, Debug, PartialEq, Eq)]
pub struct NftTransfer {
    pub collection: String,
    pub token_id: String,
    pub recipient: String,
}

#[verifier::ext_equal]
pub struct NftTransferV {
    pub collection: Seq<char>,
    pub token_id: Seq<char>,
    pub recipient: Seq<char>,
}

impl View for NftTransfer {
    type V = NftTransferV;

    open spec fn view(&self) -> NftTransferV {
        NftTransferV { collection: self.collection@, token_id: self.token_id@, recipient: self.recipient@ }
    }
}

/// What a successful lock or unlock initiation produces: the request to send,
/// the channel to send it on, and its absolute delivery deadline.
#[derive(Clone, Debug, PartialEq, Eq)]
pub struct InitiatedRequest {
    pub packet: IbcPacketOutgoing,
    pub channel_id: String,
    pub timeout_deadline: u64,
}

#[verifier::ext_equal]
pub struct InitiatedRequestV {
    pub packet: IbcPacketOutgoingV,
    pub channel_id: Seq<char>,
    pub timeout_deadline: u64,
}

impl View for InitiatedRequest {
    type V = InitiatedRequestV;

    open spec fn view(&self) -> InitiatedRequestV {
        InitiatedRequestV {
            packet: self.packet@,
            channel_id: self.channel_id@,
            timeout_deadline: self.timeout_deadline,
        }
    }
}

/// How an acknowledgment was resolved.
#[derive(Clone, Copy, Debug, PartialEq, Eq, Structural)]
pub enum AckStatus {
    /// A lock succeeded remotely; the token is now recorded as locked.
    LockConfirmed,
    /// An unlock succeeded remotely; custody goes back to the user.
    UnlockConfirmed,
    /// A lock failed remotely; the token goes back to its owner.
    LockRejected,
    /// An unlock failed remotely; custody is unchanged.
    UnlockRejected,
}

/// How a timeout was resolved.
#[derive(Clone, Copy, Debug, PartialEq, Eq, Structural)]
pub enum TimeoutStatus {
    /// A lock request timed out; the token goes back to its owner at once.
    LockReturned,
    /// An unlock request timed out below the retry ceiling; the counter now
    /// stands at the carried value and the user must re-submit.
    UnlockRetry { count: u8 },
    /// The retry ceiling was reached; the asset is force-released.
    UnlockForceReleased,
}

/// The outcome of resolving one acknowledgment: at most one transfer
/// instruction, and the status attribute of the resolving call.
#[derive(Clone, Debug, PartialEq, Eq)]
pub struct AckResolution {
    pub transfer: Option<NftTransfer>,
    pub status: AckStatus,
}

/// The outcome of resolving one timeout.
#[derive(Clone, Debug, PartialEq, Eq)]
pub struct TimeoutResolution {
    pub transfer: Option<NftTransfer>,
    pub status: TimeoutStatus,
}

/// The view of an optional transfer instruction.
pub open spec fn opt_transfer_view(o: Option<NftTransfer>) -> Option<NftTransferV> {
    match o {
        Some(t) => Some(t@),
        None => None,
    }
}

/// The status string one token has for one user: the authoritative custody
/// record, overridden by any still-pending request of that user.
#[derive(Clone, Copy, Debug, PartialEq, Eq, Structural)]
pub enum TokenStatus {
    Locked,
    Unlocked,
    LockInProgress,
    UnlockInProgress,
}

} // verus!
