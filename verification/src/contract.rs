//! Caller-facing operations: instantiation, admin configuration updates,
//! credit purchases, and the lock and unlock initiations of the packet
//! lifecycle.  Each operation's effect is pinned to a specification-level
//! transition function on the contract's view.

use vstd::prelude::*;
use crate::datatypes::{Coin, CoinV, Cw721ReceiveMsg, Cw721ReceiveMsgV, InitiatedRequest, InitiatedRequestV, InstantiateMsg, IbcPacketOutgoing, IbcPacketOutgoingV, NftReceiveMsg, NftReceiveMsgV, PacketType, PacketTypeV, State, UpdateStatePayload, UpdateStatePayloadV, UserData, UserDataV, CollectionInfo, StateV};
use crate::error::ContractError;
use crate::state::{Contract, ContractV, PendingPacket, PendingPacketV, collection_in_list, count_matches, find_coll_pos, find_user_place, find_user_pos, packet_user, sorted_users, token_in_list, user_place, lemma_sorted_insert_user, lemma_find_by, user_key};

verus! {

// ---------------------------------------------------------------------------
// Instantiation.

impl Contract {
    /// Creates a fresh bridge instance: the sender becomes the admin, the
    /// request-id allocator starts at zero (the first allocated id is one),
    /// no channel exists, and every ledger is empty.
    pub fn instantiate(msg: InstantiateMsg, sender: String) -> (c: Contract)
        ensures
            c@.state.admin == sender@,
            c@.state.collections == msg.collections_info@.map_values(|ci: CollectionInfo| ci@),
            c@.state.ibc_settings == msg.ibc_settings,
            c@.state.host_chain_prefix == msg.host_chain_prefix@,
            c@.state.lock_credit_settings == msg.lock_credit_settings@,
            c@.channel is None,
            c@.last_request_id == 0,
            c@.users == Seq::<UserDataV>::empty(),
            c@.pending == Seq::<PendingPacketV>::empty(),
            c@.timeouts == Seq::<crate::state::TimeoutEntryV>::empty(),
            c.wf(),
    {
        let c = Contract {
            state: State {
                collections_info: msg.collections_info,
                admin: sender,
                ibc_settings: msg.ibc_settings,
                host_chain_prefix: msg.host_chain_prefix,
                lock_credit_settings: msg.lock_credit_settings,
            },
            channel: None,
            last_request_id: 0,
            users: Vec::new(),
            pending: Vec::new(),
            timeouts: Vec::new(),
        };
        proof {
            assert(c@.users =~= Seq::<UserDataV>::empty());
            assert(c@.pending =~= Seq::<PendingPacketV>::empty());
            assert(c@.timeouts =~= Seq::<crate::state::TimeoutEntryV>::empty());
        }
        c
    }
}

// ---------------------------------------------------------------------------
// Admin configuration updates.

/// Authorization is checked before any field is read; on success every
/// carried field overwrites its counterpart and every absent field is kept.
pub open spec fn spec_update_state(c: ContractV, sender: Seq<char>, p: UpdateStatePayloadV) -> Result<ContractV, ContractError> {
    if sender != c.state.admin {
        Err(ContractError::NotAdmin)
    } else {
        Ok(ContractV {
            state: StateV {
                collections: match p.collections {
                    Some(v) => v,
                    None => c.state.collections,
                },
                admin: match p.admin {
                    Some(a) => a,
                    None => c.state.admin,
                },
                ibc_settings: match p.ibc_settings {
                    Some(s) => s,
                    None => c.state.ibc_settings,
                },
                host_chain_prefix: match p.host_chain_prefix {
                    Some(h) => h,
                    None => c.state.host_chain_prefix,
                },
                lock_credit_settings: c.state.lock_credit_settings,
            },
            ..c
        })
    }
}

impl Contract {
    /// Partially overwrites the configuration; only the admin may call, and a
    /// rejected call changes nothing.
    pub fn update_state(&mut self, sender: &String, changes: UpdateStatePayload) -> (r: Result<(), ContractError>)
        requires
            old(self).wf(),
        ensures
            final(self).wf(),
            match r {
                Ok(_) => spec_update_state(old(self)@, sender@, changes@) == Ok::<ContractV, ContractError>(final(self)@),
                Err(e) => spec_update_state(old(self)@, sender@, changes@) == Err::<ContractV, ContractError>(e)
                    && *final(self) == *old(self),
            },
    {
        if !(self.state.admin == *sender) {
            return Err(ContractError::NotAdmin);
        }
        if let Some(admin) = changes.admin {
            self.state.admin = admin;
        }
        if let Some(collections_info) = changes.collections_info {
            self.state.collections_info = collections_info;
        }
        if let Some(ibc_settings) = changes.ibc_settings {
            self.state.ibc_settings = ibc_settings;
        }
        if let Some(host_chain_prefix) = changes.host_chain_prefix {
            self.state.host_chain_prefix = host_chain_prefix;
        }
        proof {
            let expected = match spec_update_state(old(self)@, sender@, changes@) {
                Ok(c) => c,
                Err(_) => old(self)@,
            };
            assert(self@ =~= expected);
        }
        Ok(())
    }
}

// ---------------------------------------------------------------------------
// Credit purchases.

/// Whether the attached payment covers `amount` credits: the first coin must
/// carry the configured denomination and at least `amount` times its price.
/// The admin is exempt, and so is everyone when no payment token is set.
pub open spec fn payment_covers(c: ContractV, sender: Seq<char>, amount: u16, sent: CoinV) -> bool {
    if sender == c.state.admin {
        true
    } else {
        match c.state.lock_credit_settings.token {
            Some(tok) => tok.denom == sent.denom && (tok.amount as int) * (amount as int) <= sent.amount as int,
            None => true,
        }
    }
}

/// A credit purchase: rejected without funds or with funds that do not cover
/// the price; otherwise the sender's record (created lazily at its sorted
/// place) gains `amount` credits, and the new balance is reported.
pub open spec fn spec_purchase_credit(c: ContractV, sender: Seq<char>, amount: u16, funds: Seq<CoinV>) -> Result<(ContractV, u16), ContractError> {
    if funds.len() == 0 {
        Err(ContractError::NoFundsSent)
    } else if !payment_covers(c, sender, amount, funds[0]) {
        Err(ContractError::InvalidFundsSent)
    } else {
        let new_balance = (c.credits_of(sender) + amount) as u16;
        let users2 = if c.has_user(sender) {
            c.users.update(
                c.user_index(sender),
                UserDataV { lock_credits: new_balance, ..c.user(sender) },
            )
        } else {
            c.users.insert(
                user_place(c.users, sender),
                UserDataV {
                    address: sender,
                    locked_tokens: Seq::empty(),
                    last_lock: 0,
                    lock_credits: new_balance,
                },
            )
        };
        Ok((ContractV { users: users2, ..c }, new_balance))
    }
}

impl Contract {
    /// Buys `amount` lock credits for the sender against the attached funds.
    pub fn purchase_credit(&mut self, sender: &String, amount: u16, funds: &Vec<Coin>) -> (r: Result<u16, ContractError>)
        requires
            old(self).wf(),
            old(self)@.credits_of(sender@) + amount <= u16::MAX,
        ensures
            final(self).wf(),
            match r {
                Ok(nb) => spec_purchase_credit(old(self)@, sender@, amount, funds@.map_values(|f: Coin| f@))
                    == Ok::<(ContractV, u16), ContractError>((final(self)@, nb)),
                Err(e) => spec_purchase_credit(old(self)@, sender@, amount, funds@.map_values(|f: Coin| f@))
                    == Err::<(ContractV, u16), ContractError>(e) && *final(self) == *old(self),
            },
    {
        let ghost fundsv = funds@.map_values(|f: Coin| f@);
        if funds.len() == 0 {
            return Err(ContractError::NoFundsSent);
        }
        proof {
            assert(fundsv[0] == funds@[0]@);
        }
        if !(*sender == self.state.admin) {
            match &self.state.lock_credit_settings.token {
                Some(tok) => {
                    let covered = match tok.amount.checked_mul(amount as u128) {
                        Some(required) => tok.denom == funds[0].denom && required <= funds[0].amount,
                        None => false,
                    };
                    if !covered {
                        return Err(ContractError::InvalidFundsSent);
                    }
                },
                None => {},
            }
        }
        match find_user_pos(&self.users, sender) {
            Some(i) => {
                let ghost oldusers = self@.users;
                proof {
                    assert(old(self)@.user(sender@) == oldusers[i as int]);
                    assert(oldusers[i as int] == self.users@[i as int]@);
                }
                let mut u = self.users.remove(i);
                u.lock_credits = u.lock_credits + amount;
                let nb = u.lock_credits;
                self.users.insert(i, u);
                proof {
                    let c0 = old(self)@;
                    assert(c0.user(sender@) == oldusers[i as int]);
                    assert(self@.users =~= oldusers.update(
                        i as int,
                        UserDataV { lock_credits: nb, ..c0.user(sender@) },
                    ));
                    let expected = spec_purchase_credit(c0, sender@, amount, fundsv)->Ok_0;
                    assert(self@ =~= expected.0);
                    lemma_wf_after_user_update(c0, self@, i as int);
                }
                Ok(nb)
            },
            None => {
                let sorted_pos: usize = find_user_place(&self.users, sender);
                let fresh = UserData {
                    address: sender.clone(),
                    locked_tokens: Vec::new(),
                    last_lock: 0,
                    lock_credits: amount,
                };
                let ghost freshv = fresh@;
                self.users.insert(sorted_pos, fresh);
                proof {
                    let c0 = old(self)@;
                    assert(freshv.locked_tokens =~= Seq::<crate::datatypes::CollectionTokensV>::empty());
                    assert(self@.users =~= c0.users.insert(sorted_pos as int, freshv));
                    let expected = spec_purchase_credit(c0, sender@, amount, fundsv)->Ok_0;
                    assert(self@ =~= expected.0);
                    lemma_find_by(c0.users, user_key(sender@));
                    assert forall|k: int| 0 <= k < c0.users.len() implies (#[trigger] c0.users[k]).address != freshv.address by {
                        assert(!user_key(sender@)(c0.users[k]));
                    }
                    lemma_sorted_insert_user(c0.users, freshv);
                    lemma_wf_after_user_insert(c0, self@, sorted_pos as int);
                }
                Ok(amount)
            },
        }
    }
}

// ---------------------------------------------------------------------------
// Lock initiation.

/// A deposit starts the lock lifecycle: the collection must be supported, the
/// channel finalized, and, when locks are credit-gated, the sender must hold
/// and spend `credit_per_lock` credits.  A fresh request id is allocated, the
/// request is recorded as pending, and the packet to send comes back with its
/// delivery deadline.  Custody is NOT yet recorded in the user ledger: that
/// happens only on a successful acknowledgment.
pub open spec fn spec_deposit_and_lock(c: ContractV, collection: Seq<char>, message: Cw721ReceiveMsgV, now: u64) -> Result<(ContractV, InitiatedRequestV), ContractError> {
    let user = message.sender;
    if !c.collection_supported(collection) {
        Err(ContractError::CollectionNotSupported)
    } else {
        match c.channel {
            None => Err(ContractError::ChannelNotAvailable),
            Some(ch) => {
                if !ch.finalized {
                    Err(ContractError::ChannelNotFinalized)
                } else {
                    let gated = c.state.lock_credit_settings.token is Some;
                    let cost = c.state.lock_credit_settings.credit_per_lock;
                    if gated && !c.has_user(user) {
                        Err(ContractError::UserNotFound)
                    } else if gated && c.user(user).lock_credits < cost {
                        Err(ContractError::InsufficientCredits)
                    } else {
                        let recip = match message.msg {
                            NftReceiveMsgV::LockNft { remote_recipient } => remote_recipient,
                        };
                        let id = (c.last_request_id + 1) as u128;
                        let packet = IbcPacketOutgoingV {
                            request_id: id,
                            timestamp: now,
                            chain_prefix: c.state.host_chain_prefix,
                            packet_type: PacketTypeV::LockRequest {
                                user,
                                token_id: message.token_id,
                                collection,
                                native_address: recip,
                            },
                        };
                        let users2 = if gated {
                            c.users.update(
                                c.user_index(user),
                                UserDataV {
                                    lock_credits: (c.user(user).lock_credits - cost) as u16,
                                    ..c.user(user)
                                },
                            )
                        } else {
                            c.users
                        };
                        let c2 = ContractV {
                            last_request_id: id,
                            users: users2,
                            pending: c.pending.push(PendingPacketV { user, packet }),
                            ..c
                        };
                        let req = InitiatedRequestV {
                            packet,
                            channel_id: ch.channel_id,
                            timeout_deadline: (now + c.state.ibc_settings.timeout) as u64,
                        };
                        Ok((c2, req))
                    }
                }
            },
        }
    }
}

impl Contract {
    /// Starts the lock lifecycle for a token just deposited by a collection.
    pub fn deposit_and_lock(&mut self, collection: &String, message: Cw721ReceiveMsg, now: u64) -> (r: Result<InitiatedRequest, ContractError>)
        requires
            old(self).wf(),
            old(self)@.last_request_id < u128::MAX,
            now + old(self)@.state.ibc_settings.timeout <= u64::MAX,
        ensures
            final(self).wf(),
            match r {
                Ok(req) => spec_deposit_and_lock(old(self)@, collection@, message@, now)
                    == Ok::<(ContractV, InitiatedRequestV), ContractError>((final(self)@, req@)),
                Err(e) => spec_deposit_and_lock(old(self)@, collection@, message@, now)
                    == Err::<(ContractV, InitiatedRequestV), ContractError>(e) && *final(self)
                    == *old(self),
            },
    {
        let ghost c0 = self@;
        if !collection_in_list(&self.state.collections_info, collection) {
            proof {
                assert forall|i: int| 0 <= i < c0.state.collections.len() implies (#[trigger] c0.state.collections[i]) != collection@ by {
                    assert(c0.state.collections[i] == self.state.collections_info@[i]@);
                }
            }
            return Err(ContractError::CollectionNotSupported);
        }
        proof {
            let w = choose|i: int|
                0 <= i < self.state.collections_info@.len() && (#[trigger] self.state.collections_info@[i])@ == collection@;
            assert(c0.state.collections[w] == collection@);
        }
        let channel_id: String = match &self.channel {
            None => {
                return Err(ContractError::ChannelNotAvailable);
            },
            Some(ch) => {
                if !ch.finalized {
                    return Err(ContractError::ChannelNotFinalized);
                }
                ch.channel_id.clone()
            },
        };
        let gated: bool = match &self.state.lock_credit_settings.token {
            Some(_) => true,
            None => false,
        };
        let cost = self.state.lock_credit_settings.credit_per_lock;
        if gated {
            match find_user_pos(&self.users, &message.sender) {
                None => {
                    return Err(ContractError::UserNotFound);
                },
                Some(i) => {
                    proof {
                        assert(c0.user(message.sender@) == self.users@[i as int]@);
                    }
                    if self.users[i].lock_credits < cost {
                        return Err(ContractError::InsufficientCredits);
                    }
                    let mut u = self.users.remove(i);
                    u.lock_credits = u.lock_credits - cost;
                    self.users.insert(i, u);
                    proof {
                        assert(self@.users =~= c0.users.update(
                            i as int,
                            UserDataV {
                                lock_credits: (c0.user(message.sender@).lock_credits - cost) as u16,
                                ..c0.user(message.sender@)
                            },
                        ));
                    }
                },
            }
        }
        let request_id = self.last_request_id + 1;
        let timeout = now + self.state.ibc_settings.timeout;
        let remote_recipient = match message.msg {
            NftReceiveMsg::LockNft { remote_recipient } => remote_recipient,
        };
        let packet = IbcPacketOutgoing {
            request_id,
            timestamp: now,
            chain_prefix: self.state.host_chain_prefix.clone(),
            packet_type: PacketType::LockRequest {
                user: message.sender.clone(),
                token_id: message.token_id,
                collection: collection.clone(),
                native_address: remote_recipient,
            },
        };
        let stored = packet.duplicate();
        self.pending.push(PendingPacket { user: message.sender, packet: stored });
        self.last_request_id = request_id;
        let req = InitiatedRequest { packet, channel_id, timeout_deadline: timeout };
        proof {
            let expected = spec_deposit_and_lock(c0, collection@, message@, now)->Ok_0;
            let cmid = ContractV { users: expected.0.users, ..c0 };
            if gated {
                lemma_wf_after_user_update(c0, cmid, c0.user_index(message.sender@));
            } else {
                assert(cmid =~= c0);
            }
            assert(self@.pending =~= cmid.pending.push(
                PendingPacketV { user: message.sender@, packet: expected.1.packet },
            ));
            assert(self@ =~= expected.0);
            assert(req@ =~= expected.1);
            lemma_wf_after_initiate(
                cmid,
                self@,
                PendingPacketV { user: message.sender@, packet: expected.1.packet },
            );
        }
        Ok(req)
    }
}

// ---------------------------------------------------------------------------
// Unlock initiation.

/// An unlock request: the caller must already have a record and must have the
/// token locked in that collection; the channel must be finalized.  The
/// bookkeeping mirrors lock initiation, and the locked-token entry is NOT yet
/// removed: that happens only on a successful acknowledgment.
pub open spec fn spec_request_unlock(c: ContractV, sender: Seq<char>, collection: Seq<char>, token_id: Seq<char>, native_address: Option<Seq<char>>, now: u64) -> Result<(ContractV, InitiatedRequestV), ContractError> {
    if !c.has_user(sender) {
        Err(ContractError::UserNotFound)
    } else if count_matches(c.tokens_of(sender, collection), token_id) == 0 {
        Err(ContractError::TokenNotLocked)
    } else {
        match c.channel {
            None => Err(ContractError::ChannelNotAvailable),
            Some(ch) => {
                if !ch.finalized {
                    Err(ContractError::ChannelNotFinalized)
                } else {
                    let id = (c.last_request_id + 1) as u128;
                    let packet = IbcPacketOutgoingV {
                        request_id: id,
                        timestamp: now,
                        chain_prefix: c.state.host_chain_prefix,
                        packet_type: PacketTypeV::UnlockRequest {
                            user: sender,
                            token_id,
                            collection,
                            native_address,
                        },
                    };
                    let c2 = ContractV {
                        last_request_id: id,
                        pending: c.pending.push(PendingPacketV { user: sender, packet }),
                        ..c
                    };
                    let req = InitiatedRequestV {
                        packet,
                        channel_id: ch.channel_id,
                        timeout_deadline: (now + c.state.ibc_settings.timeout) as u64,
                    };
                    Ok((c2, req))
                }
            },
        }
    }
}

impl Contract {
    /// Starts the unlock lifecycle for a token the sender has in custody.
    pub fn request_unlock(&mut self, sender: &String, collection: String, token_id: String, native_address: Option<String>, now: u64) -> (r: Result<InitiatedRequest, ContractError>)
        requires
            old(self).wf(),
            old(self)@.last_request_id < u128::MAX,
            now + old(self)@.state.ibc_settings.timeout <= u64::MAX,
        ensures
            final(self).wf(),
            match r {
                Ok(req) => spec_request_unlock(
                    old(self)@,
                    sender@,
                    collection@,
                    token_id@,
                    crate::datatypes::opt_str_view(native_address),
                    now,
                ) == Ok::<(ContractV, InitiatedRequestV), ContractError>((final(self)@, req@)),
                Err(e) => spec_request_unlock(
                    old(self)@,
                    sender@,
                    collection@,
                    token_id@,
                    crate::datatypes::opt_str_view(native_address),
                    now,
                ) == Err::<(ContractV, InitiatedRequestV), ContractError>(e) && *final(self)
                    == *old(self),
            },
    {
        let ghost c0 = self@;
        let i: usize = match find_user_pos(&self.users, sender) {
            None => {
                return Err(ContractError::UserNotFound);
            },
            Some(i) => i,
        };
        proof {
            assert(c0.user(sender@) == self.users@[i as int]@);
        }
        let locked: bool = match find_coll_pos(&self.users[i].locked_tokens, &collection) {
            None => false,
            Some(ci) => {
                proof {
                    assert(c0.tokens_of(sender@, collection@) == self.users@[i as int]@.locked_tokens[ci as int].token_ids);
                    assert(self.users@[i as int]@.locked_tokens[ci as int] == self.users@[i as int].locked_tokens@[ci as int]@);
                }
                token_in_list(&self.users[i].locked_tokens[ci].token_ids, &token_id)
            },
        };
        if !locked {
            return Err(ContractError::TokenNotLocked);
        }
        let channel_id: String = match &self.channel {
            None => {
                return Err(ContractError::ChannelNotAvailable);
            },
            Some(ch) => {
                if !ch.finalized {
                    return Err(ContractError::ChannelNotFinalized);
                }
                ch.channel_id.clone()
            },
        };
        let request_id = self.last_request_id + 1;
        let timeout = now + self.state.ibc_settings.timeout;
        let packet = IbcPacketOutgoing {
            request_id,
            timestamp: now,
            chain_prefix: self.state.host_chain_prefix.clone(),
            packet_type: PacketType::UnlockRequest {
                user: sender.clone(),
                token_id,
                collection,
                native_address,
            },
        };
        let stored = packet.duplicate();
        self.pending.push(PendingPacket { user: sender.clone(), packet: stored });
        self.last_request_id = request_id;
        let req = InitiatedRequest { packet, channel_id, timeout_deadline: timeout };
        proof {
            let expected = spec_request_unlock(
                c0,
                sender@,
                collection@,
                token_id@,
                crate::datatypes::opt_str_view(native_address),
                now,
            )->Ok_0;
            assert(self@.pending =~= c0.pending.push(
                PendingPacketV { user: sender@, packet: expected.1.packet },
            ));
            assert(self@ =~= expected.0);
            assert(req@ =~= expected.1);
            lemma_wf_after_initiate(
                c0,
                self@,
                PendingPacketV { user: sender@, packet: expected.1.packet },
            );
        }
        Ok(req)
    }
}

/// Recording one freshly allocated request keeps the state well-formed: the
/// new id tops every pending id, and the new entry's key names its payload's
/// user.
proof fn lemma_wf_after_initiate(c0: ContractV, c1: ContractV, entry: PendingPacketV)
    requires
        c0.wf(),
        c0.last_request_id < u128::MAX,
        c1.users == c0.users,
        c1.timeouts == c0.timeouts,
        c1.pending == c0.pending.push(entry),
        c1.last_request_id == c0.last_request_id + 1,
        entry.packet.request_id == c0.last_request_id + 1,
        entry.user == packet_user(entry.packet.packet_type),
    ensures
        c1.wf(),
{
    let n = c0.pending.len() as int;
    assert forall|i: int, j: int|
        0 <= i < j < c1.pending.len() implies (#[trigger] c1.pending[i].packet.request_id) < (
    #[trigger] c1.pending[j].packet.request_id) by {
        if j < n {
            assert(c1.pending[i] == c0.pending[i]);
            assert(c1.pending[j] == c0.pending[j]);
        } else {
            assert(c1.pending[i] == c0.pending[i]);
            assert(c1.pending[j] == entry);
        }
    }
}

/// Updating one record without touching its address or its locked tokens
/// keeps the state well-formed.
proof fn lemma_wf_after_user_update(c0: ContractV, c1: ContractV, i: int)
    requires
        c0.wf(),
        0 <= i < c0.users.len(),
        c1.users.len() == c0.users.len(),
        c1.users[i].address == c0.users[i].address,
        c1.users[i].locked_tokens == c0.users[i].locked_tokens,
        forall|j: int| 0 <= j < c0.users.len() && j != i ==> c1.users[j] == c0.users[j],
        c1.pending == c0.pending,
        c1.timeouts == c0.timeouts,
        c1.last_request_id == c0.last_request_id,
    ensures
        c1.wf(),
{
    assert forall|a: int, b: int|
        0 <= a < b < c1.users.len() implies crate::order::lex_lt(
        (#[trigger] c1.users[a]).address,
        (#[trigger] c1.users[b]).address,
    ) by {
        assert(c1.users[a].address == c0.users[a].address);
        assert(c1.users[b].address == c0.users[b].address);
    }
    assert forall|k: int, a: int, b: int|
        0 <= k < c1.users.len() && 0 <= a < b < c1.users[k].locked_tokens.len() implies (
    #[trigger] c1.users[k].locked_tokens[a]).collection != (#[trigger] c1.users[k].locked_tokens[b]).collection by {
        assert(c1.users[k].locked_tokens == c0.users[k].locked_tokens);
    }
}

/// Inserting a record whose locked-token list is empty preserves the rest of
/// well-formedness once sortedness is shown.
proof fn lemma_wf_after_user_insert(c0: ContractV, c1: ContractV, i: int)
    requires
        c0.wf(),
        0 <= i <= c0.users.len(),
        sorted_users(c1.users),
        c1.users == c0.users.insert(i, c1.users[i]),
        c1.users[i].locked_tokens.len() == 0,
        c1.pending == c0.pending,
        c1.timeouts == c0.timeouts,
        c1.last_request_id == c0.last_request_id,
    ensures
        c1.wf(),
{
    assert forall|k: int, a: int, b: int|
        0 <= k < c1.users.len() && 0 <= a < b < c1.users[k].locked_tokens.len() implies (
    #[trigger] c1.users[k].locked_tokens[a]).collection != (#[trigger] c1.users[k].locked_tokens[b]).collection by {
        if k != i {
            let ok: int = if k < i {
                k
            } else {
                k - 1
            };
            assert(c1.users[k] == c0.users[ok]);
        }
    }
}

} // verus!
