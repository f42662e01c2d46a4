//! The channel handshake and the resolution half of the packet lifecycle:
//! what one acknowledgment, error, or timeout does to the ledgers, and which
//! transfer instruction it emits.

use vstd::prelude::*;
use vstd::string::StringExecFns;
use crate::datatypes::{AckMessage, AckMessageV, AckResolution, AckStatus, ChannelInfo, ChannelInfoV, CollectionTokens, CollectionTokensV, IbcPacketOutgoing, IbcPacketOutgoingV, NftTransfer, NftTransferV, PacketType, PacketTypeV, TimeoutResolution, TimeoutStatus, UserDataV, opt_transfer_view};
use crate::error::ContractError;
use crate::state::{Contract, ContractV, PendingPacketV, TimeoutEntry, TimeoutEntryV, coll_key, find_by, find_coll_pos, find_pending_pos, find_timeout_pos, find_user_pos, packet_user, user_place, lemma_pending_wf_remove, lemma_timeouts_wf_remove, lemma_timeouts_wf_update, lemma_timeouts_wf_push, lemma_users_wf_update, lemma_users_wf_insert, lemma_find_by, user_key, timeout_key, remove_token};

verus! {

// ---------------------------------------------------------------------------
// The channel handshake.

/// The application version this contract negotiates on its channel.
pub open spec fn spec_app_version() -> Seq<char> {
    "gamefi-satellite-protocol-v1"@
}

/// The application version, as a real string.
pub fn ibc_app_version() -> (r: String)
    ensures
        r@ == spec_app_version(),
{
    String::from_str("gamefi-satellite-protocol-v1")
}

/// Opening the handshake: refused while a channel record exists, for ordered
/// delivery, and for a counterpart version other than the expected one; on
/// success the single slot holds an unfinalized record.
pub open spec fn spec_channel_open(c: ContractV, channel_id: Seq<char>, order_unordered: bool, counterparty_version: Option<Seq<char>>, now: u64) -> Result<ContractV, ContractError> {
    if c.channel is Some {
        Err(ContractError::ChannelAlreadyExists)
    } else if !order_unordered {
        Err(ContractError::OnlyUnorderedChannels)
    } else if match counterparty_version {
        Some(v) => v != spec_app_version(),
        None => false,
    } {
        Err(ContractError::InvalidCounterpartyVersion)
    } else {
        Ok(ContractV {
            channel: Some(ChannelInfoV { channel_id, finalized: false, opened_at: now }),
            ..c
        })
    }
}

/// Completing the handshake: refused without a record or once finalized; on
/// success the record flips to finalized and sends become permitted.
pub open spec fn spec_channel_connect(c: ContractV) -> Result<ContractV, ContractError> {
    match c.channel {
        None => Err(ContractError::ChannelNotAvailable),
        Some(ch) => {
            if ch.finalized {
                Err(ContractError::ChannelAlreadyFinalized)
            } else {
                Ok(ContractV { channel: Some(ChannelInfoV { finalized: true, ..ch }), ..c })
            }
        },
    }
}

impl Contract {
    /// Starts the channel handshake.
    pub fn ibc_channel_open(&mut self, channel_id: String, order_unordered: bool, counterparty_version: Option<&String>, now: u64) -> (r: Result<(), ContractError>)
        requires
            old(self).wf(),
        ensures
            final(self).wf(),
            match r {
                Ok(_) => spec_channel_open(
                    old(self)@,
                    channel_id@,
                    order_unordered,
                    match counterparty_version {
                        Some(v) => Some(v@),
                        None => None,
                    },
                    now,
                ) == Ok::<ContractV, ContractError>(final(self)@),
                Err(e) => spec_channel_open(
                    old(self)@,
                    channel_id@,
                    order_unordered,
                    match counterparty_version {
                        Some(v) => Some(v@),
                        None => None,
                    },
                    now,
                ) == Err::<ContractV, ContractError>(e) && *final(self) == *old(self),
            },
    {
        match &self.channel {
            Some(_) => {
                return Err(ContractError::ChannelAlreadyExists);
            },
            None => {},
        }
        if !order_unordered {
            return Err(ContractError::OnlyUnorderedChannels);
        }
        match counterparty_version {
            Some(v) => {
                if !(*v == ibc_app_version()) {
                    return Err(ContractError::InvalidCounterpartyVersion);
                }
            },
            None => {},
        }
        self.channel = Some(ChannelInfo { channel_id, finalized: false, opened_at: now });
        proof {
            assert(self@ =~= spec_channel_open(
                old(self)@,
                channel_id@,
                order_unordered,
                match counterparty_version {
                    Some(v) => Some(v@),
                    None => None,
                },
                now,
            )->Ok_0);
        }
        Ok(())
    }

    /// Completes the channel handshake.
    pub fn ibc_channel_connect(&mut self) -> (r: Result<(), ContractError>)
        requires
            old(self).wf(),
        ensures
            final(self).wf(),
            match r {
                Ok(_) => spec_channel_connect(old(self)@) == Ok::<ContractV, ContractError>(
                    final(self)@,
                ),
                Err(e) => spec_channel_connect(old(self)@) == Err::<ContractV, ContractError>(e)
                    && *final(self) == *old(self),
            },
    {
        let (channel_id, opened_at): (String, u64) = match &self.channel {
            None => {
                return Err(ContractError::ChannelNotAvailable);
            },
            Some(ch) => {
                if ch.finalized {
                    return Err(ContractError::ChannelAlreadyFinalized);
                }
                (ch.channel_id.clone(), ch.opened_at)
            },
        };
        self.channel = Some(ChannelInfo { channel_id, finalized: true, opened_at });
        proof {
            assert(self@ =~= spec_channel_connect(old(self)@)->Ok_0);
        }
        Ok(())
    }

    /// Closes the channel: the record is deleted unconditionally.  Requests
    /// still pending at close time stay in the ledger and become permanently
    /// unresolved; no reconciliation is attempted.
    pub fn ibc_channel_close(&mut self)
        requires
            old(self).wf(),
        ensures
            final(self).wf(),
            final(self)@ == (ContractV { channel: None, ..old(self)@ }),
    {
        self.channel = None;
        proof {
            assert(self@ =~= (ContractV { channel: None, ..old(self)@ }));
        }
    }
}

// ---------------------------------------------------------------------------
// Acknowledgment resolution.

/// What one acknowledgment does, as a pure function of the ledgers, the
/// outcome, and the original request:
/// - success of a lock records custody (creating the user record at its
///   sorted place if absent, appending the token to the collection entry)
///   and stamps the lock time; no transfer is issued;
/// - success of an unlock removes every copy of the token from the entry,
///   clears any timeout counter for (token, user), and returns custody;
/// - an error after a lock returns the asset (it was never recorded), and an
///   error after an unlock changes no ledger (it was never removed);
/// - in every case the resolved request leaves the pending ledger, and an
///   unlock success for a user with no record is a ledger-consistency error
///   that changes nothing.
pub open spec fn spec_resolve_ack(c: ContractV, ack: AckMessageV, pkt: IbcPacketOutgoingV, now: u64) -> Result<(ContractV, Option<NftTransferV>, AckStatus), ContractError> {
    match pkt.packet_type {
        PacketTypeV::LockRequest { user, token_id, collection, .. } => {
            let pend2 = c.pending.remove(c.pending_index(user, pkt.request_id));
            match ack {
                AckMessageV::Success { .. } => {
                    let users2 = if c.has_user(user) {
                        let u = c.user(user);
                        let ci = find_by(u.locked_tokens, coll_key(collection));
                        let locked2 = if ci >= 0 {
                            u.locked_tokens.update(
                                ci,
                                CollectionTokensV {
                                    collection: u.locked_tokens[ci].collection,
                                    token_ids: u.locked_tokens[ci].token_ids.push(token_id),
                                },
                            )
                        } else {
                            u.locked_tokens.push(
                                CollectionTokensV { collection, token_ids: seq![token_id] },
                            )
                        };
                        c.users.update(
                            c.user_index(user),
                            UserDataV { locked_tokens: locked2, last_lock: now, ..u },
                        )
                    } else {
                        c.users.insert(
                            user_place(c.users, user),
                            UserDataV {
                                address: user,
                                locked_tokens: seq![
                                    CollectionTokensV { collection, token_ids: seq![token_id] },
                                ],
                                last_lock: now,
                                lock_credits: 0,
                            },
                        )
                    };
                    Ok((ContractV { users: users2, pending: pend2, ..c }, None, AckStatus::LockConfirmed))
                },
                AckMessageV::Error { .. } => {
                    Ok((
                        ContractV { pending: pend2, ..c },
                        Some(NftTransferV { collection, token_id, recipient: user }),
                        AckStatus::LockRejected,
                    ))
                },
            }
        },
        PacketTypeV::UnlockRequest { user, token_id, collection, .. } => {
            let pend2 = c.pending.remove(c.pending_index(user, pkt.request_id));
            match ack {
                AckMessageV::Success { .. } => {
                    if !c.has_user(user) {
                        Err(ContractError::UserNotFound)
                    } else {
                        let u = c.user(user);
                        let ci = find_by(u.locked_tokens, coll_key(collection));
                        let locked2 = if ci >= 0 {
                            u.locked_tokens.update(
                                ci,
                                CollectionTokensV {
                                    collection: u.locked_tokens[ci].collection,
                                    token_ids: u.locked_tokens[ci].token_ids.filter(
                                        crate::state::ne_key(token_id),
                                    ),
                                },
                            )
                        } else {
                            u.locked_tokens
                        };
                        let users2 = c.users.update(
                            c.user_index(user),
                            UserDataV { locked_tokens: locked2, ..u },
                        );
                        let ti = c.timeout_index(token_id, user);
                        let tos2 = if ti >= 0 {
                            c.timeouts.remove(ti)
                        } else {
                            c.timeouts
                        };
                        Ok((
                            ContractV { users: users2, pending: pend2, timeouts: tos2, ..c },
                            Some(NftTransferV { collection, token_id, recipient: user }),
                            AckStatus::UnlockConfirmed,
                        ))
                    }
                },
                AckMessageV::Error { .. } => {
                    Ok((ContractV { pending: pend2, ..c }, None, AckStatus::UnlockRejected))
                },
            }
        },
    }
}

impl Contract {
    /// Removes the resolved request from the pending ledger.
    fn drop_pending(&mut self, user: &String, id: u128)
        requires
            old(self).wf(),
            old(self)@.has_pending(user@, id),
        ensures
            final(self).wf(),
            final(self)@ == (ContractV {
                pending: old(self)@.pending.remove(old(self)@.pending_index(user@, id)),
                ..old(self)@
            }),
    {
        let k: usize = match find_pending_pos(&self.pending, user, id) {
            Some(k) => k,
            None => {
                proof {
                    assert(false);
                }
                0
            },
        };
        self.pending.remove(k);
        proof {
            assert(self@.pending =~~= old(self)@.pending.remove(k as int));
            assert(self@ =~~= (ContractV {
                pending: old(self)@.pending.remove(k as int),
                ..old(self)@
            }));
            lemma_pending_wf_remove(old(self)@.pending, old(self)@.last_request_id, k as int);
        }
    }

    /// Resolves one acknowledgment against the original request it answers.
    /// The environment delivers exactly one outcome per issued request, so a
    /// matching pending entry is a precondition.
    pub fn resolve_ack(&mut self, ack: &AckMessage, original: &IbcPacketOutgoing, now: u64) -> (r: Result<AckResolution, ContractError>)
        requires
            old(self).wf(),
            old(self)@.has_pending(packet_user(original@.packet_type), original@.request_id),
        ensures
            final(self).wf(),
            match r {
                Ok(res) => spec_resolve_ack(old(self)@, ack@, original@, now) == Ok::<
                    (ContractV, Option<NftTransferV>, AckStatus),
                    ContractError,
                >((final(self)@, opt_transfer_view(res.transfer), res.status)),
                Err(e) => spec_resolve_ack(old(self)@, ack@, original@, now) == Err::<
                    (ContractV, Option<NftTransferV>, AckStatus),
                    ContractError,
                >(e) && *final(self) == *old(self),
            },
    {
        let ghost c0 = self@;
        match &original.packet_type {
            PacketType::LockRequest { user, token_id, collection, .. } => {
                match ack {
                    AckMessage::Success {} => {
                        self.drop_pending(user, original.request_id);
                        match find_user_pos(&self.users, user) {
                            Some(i) => {
                                proof {
                                    assert(self@.users == c0.users);
                                    assert(c0.user(user@) == self.users@[i as int]@);
                                }
                                let mut u = self.users.remove(i);
                                let ghost u0 = u@;
                                match find_coll_pos(&u.locked_tokens, collection) {
                                    Some(ci) => {
                                        let mut ct = u.locked_tokens.remove(ci);
                                        ct.token_ids.push(token_id.clone());
                                        u.locked_tokens.insert(ci, ct);
                                        proof {
                                            assert(u@.locked_tokens =~~= u0.locked_tokens.update(
                                                ci as int,
                                                CollectionTokensV {
                                                    collection: u0.locked_tokens[ci as int].collection,
                                                    token_ids: u0.locked_tokens[ci as int].token_ids.push(token_id@),
                                                },
                                            ));
                                        }
                                    },
                                    None => {
                                        let mut ts: Vec<String> = Vec::new();
                                        ts.push(token_id.clone());
                                        u.locked_tokens.push(
                                            CollectionTokens { collection: collection.clone(), token_ids: ts },
                                        );
                                        proof {
                                            assert(crate::datatypes::str_seq_view(ts@) =~~= seq![token_id@]);
                                            assert(u@.locked_tokens =~~= u0.locked_tokens.push(
                                                CollectionTokensV {
                                                    collection: collection@,
                                                    token_ids: seq![token_id@],
                                                },
                                            ));
                                            lemma_find_by(u0.locked_tokens, coll_key(collection@));
                                            assert forall|a: int, b: int|
                                                0 <= a < b < u@.locked_tokens.len() implies (
                                            #[trigger] u@.locked_tokens[a]).collection != (#[trigger] u@.locked_tokens[b]).collection by {
                                                if b == u0.locked_tokens.len() {
                                                    assert(!coll_key(collection@)(u0.locked_tokens[a]));
                                                }
                                            }
                                        }
                                    },
                                }
                                u.last_lock = now;
                                self.users.insert(i, u);
                                proof {
                                    let expected = spec_resolve_ack(c0, ack@, original@, now)->Ok_0;
                                    assert(self@.users =~~= expected.0.users);
                                    assert(self@ =~~= expected.0);
                                    lemma_users_wf_update(c0.users, i as int, self@.users[i as int]);
                                }
                                Ok(AckResolution { transfer: None, status: AckStatus::LockConfirmed })
                            },
                            None => {
                                let place: usize = crate::state::find_user_place(&self.users, user);
                                let mut ts: Vec<String> = Vec::new();
                                ts.push(token_id.clone());
                                let mut entries: Vec<CollectionTokens> = Vec::new();
                                entries.push(CollectionTokens { collection: collection.clone(), token_ids: ts });
                                let fresh = crate::datatypes::UserData {
                                    address: user.clone(),
                                    locked_tokens: entries,
                                    last_lock: now,
                                    lock_credits: 0,
                                };
                                let ghost freshv = fresh@;
                                self.users.insert(place, fresh);
                                proof {
                                    let expected = spec_resolve_ack(c0, ack@, original@, now)->Ok_0;
                                    assert(freshv.locked_tokens =~~= seq![
                                        CollectionTokensV { collection: collection@, token_ids: seq![token_id@] },
                                    ]);
                                    assert(self@.users =~~= c0.users.insert(place as int, freshv));
                                    assert(self@.users =~~= expected.0.users);
                                    assert(self@ =~~= expected.0);
                                    lemma_find_by(c0.users, user_key(user@));
                                    assert forall|k: int| 0 <= k < c0.users.len() implies (
                                    #[trigger] c0.users[k]).address != freshv.address by {
                                        assert(!user_key(user@)(c0.users[k]));
                                    }
                                    lemma_users_wf_insert(c0.users, freshv);
                                }
                                Ok(AckResolution { transfer: None, status: AckStatus::LockConfirmed })
                            },
                        }
                    },
                    AckMessage::Error { .. } => {
                        self.drop_pending(user, original.request_id);
                        proof {
                            let expected = spec_resolve_ack(c0, ack@, original@, now)->Ok_0;
                            assert(self@ =~~= expected.0);
                        }
                        Ok(AckResolution {
                            transfer: Some(NftTransfer {
                                collection: collection.clone(),
                                token_id: token_id.clone(),
                                recipient: user.clone(),
                            }),
                            status: AckStatus::LockRejected,
                        })
                    },
                }
            },
            PacketType::UnlockRequest { user, token_id, collection, .. } => {
                match ack {
                    AckMessage::Success {} => {
                        let i: usize = match find_user_pos(&self.users, user) {
                            None => {
                                return Err(ContractError::UserNotFound);
                            },
                            Some(i) => i,
                        };
                        self.drop_pending(user, original.request_id);
                        proof {
                            assert(self@.users == c0.users);
                            assert(c0.user(user@) == self.users@[i as int]@);
                        }
                        let mut u = self.users.remove(i);
                        let ghost u0 = u@;
                        proof {
                            assert(u0 == c0.user(user@));
                        }
                        match find_coll_pos(&u.locked_tokens, collection) {
                            Some(ci) => {
                                let mut ct = u.locked_tokens.remove(ci);
                                let kept = remove_token(&ct.token_ids, token_id);
                                ct.token_ids = kept;
                                u.locked_tokens.insert(ci, ct);
                                proof {
                                    assert(u@.locked_tokens =~~= u0.locked_tokens.update(
                                        ci as int,
                                        CollectionTokensV {
                                            collection: u0.locked_tokens[ci as int].collection,
                                            token_ids: u0.locked_tokens[ci as int].token_ids.filter(
                                                crate::state::ne_key(token_id@),
                                            ),
                                        },
                                    ));
                                }
                            },
                            None => {},
                        }
                        let ghost ufinal = u@;
                        self.users.insert(i, u);
                        proof {
                            assert(self@.users =~~= c0.users.update(i as int, ufinal));
                        }
                        match find_timeout_pos(&self.timeouts, token_id, user) {
                            Some(ti) => {
                                let ghost tos0 = self@.timeouts;
                                self.timeouts.remove(ti);
                                proof {
                                    assert(self@.timeouts =~~= tos0.remove(ti as int));
                                    lemma_timeouts_wf_remove(tos0, ti as int);
                                }
                            },
                            None => {},
                        }
                        proof {
                            let expected = spec_resolve_ack(c0, ack@, original@, now)->Ok_0;
                            assert(self@.users =~~= expected.0.users);
                            assert(self@.timeouts =~~= expected.0.timeouts);
                            assert(self@ =~~= expected.0);
                            lemma_users_wf_update(c0.users, i as int, self@.users[i as int]);
                        }
                        Ok(AckResolution {
                            transfer: Some(NftTransfer {
                                collection: collection.clone(),
                                token_id: token_id.clone(),
                                recipient: user.clone(),
                            }),
                            status: AckStatus::UnlockConfirmed,
                        })
                    },
                    AckMessage::Error { .. } => {
                        self.drop_pending(user, original.request_id);
                        proof {
                            let expected = spec_resolve_ack(c0, ack@, original@, now)->Ok_0;
                            assert(self@ =~~= expected.0);
                        }
                        Ok(AckResolution { transfer: None, status: AckStatus::UnlockRejected })
                    },
                }
            },
        }
    }
}

// ---------------------------------------------------------------------------
// Timeout resolution.

/// What one elapsed delivery deadline does:
/// - a lock timeout is never retried: the request is dropped and the asset
///   goes straight back to its owner (custody was never recorded);
/// - an unlock timeout consults the consecutive-timeout counter for
///   (token, user).  At or above the configured ceiling the counter is
///   deleted, the request dropped, the token removed from custody, and the
///   asset force-released, so a transport failure cannot trap it; below the
///   ceiling the counter is raised by one (created at one), the request is
///   dropped, and nothing is released — the user must re-submit the unlock.
pub open spec fn spec_resolve_timeout(c: ContractV, pkt: IbcPacketOutgoingV) -> (ContractV, Option<NftTransferV>, TimeoutStatus) {
    match pkt.packet_type {
        PacketTypeV::LockRequest { user, token_id, collection, .. } => {
            let pend2 = c.pending.remove(c.pending_index(user, pkt.request_id));
            (
                ContractV { pending: pend2, ..c },
                Some(NftTransferV { collection, token_id, recipient: user }),
                TimeoutStatus::LockReturned,
            )
        },
        PacketTypeV::UnlockRequest { user, token_id, collection, .. } => {
            let pend2 = c.pending.remove(c.pending_index(user, pkt.request_id));
            let count = c.timeout_count(token_id, user);
            let ti = c.timeout_index(token_id, user);
            if count >= c.state.ibc_settings.max_timeouts {
                let tos2 = if ti >= 0 {
                    c.timeouts.remove(ti)
                } else {
                    c.timeouts
                };
                let users2 = if c.has_user(user) {
                    let u = c.user(user);
                    let ci = find_by(u.locked_tokens, coll_key(collection));
                    let locked2 = if ci >= 0 {
                        u.locked_tokens.update(
                            ci,
                            CollectionTokensV {
                                collection: u.locked_tokens[ci].collection,
                                token_ids: u.locked_tokens[ci].token_ids.filter(
                                    crate::state::ne_key(token_id),
                                ),
                            },
                        )
                    } else {
                        u.locked_tokens
                    };
                    c.users.update(c.user_index(user), UserDataV { locked_tokens: locked2, ..u })
                } else {
                    c.users
                };
                (
                    ContractV { users: users2, pending: pend2, timeouts: tos2, ..c },
                    Some(NftTransferV { collection, token_id, recipient: user }),
                    TimeoutStatus::UnlockForceReleased,
                )
            } else {
                let newcount = (count + 1) as u8;
                let tos2 = if ti >= 0 {
                    c.timeouts.update(ti, TimeoutEntryV { count: newcount, ..c.timeouts[ti] })
                } else {
                    c.timeouts.push(TimeoutEntryV { token_id, user, count: newcount })
                };
                (
                    ContractV { pending: pend2, timeouts: tos2, ..c },
                    None,
                    TimeoutStatus::UnlockRetry { count: newcount },
                )
            }
        },
    }
}

impl Contract {
    /// Resolves one delivery timeout against the original request.
    pub fn resolve_timeout(&mut self, original: &IbcPacketOutgoing) -> (r: TimeoutResolution)
        requires
            old(self).wf(),
            old(self)@.has_pending(packet_user(original@.packet_type), original@.request_id),
        ensures
            final(self).wf(),
            spec_resolve_timeout(old(self)@, original@) == (
                final(self)@,
                opt_transfer_view(r.transfer),
                r.status,
            ),
    {
        let ghost c0 = self@;
        match &original.packet_type {
            PacketType::LockRequest { user, token_id, collection, .. } => {
                self.drop_pending(user, original.request_id);
                proof {
                    assert(self@ =~~= spec_resolve_timeout(c0, original@).0);
                }
                TimeoutResolution {
                    transfer: Some(NftTransfer {
                        collection: collection.clone(),
                        token_id: token_id.clone(),
                        recipient: user.clone(),
                    }),
                    status: TimeoutStatus::LockReturned,
                }
            },
            PacketType::UnlockRequest { user, token_id, collection, .. } => {
                self.drop_pending(user, original.request_id);
                let count: u8 = match find_timeout_pos(&self.timeouts, token_id, user) {
                    Some(ti) => {
                        proof {
                            assert(self@.timeouts[ti as int] == self.timeouts@[ti as int]@);
                        }
                        self.timeouts[ti].count
                    },
                    None => 0,
                };
                proof {
                    assert(self@.timeouts == c0.timeouts);
                    assert(count == c0.timeout_count(
                        crate::state::packet_token(original@.packet_type),
                        packet_user(original@.packet_type),
                    ));
                }
                if count >= self.state.ibc_settings.max_timeouts {
                    match find_timeout_pos(&self.timeouts, token_id, user) {
                        Some(ti) => {
                            let ghost tos0 = self@.timeouts;
                            self.timeouts.remove(ti);
                            proof {
                                assert(self@.timeouts =~~= tos0.remove(ti as int));
                                lemma_timeouts_wf_remove(tos0, ti as int);
                            }
                        },
                        None => {},
                    }
                    match find_user_pos(&self.users, user) {
                        Some(i) => {
                            proof {
                                assert(self@.users == c0.users);
                                assert(c0.user(user@) == self.users@[i as int]@);
                            }
                            let mut u = self.users.remove(i);
                            let ghost u0 = u@;
                            proof {
                                assert(u0 == c0.user(user@));
                            }
                            match find_coll_pos(&u.locked_tokens, collection) {
                                Some(ci) => {
                                    let mut ct = u.locked_tokens.remove(ci);
                                    let kept = remove_token(&ct.token_ids, token_id);
                                    ct.token_ids = kept;
                                    u.locked_tokens.insert(ci, ct);
                                    proof {
                                        assert(u@.locked_tokens =~~= u0.locked_tokens.update(
                                            ci as int,
                                            CollectionTokensV {
                                                collection: u0.locked_tokens[ci as int].collection,
                                                token_ids: u0.locked_tokens[ci as int].token_ids.filter(
                                                    crate::state::ne_key(token_id@),
                                                ),
                                            },
                                        ));
                                    }
                                },
                                None => {},
                            }
                            let ghost ufinal = u@;
                            self.users.insert(i, u);
                            proof {
                                assert(self@.users =~~= c0.users.update(i as int, ufinal));
                                lemma_users_wf_update(c0.users, i as int, self@.users[i as int]);
                            }
                        },
                        None => {},
                    }
                    proof {
                        let expected = spec_resolve_timeout(c0, original@).0;
                        assert(self@.users =~~= expected.users);
                        assert(self@.timeouts =~~= expected.timeouts);
                        assert(self@ =~~= expected);
                    }
                    TimeoutResolution {
                        transfer: Some(NftTransfer {
                            collection: collection.clone(),
                            token_id: token_id.clone(),
                            recipient: user.clone(),
                        }),
                        status: TimeoutStatus::UnlockForceReleased,
                    }
                } else {
                    let newcount: u8 = count + 1;
                    match find_timeout_pos(&self.timeouts, token_id, user) {
                        Some(ti) => {
                            let ghost tos0 = self@.timeouts;
                            let mut e = self.timeouts.remove(ti);
                            e.count = newcount;
                            self.timeouts.insert(ti, e);
                            proof {
                                assert(self@.timeouts =~~= tos0.update(
                                    ti as int,
                                    TimeoutEntryV { count: newcount, ..tos0[ti as int] },
                                ));
                                lemma_timeouts_wf_update(
                                    tos0,
                                    ti as int,
                                    TimeoutEntryV { count: newcount, ..tos0[ti as int] },
                                );
                            }
                        },
                        None => {
                            let ghost tos0 = self@.timeouts;
                            self.timeouts.push(TimeoutEntry {
                                token_id: token_id.clone(),
                                user: user.clone(),
                                count: newcount,
                            });
                            proof {
                                let e = TimeoutEntryV {
                                    token_id: token_id@,
                                    user: user@,
                                    count: newcount,
                                };
                                assert(self@.timeouts =~~= tos0.push(e));
                                lemma_find_by(tos0, timeout_key(token_id@, user@));
                                assert forall|k: int| 0 <= k < tos0.len() implies !((
                                #[trigger] tos0[k]).token_id == e.token_id && tos0[k].user == e.user) by {
                                    assert(!timeout_key(token_id@, user@)(tos0[k]));
                                }
                                lemma_timeouts_wf_push(tos0, e);
                            }
                        },
                    }
                    proof {
                        let expected = spec_resolve_timeout(c0, original@).0;
                        assert(self@.timeouts =~~= expected.timeouts);
                        assert(self@ =~~= expected);
                    }
                    TimeoutResolution { transfer: None, status: TimeoutStatus::UnlockRetry { count: newcount } }
                }
            },
        }
    }
}

} // verus!
