//! The lifecycle guarantees, proved once and for all over the transition
//! functions: what each lock or unlock round trip leaves in the ledgers,
//! how the bounded-retry escalation behaves, and that request ids are fresh.

use vstd::prelude::*;
use crate::datatypes::{AckMessageV, AckStatus, CoinV, Cw721ReceiveMsgV, InitiatedRequestV, IbcPacketOutgoingV, NftTransferV, PacketTypeV, TimeoutStatus, UpdateStatePayloadV, UserDataV};
use crate::error::ContractError;
use crate::state::{ContractV, PendingPacketV, TimeoutEntryV, coll_key, count_matches, find_by, lemma_count_push, lemma_count_filter_ne, lemma_count_all_miss, lemma_find_by, lemma_find_by_equiv, lemma_find_by_is_first, lemma_find_by_none, lemma_find_by_push_first, lemma_user_place_props, packet_user, pending_key, timeout_key, user_key, user_place};
use crate::contract::{spec_deposit_and_lock, spec_purchase_credit, spec_request_unlock, spec_update_state};
use crate::ibc::{spec_resolve_ack, spec_resolve_timeout};

verus! {

// ---------------------------------------------------------------------------
// Shared steps.

/// A lock initiation changes no custody: it may only debit credits, and
/// every token count stays what it was.
proof fn lemma_same_tokens(c0: ContractV, c1: ContractV, a: Seq<char>, cl: Seq<char>, t: Seq<char>)
    requires
        c1.users.len() == c0.users.len(),
        forall|i: int|
            0 <= i < c0.users.len() ==> (#[trigger] c1.users[i]).address == c0.users[i].address
                && c1.users[i].locked_tokens == c0.users[i].locked_tokens,
    ensures
        c1.token_count(a, cl, t) == c0.token_count(a, cl, t),
{
    lemma_find_by_equiv(c0.users, c1.users, user_key(a));
    lemma_find_by(c0.users, user_key(a));
    if c0.has_user(a) {
        let ui = c0.user_index(a);
        assert(0 <= ui < c0.users.len());
        assert(c1.users[ui].locked_tokens == c0.users[ui].locked_tokens);
        assert(c1.tokens_of(a, cl) == c0.tokens_of(a, cl));
    }
}

/// After removing the one pending entry that was just pushed, no entry with
/// its fresh id remains.
proof fn lemma_pending_gone(c0: ContractV, pending1: Seq<PendingPacketV>, entry: PendingPacketV, pending2: Seq<PendingPacketV>)
    requires
        c0.wf(),
        pending1 == c0.pending.push(entry),
        entry.packet.request_id == c0.last_request_id + 1,
        c0.last_request_id < u128::MAX,
        entry.user == packet_user(entry.packet.packet_type),
        pending2 == pending1.remove(
            find_by(pending1, pending_key(entry.user, entry.packet.request_id)),
        ),
    ensures
        find_by(pending2, pending_key(entry.user, entry.packet.request_id)) == -1,
{
    let id = entry.packet.request_id;
    let key = pending_key(entry.user, id);
    assert forall|j: int| 0 <= j < c0.pending.len() implies !key(#[trigger] pending1[j]) by {
        assert(pending1[j] == c0.pending[j]);
        assert(c0.pending[j].packet.request_id <= c0.last_request_id);
    }
    lemma_find_by_is_first(pending1, key, c0.pending.len() as int);
    assert(pending2 =~= c0.pending);
    assert forall|j: int| 0 <= j < c0.pending.len() implies !key(#[trigger] c0.pending[j]) by {
        assert(c0.pending[j].packet.request_id <= c0.last_request_id);
    }
    lemma_find_by_none(pending2, key);
}

/// One element counts itself once.
proof fn lemma_count_single(t: Seq<char>)
    ensures
        count_matches(seq![t], t) == 1,
{
    assert(seq![t].drop_last() =~= Seq::<Seq<char>>::empty());
    assert(count_matches(Seq::<Seq<char>>::empty(), t) == 0);
    assert(seq![t].last() == t);
}

// ---------------------------------------------------------------------------
// Lock round trips.

/// A successful lock initiation keeps the shape of the user ledger: same
/// length, same addresses, same locked tokens (only credits may change).
proof fn lemma_deposit_users(c0: ContractV, collection: Seq<char>, message: Cw721ReceiveMsgV, now: u64, c1: ContractV, req: InitiatedRequestV)
    requires
        c0.wf(),
        spec_deposit_and_lock(c0, collection, message, now) == Ok::<
            (ContractV, InitiatedRequestV),
            ContractError,
        >((c1, req)),
    ensures
        c1.users.len() == c0.users.len(),
        forall|i: int|
            0 <= i < c0.users.len() ==> (#[trigger] c1.users[i]).address == c0.users[i].address
                && c1.users[i].locked_tokens == c0.users[i].locked_tokens,
{
    let user = message.sender;
    let gated = c0.state.lock_credit_settings.token is Some;
    if gated {
        lemma_find_by(c0.users, user_key(user));
        assert(0 <= c0.user_index(user) < c0.users.len());
    } else {
        assert(c1.users == c0.users);
    }
}


/// A lock acknowledged with success records the token exactly once for the
/// user in that collection (starting from an untracked asset), resolves the
/// pending request, and issues no transfer.
pub proof fn lemma_lock_then_ack_success(c0: ContractV, collection: Seq<char>, message: Cw721ReceiveMsgV, now: u64, now2: u64, c1: ContractV, req: InitiatedRequestV, c2: ContractV, transfer: Option<NftTransferV>, status: AckStatus)
    requires
        c0.wf(),
        c0.last_request_id < u128::MAX,
        spec_deposit_and_lock(c0, collection, message, now) == Ok::<
            (ContractV, InitiatedRequestV),
            ContractError,
        >((c1, req)),
        c0.token_count(message.sender, collection, message.token_id) == 0,
        spec_resolve_ack(c1, AckMessageV::Success {  }, req.packet, now2) == Ok::<
            (ContractV, Option<NftTransferV>, AckStatus),
            ContractError,
        >((c2, transfer, status)),
    ensures
        c2.token_count(message.sender, collection, message.token_id) == 1,
        !c2.has_pending(message.sender, req.packet.request_id),
        transfer is None,
        status == AckStatus::LockConfirmed,
{
    let user = message.sender;
    let tid = message.token_id;
    let id = req.packet.request_id;
    lemma_deposit_users(c0, collection, message, now, c1, req);
    lemma_same_tokens(c0, c1, user, collection, tid);
    let entry = PendingPacketV { user, packet: req.packet };
    if c1.has_user(user) {
        let ui = c1.user_index(user);
        lemma_find_by(c1.users, user_key(user));
        let u = c1.user(user);
        let ci = find_by(u.locked_tokens, coll_key(collection));
        lemma_find_by(u.locked_tokens, coll_key(collection));
        if ci >= 0 {
            let locked2 = u.locked_tokens.update(
                ci,
                crate::datatypes::CollectionTokensV {
                    collection: u.locked_tokens[ci].collection,
                    token_ids: u.locked_tokens[ci].token_ids.push(tid),
                },
            );
            lemma_find_by_equiv(c1.users, c2.users, user_key(user));
            assert(c2.user_index(user) == ui);
            lemma_find_by_equiv(u.locked_tokens, locked2, coll_key(collection));
            assert(c2.tokens_of(user, collection) == u.locked_tokens[ci].token_ids.push(tid));
            lemma_count_push(u.locked_tokens[ci].token_ids, tid, tid);
        } else {
            let fresh = crate::datatypes::CollectionTokensV { collection, token_ids: seq![tid] };
            let locked2 = u.locked_tokens.push(fresh);
            lemma_find_by_equiv(c1.users, c2.users, user_key(user));
            assert(c2.user_index(user) == ui);
            lemma_find_by_push_first(u.locked_tokens, coll_key(collection), fresh);
            assert(c2.tokens_of(user, collection) == seq![tid]);
            lemma_count_single(tid);
        }
    } else {
        let place = user_place(c1.users, user);
        let fresh = UserDataV {
            address: user,
            locked_tokens: seq![
                crate::datatypes::CollectionTokensV { collection, token_ids: seq![tid] },
            ],
            last_lock: now2,
            lock_credits: 0,
        };
        lemma_user_place_props(c1.users, user);
        lemma_find_by(c1.users, user_key(user));
        let users2 = c1.users.insert(place, fresh);
        assert forall|j: int| 0 <= j < place implies !user_key(user)(#[trigger] users2[j]) by {
            assert(users2[j] == c1.users[j]);
            assert(!user_key(user)(c1.users[j]));
        }
        lemma_find_by_is_first(users2, user_key(user), place);
        assert(c2.user_index(user) == place);
        assert(c2.user(user) == fresh);
        lemma_find_by_is_first(fresh.locked_tokens, coll_key(collection), 0);
        assert(c2.tokens_of(user, collection) == seq![tid]);
        lemma_count_single(tid);
    }
    lemma_pending_gone(c0, c1.pending, entry, c2.pending);
}

/// A lock answered with an error leaves every ledger of custody unchanged,
/// resolves the pending request, and returns the asset to its owner in
/// exactly one transfer instruction.
pub proof fn lemma_lock_then_ack_error(c0: ContractV, collection: Seq<char>, message: Cw721ReceiveMsgV, now: u64, now2: u64, reason: Seq<char>, c1: ContractV, req: InitiatedRequestV, c2: ContractV, transfer: Option<NftTransferV>, status: AckStatus)
    requires
        c0.wf(),
        c0.last_request_id < u128::MAX,
        spec_deposit_and_lock(c0, collection, message, now) == Ok::<
            (ContractV, InitiatedRequestV),
            ContractError,
        >((c1, req)),
        spec_resolve_ack(c1, AckMessageV::Error { error: reason }, req.packet, now2) == Ok::<
            (ContractV, Option<NftTransferV>, AckStatus),
            ContractError,
        >((c2, transfer, status)),
    ensures
        c2.users == c1.users,
        c2.token_count(message.sender, collection, message.token_id) == c0.token_count(
            message.sender,
            collection,
            message.token_id,
        ),
        transfer == Some(
            NftTransferV {
                collection,
                token_id: message.token_id,
                recipient: message.sender,
            },
        ),
        !c2.has_pending(message.sender, req.packet.request_id),
        status == AckStatus::LockRejected,
{
    lemma_deposit_users(c0, collection, message, now, c1, req);
    lemma_same_tokens(c0, c1, message.sender, collection, message.token_id);
    lemma_same_tokens(c1, c2, message.sender, collection, message.token_id);
    let entry = PendingPacketV { user: message.sender, packet: req.packet };
    lemma_pending_gone(c0, c1.pending, entry, c2.pending);
}

/// A lock whose delivery times out behaves as the error case: no custody
/// change, one return transfer, the request resolved.
pub proof fn lemma_lock_then_timeout(c0: ContractV, collection: Seq<char>, message: Cw721ReceiveMsgV, now: u64, c1: ContractV, req: InitiatedRequestV, c2: ContractV, transfer: Option<NftTransferV>, status: TimeoutStatus)
    requires
        c0.wf(),
        c0.last_request_id < u128::MAX,
        spec_deposit_and_lock(c0, collection, message, now) == Ok::<
            (ContractV, InitiatedRequestV),
            ContractError,
        >((c1, req)),
        spec_resolve_timeout(c1, req.packet) == (c2, transfer, status),
    ensures
        c2.users == c1.users,
        c2.token_count(message.sender, collection, message.token_id) == c0.token_count(
            message.sender,
            collection,
            message.token_id,
        ),
        transfer == Some(
            NftTransferV {
                collection,
                token_id: message.token_id,
                recipient: message.sender,
            },
        ),
        !c2.has_pending(message.sender, req.packet.request_id),
        status == TimeoutStatus::LockReturned,
{
    lemma_deposit_users(c0, collection, message, now, c1, req);
    lemma_same_tokens(c0, c1, message.sender, collection, message.token_id);
    lemma_same_tokens(c1, c2, message.sender, collection, message.token_id);
    let entry = PendingPacketV { user: message.sender, packet: req.packet };
    lemma_pending_gone(c0, c1.pending, entry, c2.pending);
}

// ---------------------------------------------------------------------------
// Unlock round trips.

/// An unlock acknowledged with success removes the token from custody,
/// clears any timeout counter for (token, user), resolves the request, and
/// returns the asset in exactly one transfer instruction.
pub proof fn lemma_unlock_then_ack_success(c0: ContractV, sender: Seq<char>, collection: Seq<char>, token_id: Seq<char>, native: Option<Seq<char>>, now: u64, now2: u64, c1: ContractV, req: InitiatedRequestV, c2: ContractV, transfer: Option<NftTransferV>, status: AckStatus)
    requires
        c0.wf(),
        c0.last_request_id < u128::MAX,
        spec_request_unlock(c0, sender, collection, token_id, native, now) == Ok::<
            (ContractV, InitiatedRequestV),
            ContractError,
        >((c1, req)),
        spec_resolve_ack(c1, AckMessageV::Success {  }, req.packet, now2) == Ok::<
            (ContractV, Option<NftTransferV>, AckStatus),
            ContractError,
        >((c2, transfer, status)),
    ensures
        c2.token_count(sender, collection, token_id) == 0,
        c2.timeout_count(token_id, sender) == 0,
        transfer == Some(NftTransferV { collection, token_id, recipient: sender }),
        !c2.has_pending(sender, req.packet.request_id),
        status == AckStatus::UnlockConfirmed,
{
    let ui = c1.user_index(sender);
    lemma_find_by(c1.users, user_key(sender));
    let u = c1.user(sender);
    let ci = find_by(u.locked_tokens, coll_key(collection));
    lemma_find_by(u.locked_tokens, coll_key(collection));
    lemma_find_by_equiv(c1.users, c2.users, user_key(sender));
    assert(c2.user_index(sender) == ui);
    if ci >= 0 {
        let locked2 = u.locked_tokens.update(
            ci,
            crate::datatypes::CollectionTokensV {
                collection: u.locked_tokens[ci].collection,
                token_ids: u.locked_tokens[ci].token_ids.filter(crate::state::ne_key(token_id)),
            },
        );
        lemma_find_by_equiv(u.locked_tokens, locked2, coll_key(collection));
        assert(c2.tokens_of(sender, collection) == u.locked_tokens[ci].token_ids.filter(
            crate::state::ne_key(token_id),
        ));
        lemma_count_filter_ne(u.locked_tokens[ci].token_ids, token_id);
    } else {
        lemma_count_all_miss(c2.tokens_of(sender, collection), token_id);
    }
    // the timeout counter is gone
    let ti = c1.timeout_index(token_id, sender);
    lemma_find_by(c1.timeouts, timeout_key(token_id, sender));
    if ti >= 0 {
        assert forall|j: int|
            0 <= j < c2.timeouts.len() implies !timeout_key(token_id, sender)(
            #[trigger] c2.timeouts[j]) by {
            let oj: int = if j < ti {
                j
            } else {
                j + 1
            };
            assert(c2.timeouts[j] == c1.timeouts[oj]);
            if timeout_key(token_id, sender)(c1.timeouts[oj]) {
                lemma_find_by_is_first(c1.timeouts, timeout_key(token_id, sender), ti);
                assert(c1.timeouts[ti].token_id == c1.timeouts[oj].token_id
                    && c1.timeouts[ti].user == c1.timeouts[oj].user);
            }
        }
        lemma_find_by_none(c2.timeouts, timeout_key(token_id, sender));
    } else {
        lemma_find_by(c2.timeouts, timeout_key(token_id, sender));
    }
    let entry = PendingPacketV { user: sender, packet: req.packet };
    lemma_pending_gone(c0, c1.pending, entry, c2.pending);
}

/// An unlock whose delivery times out below the retry ceiling changes no
/// custody, raises the consecutive-timeout counter by exactly one, resolves
/// the request, and issues no transfer.
pub proof fn lemma_unlock_then_timeout_retry(c0: ContractV, sender: Seq<char>, collection: Seq<char>, token_id: Seq<char>, native: Option<Seq<char>>, now: u64, c1: ContractV, req: InitiatedRequestV, c2: ContractV, transfer: Option<NftTransferV>, status: TimeoutStatus)
    requires
        c0.wf(),
        c0.last_request_id < u128::MAX,
        spec_request_unlock(c0, sender, collection, token_id, native, now) == Ok::<
            (ContractV, InitiatedRequestV),
            ContractError,
        >((c1, req)),
        c0.timeout_count(token_id, sender) < c0.state.ibc_settings.max_timeouts,
        spec_resolve_timeout(c1, req.packet) == (c2, transfer, status),
    ensures
        c2.users == c0.users,
        c2.timeout_count(token_id, sender) == c0.timeout_count(token_id, sender) + 1,
        transfer is None,
        status == (TimeoutStatus::UnlockRetry {
            count: (c0.timeout_count(token_id, sender) + 1) as u8,
        }),
        !c2.has_pending(sender, req.packet.request_id),
{
    let count = c1.timeout_count(token_id, sender);
    let ti = c1.timeout_index(token_id, sender);
    lemma_find_by(c1.timeouts, timeout_key(token_id, sender));
    let newcount = (count + 1) as u8;
    if ti >= 0 {
        let tos2 = c1.timeouts.update(
            ti,
            TimeoutEntryV { count: newcount, ..c1.timeouts[ti] },
        );
        lemma_find_by_equiv(c1.timeouts, tos2, timeout_key(token_id, sender));
        assert(c2.timeout_index(token_id, sender) == ti);
    } else {
        let e = TimeoutEntryV { token_id, user: sender, count: newcount };
        assert forall|j: int|
            0 <= j < c1.timeouts.len() implies !timeout_key(token_id, sender)(
            #[trigger] c1.timeouts[j]) by {}
        lemma_find_by_push_first(c1.timeouts, timeout_key(token_id, sender), e);
        assert(c2.timeout_index(token_id, sender) == c1.timeouts.len());
    }
    let entry = PendingPacketV { user: sender, packet: req.packet };
    lemma_pending_gone(c0, c1.pending, entry, c2.pending);
}

/// Escalation: once the counter for (token, user) has reached the configured
/// ceiling, the next timeout of an unlock of that pair force-releases the
/// asset — one transfer to the user, the counter deleted, custody cleared —
/// whatever other requests came in between.
pub proof fn lemma_unlock_timeout_forces_release(c: ContractV, user: Seq<char>, collection: Seq<char>, token_id: Seq<char>, native: Option<Seq<char>>, pkt: IbcPacketOutgoingV, c2: ContractV, transfer: Option<NftTransferV>, status: TimeoutStatus)
    requires
        c.wf(),
        pkt.packet_type == (PacketTypeV::UnlockRequest {
            user,
            token_id,
            collection,
            native_address: native,
        }),
        c.has_pending(user, pkt.request_id),
        c.timeout_count(token_id, user) >= c.state.ibc_settings.max_timeouts,
        spec_resolve_timeout(c, pkt) == (c2, transfer, status),
    ensures
        status == TimeoutStatus::UnlockForceReleased,
        transfer == Some(NftTransferV { collection, token_id, recipient: user }),
        c2.timeout_index(token_id, user) < 0,
        c2.token_count(user, collection, token_id) == 0,
{
    let ti = c.timeout_index(token_id, user);
    lemma_find_by(c.timeouts, timeout_key(token_id, user));
    if ti >= 0 {
        assert forall|j: int|
            0 <= j < c2.timeouts.len() implies !timeout_key(token_id, user)(
            #[trigger] c2.timeouts[j]) by {
            let oj: int = if j < ti {
                j
            } else {
                j + 1
            };
            assert(c2.timeouts[j] == c.timeouts[oj]);
            if timeout_key(token_id, user)(c.timeouts[oj]) {
                lemma_find_by_is_first(c.timeouts, timeout_key(token_id, user), ti);
                assert(c.timeouts[ti].token_id == c.timeouts[oj].token_id && c.timeouts[ti].user
                    == c.timeouts[oj].user);
            }
        }
        lemma_find_by_none(c2.timeouts, timeout_key(token_id, user));
    }
    if c.has_user(user) {
        let ui = c.user_index(user);
        lemma_find_by(c.users, user_key(user));
        let u = c.user(user);
        let ci = find_by(u.locked_tokens, coll_key(collection));
        lemma_find_by(u.locked_tokens, coll_key(collection));
        lemma_find_by_equiv(c.users, c2.users, user_key(user));
        assert(c2.user_index(user) == ui);
        if ci >= 0 {
            let locked2 = u.locked_tokens.update(
                ci,
                crate::datatypes::CollectionTokensV {
                    collection: u.locked_tokens[ci].collection,
                    token_ids: u.locked_tokens[ci].token_ids.filter(crate::state::ne_key(token_id)),
                },
            );
            lemma_find_by_equiv(u.locked_tokens, locked2, coll_key(collection));
            lemma_count_filter_ne(u.locked_tokens[ci].token_ids, token_id);
        } else {
            lemma_count_all_miss(c2.tokens_of(user, collection), token_id);
        }
    } else {
        lemma_find_by(c2.users, user_key(user));
        if c2.has_user(user) {
            assert(user_key(user)(c2.users[c2.user_index(user)]));
            lemma_find_by(c.users, user_key(user));
        }
        lemma_count_all_miss(c2.tokens_of(user, collection), token_id);
    }
}

// ---------------------------------------------------------------------------
// Request-id freshness.

/// A lock initiation hands out the id right above the allocator: above every
/// id allocated before and hence above every pending one.  Within one
/// contract instance no request id is reused.
pub proof fn lemma_fresh_request_id_lock(c0: ContractV, collection: Seq<char>, message: Cw721ReceiveMsgV, now: u64, c1: ContractV, req: InitiatedRequestV)
    requires
        c0.wf(),
        c0.last_request_id < u128::MAX,
        spec_deposit_and_lock(c0, collection, message, now) == Ok::<
            (ContractV, InitiatedRequestV),
            ContractError,
        >((c1, req)),
    ensures
        req.packet.request_id > c0.last_request_id,
        forall|i: int|
            0 <= i < c0.pending.len() ==> (#[trigger] c0.pending[i].packet.request_id)
                < req.packet.request_id,
        c1.last_request_id == req.packet.request_id,
{
    assert forall|i: int|
        0 <= i < c0.pending.len() implies (#[trigger] c0.pending[i].packet.request_id)
        < req.packet.request_id by {
        assert(c0.pending[i].packet.request_id <= c0.last_request_id);
    }
}

/// As for locks: an unlock initiation hands out a fresh id above everything
/// allocated before.
pub proof fn lemma_fresh_request_id_unlock(c0: ContractV, sender: Seq<char>, collection: Seq<char>, token_id: Seq<char>, native: Option<Seq<char>>, now: u64, c1: ContractV, req: InitiatedRequestV)
    requires
        c0.wf(),
        c0.last_request_id < u128::MAX,
        spec_request_unlock(c0, sender, collection, token_id, native, now) == Ok::<
            (ContractV, InitiatedRequestV),
            ContractError,
        >((c1, req)),
    ensures
        req.packet.request_id > c0.last_request_id,
        forall|i: int|
            0 <= i < c0.pending.len() ==> (#[trigger] c0.pending[i].packet.request_id)
                < req.packet.request_id,
        c1.last_request_id == req.packet.request_id,
{
    assert forall|i: int|
        0 <= i < c0.pending.len() implies (#[trigger] c0.pending[i].packet.request_id)
        < req.packet.request_id by {
        assert(c0.pending[i].packet.request_id <= c0.last_request_id);
    }
}

/// Two initiations in sequence, of any kind, hand out strictly increasing
/// ids: the second works on an allocator at or above the first id.
pub proof fn lemma_request_ids_increase(c0: ContractV, c1: ContractV, req1: InitiatedRequestV, c2: ContractV, c3: ContractV, req2: InitiatedRequestV)
    requires
        req1.packet.request_id == c0.last_request_id + 1,
        c1.last_request_id == c0.last_request_id + 1,
        c2.last_request_id >= c1.last_request_id,
        req2.packet.request_id == c2.last_request_id + 1,
        c3.last_request_id == c2.last_request_id + 1,
    ensures
        req2.packet.request_id > req1.packet.request_id,
{
}

/// No resolution, configuration change, or credit purchase moves the
/// allocator: only an initiation does, and it only grows.
pub proof fn lemma_allocator_only_grows(c: ContractV, ack: AckMessageV, pkt: IbcPacketOutgoingV, now: u64, sender: Seq<char>, payload: UpdateStatePayloadV, amount: u16, funds: Seq<CoinV>)
    ensures
        (match spec_resolve_ack(c, ack, pkt, now) {
            Ok((c2, _, _)) => c2.last_request_id == c.last_request_id,
            Err(_) => true,
        }),
        spec_resolve_timeout(c, pkt).0.last_request_id == c.last_request_id,
        (match spec_update_state(c, sender, payload) {
            Ok(c2) => c2.last_request_id == c.last_request_id,
            Err(_) => true,
        }),
        (match spec_purchase_credit(c, sender, amount, funds) {
            Ok((c2, _)) => c2.last_request_id == c.last_request_id,
            Err(_) => true,
        }),
{
}

} // verus!
