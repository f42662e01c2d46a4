use gamefi_satellite::datatypes::{
    AckMessage, CollectionInfo, CollectionTokens, Cw721ReceiveMsg, IbcSettings, InstantiateMsg,
    LockCreditSettings, Coin, ChannelInfo, NftReceiveMsg, AckStatus, TimeoutStatus, TokenStatus,
    UserData,
};
use gamefi_satellite::datatypes::{IbcPacketIncoming, IbcPacketOutgoing, PacketType};
use gamefi_satellite::state::{Contract, PendingPacket};
use gamefi_satellite::ContractError;

fn default_instantiate_msg() -> InstantiateMsg {
    let mut collections = Vec::new();
    collections.push(CollectionInfo {
        address: "osmo1xqw2sl9zk8a6pch0csaw78n4swg5ws8t62wc5qta4gnjxfqg6v2qcs777k".to_string(),
    });
    InstantiateMsg {
        collections_info: collections,
        ibc_settings: IbcSettings { timeout: 300u64, max_timeouts: 3 },
        host_chain_prefix: "osmo".to_string(),
        lock_credit_settings: LockCreditSettings {
            token: Some(Coin { denom: "uosmo".to_string(), amount: 100_000u128 }),
            credit_per_lock: 1u16,
        },
    }
}

fn open_channel(c: &mut Contract) {
    c.channel = Some(ChannelInfo {
        channel_id: "channel-0".to_string(),
        finalized: true,
        opened_at: 1_000_000,
    });
}

fn lock_msg(user: &str, token_id: &str) -> Cw721ReceiveMsg {
    Cw721ReceiveMsg {
        sender: user.to_string(),
        token_id: token_id.to_string(),
        msg: NftReceiveMsg::LockNft { remote_recipient: None },
    }
}

fn funded() -> Vec<Coin> {
    vec![Coin { denom: "uosmo".to_string(), amount: 100_000u128 }]
}

#[test]
fn test_instantiate_contract() {
    let admin = "admin".to_string();
    let c = Contract::instantiate(default_instantiate_msg(), admin.clone());
    assert_eq!(c.get_state().admin, admin);
}

#[test]
fn test_receive_nft_lock_success() {
    let admin = "osmo1cw2ap3sxk6yn7j4sgj0zj4qlr30f4pm23enp3v".to_string();
    let user = "osmo1pw2ap3sxk6yn7j4sgj0zj4qlr30f4pm23enp4v".to_string();
    let cw721_contract = "osmo1xqw2sl9zk8a6pch0csaw78n4swg5ws8t62wc5qta4gnjxfqg6v2qcs777k".to_string();

    let mut c = Contract::instantiate(default_instantiate_msg(), admin);
    open_channel(&mut c);
    c.purchase_credit(&user, 1, &funded()).unwrap();

    let _ = c.deposit_and_lock(&cw721_contract, lock_msg(&user, "1"), 1_000_000);

    let packets = c.get_all_pending_packets(None, None);
    assert!(packets.len() == 1);
}

#[test]
fn test_unlock_token_fail_user_not_found() {
    let admin = "osmo1cw2ap3sxk6yn7j4sgj0zj4qlr30f4pm23enp3v".to_string();
    let mut c = Contract::instantiate(default_instantiate_msg(), admin);

    // This user hasn't locked anything yet
    let user = "osmo1pw2ap3sxk6yn7j4sgj0zj4qlr30f4pm23enp0v".to_string();
    let result = c.request_unlock(
        &user,
        "osmo1xqw2sl9zk8a6pch0csaw78n4swg5ws8t62wc5qta4gnjxfqg6v2qcs777k".to_string(),
        "1".to_string(),
        None,
        1_000_000,
    );
    assert!(result.is_err());
}

#[test]
fn lock_then_ack_success_records_token_once() {
    let coll = "osmo1xqw2sl9zk8a6pch0csaw78n4swg5ws8t62wc5qta4gnjxfqg6v2qcs777k".to_string();
    let user = "osmo1pw2ap3sxk6yn7j4sgj0zj4qlr30f4pm23enp4v".to_string();
    let mut c = Contract::instantiate(default_instantiate_msg(), "admin".to_string());
    open_channel(&mut c);
    c.purchase_credit(&user, 1, &funded()).unwrap();

    let req = c.deposit_and_lock(&coll, lock_msg(&user, "42"), 1_000_000).unwrap();
    assert_eq!(req.packet.request_id, 1u128);
    assert_eq!(req.timeout_deadline, 1_000_300);
    assert_eq!(req.channel_id, "channel-0");

    let incoming = IbcPacketIncoming {
        request_id: req.packet.request_id,
        timestamp: 1_000_100,
        chain_prefix: "osmo".to_string(),
        message: AckMessage::Success {},
    };
    let res = c.resolve_ack(&incoming.message, &req.packet, 1_000_100).unwrap();
    assert_eq!(res.status, AckStatus::LockConfirmed);
    assert!(res.transfer.is_none());

    let data = c.get_user_data(&user).unwrap();
    assert_eq!(data.locked_tokens.len(), 1);
    assert_eq!(data.locked_tokens[0].collection, coll);
    assert_eq!(data.locked_tokens[0].token_ids, vec!["42".to_string()]);
    assert_eq!(data.last_lock, 1_000_100);
    assert_eq!(c.get_all_pending_packets(None, None).len(), 0);
    assert_eq!(c.get_token_status(&user, &coll, &"42".to_string()).unwrap(), TokenStatus::Locked);
}

#[test]
fn lock_then_ack_error_returns_asset() {
    let coll = "osmo1xqw2sl9zk8a6pch0csaw78n4swg5ws8t62wc5qta4gnjxfqg6v2qcs777k".to_string();
    let user = "osmo1pw2ap3sxk6yn7j4sgj0zj4qlr30f4pm23enp4v".to_string();
    let mut c = Contract::instantiate(default_instantiate_msg(), "admin".to_string());
    open_channel(&mut c);
    c.purchase_credit(&user, 1, &funded()).unwrap();

    let req = c.deposit_and_lock(&coll, lock_msg(&user, "42"), 1_000_000).unwrap();
    let res = c
        .resolve_ack(
            &AckMessage::Error { error: "remote refused".to_string() },
            &req.packet,
            1_000_100,
        )
        .unwrap();
    assert_eq!(res.status, AckStatus::LockRejected);
    let transfer = res.transfer.unwrap();
    assert_eq!(transfer.recipient, user);
    assert_eq!(transfer.token_id, "42");
    assert_eq!(transfer.collection, coll);
    // nothing was ever recorded as locked
    assert!(c.get_user_data(&user).unwrap().locked_tokens.is_empty());
    assert_eq!(c.get_all_pending_packets(None, None).len(), 0);
}

#[test]
fn lock_then_timeout_returns_asset() {
    let coll = "osmo1xqw2sl9zk8a6pch0csaw78n4swg5ws8t62wc5qta4gnjxfqg6v2qcs777k".to_string();
    let user = "osmo1pw2ap3sxk6yn7j4sgj0zj4qlr30f4pm23enp4v".to_string();
    let mut c = Contract::instantiate(default_instantiate_msg(), "admin".to_string());
    open_channel(&mut c);
    c.purchase_credit(&user, 1, &funded()).unwrap();

    let req = c.deposit_and_lock(&coll, lock_msg(&user, "42"), 1_000_000).unwrap();
    let res = c.resolve_timeout(&req.packet);
    assert_eq!(res.status, TimeoutStatus::LockReturned);
    assert_eq!(res.transfer.unwrap().recipient, user);
    assert_eq!(c.get_all_pending_packets(None, None).len(), 0);
}

fn contract_with_locked_token(max_timeouts: u8, user: &str, coll: &str, token: &str) -> Contract {
    let mut msg = default_instantiate_msg();
    msg.ibc_settings.max_timeouts = max_timeouts;
    msg.lock_credit_settings.token = None;
    let mut c = Contract::instantiate(msg, "admin".to_string());
    open_channel(&mut c);
    c.users.push(UserData {
        address: user.to_string(),
        locked_tokens: vec![CollectionTokens {
            collection: coll.to_string(),
            token_ids: vec![token.to_string()],
        }],
        last_lock: 0,
        lock_credits: 0,
    });
    c
}

#[test]
fn unlock_then_ack_success_releases_token() {
    let mut c = contract_with_locked_token(3, "U", "C", "7");
    let user = "U".to_string();
    let req = c
        .request_unlock(&user, "C".to_string(), "7".to_string(), None, 2_000)
        .unwrap();
    let res = c.resolve_ack(&AckMessage::Success {}, &req.packet, 2_100).unwrap();
    assert_eq!(res.status, AckStatus::UnlockConfirmed);
    let transfer = res.transfer.unwrap();
    assert_eq!(transfer.recipient, "U");
    assert_eq!(transfer.collection, "C");
    assert_eq!(transfer.token_id, "7");
    let data = c.get_user_data(&user).unwrap();
    assert!(data.locked_tokens[0].token_ids.is_empty());
    assert!(c.timeouts.is_empty());
    assert_eq!(c.get_all_pending_packets(None, None).len(), 0);
}

#[test]
fn unlock_then_ack_error_keeps_custody() {
    let mut c = contract_with_locked_token(3, "U", "C", "7");
    let user = "U".to_string();
    let req = c
        .request_unlock(&user, "C".to_string(), "7".to_string(), None, 2_000)
        .unwrap();
    let res = c
        .resolve_ack(&AckMessage::Error { error: "nope".to_string() }, &req.packet, 2_100)
        .unwrap();
    assert_eq!(res.status, AckStatus::UnlockRejected);
    assert!(res.transfer.is_none());
    let data = c.get_user_data(&user).unwrap();
    assert_eq!(data.locked_tokens[0].token_ids, vec!["7".to_string()]);
    assert_eq!(c.get_all_pending_packets(None, None).len(), 0);
}

#[test]
fn unlock_timeout_below_ceiling_counts_and_keeps_custody() {
    let mut c = contract_with_locked_token(3, "U", "C", "7");
    let user = "U".to_string();
    let req = c
        .request_unlock(&user, "C".to_string(), "7".to_string(), None, 2_000)
        .unwrap();
    let res = c.resolve_timeout(&req.packet);
    assert_eq!(res.status, TimeoutStatus::UnlockRetry { count: 1 });
    assert!(res.transfer.is_none());
    assert_eq!(c.timeouts.len(), 1);
    assert_eq!(c.timeouts[0].count, 1);
    let data = c.get_user_data(&user).unwrap();
    assert_eq!(data.locked_tokens[0].token_ids, vec!["7".to_string()]);
}

#[test]
fn three_timeouts_then_fourth_forces_release() {
    let mut c = contract_with_locked_token(3, "U", "C", "7");
    let user = "U".to_string();
    for round in 1u8..=3u8 {
        let req = c
            .request_unlock(&user, "C".to_string(), "7".to_string(), None, 2_000)
            .unwrap();
        let res = c.resolve_timeout(&req.packet);
        assert_eq!(res.status, TimeoutStatus::UnlockRetry { count: round });
        assert!(res.transfer.is_none());
        assert_eq!(c.timeouts[0].count, round);
        // the asset stays locked
        assert_eq!(
            c.get_token_status(&user, &"C".to_string(), &"7".to_string()).unwrap(),
            TokenStatus::Locked
        );
    }
    // the fourth consecutive timeout force-releases the asset
    let req = c
        .request_unlock(&user, "C".to_string(), "7".to_string(), None, 2_000)
        .unwrap();
    let res = c.resolve_timeout(&req.packet);
    assert_eq!(res.status, TimeoutStatus::UnlockForceReleased);
    let transfer = res.transfer.unwrap();
    assert_eq!(transfer.recipient, "U");
    assert_eq!(transfer.collection, "C");
    assert_eq!(transfer.token_id, "7");
    assert!(c.timeouts.is_empty());
    let data = c.get_user_data(&user).unwrap();
    assert!(data.locked_tokens[0].token_ids.is_empty());
    assert_eq!(
        c.get_token_status(&user, &"C".to_string(), &"7".to_string()).unwrap(),
        TokenStatus::Unlocked
    );
}

#[test]
fn credit_gated_lock_with_zero_balance_is_rejected() {
    let coll = "osmo1xqw2sl9zk8a6pch0csaw78n4swg5ws8t62wc5qta4gnjxfqg6v2qcs777k".to_string();
    let user = "broke".to_string();
    let mut c = Contract::instantiate(default_instantiate_msg(), "admin".to_string());
    open_channel(&mut c);
    // the user exists with a balance of zero
    c.users.push(UserData {
        address: user.clone(),
        locked_tokens: Vec::new(),
        last_lock: 0,
        lock_credits: 0,
    });
    let r = c.deposit_and_lock(&coll, lock_msg(&user, "1"), 1_000_000);
    assert_eq!(r.unwrap_err(), ContractError::InsufficientCredits);
    assert_eq!(c.get_all_pending_packets(None, None).len(), 0);
}

#[test]
fn unlock_of_never_locked_token_is_rejected() {
    let mut c = contract_with_locked_token(3, "U", "C", "7");
    let user = "U".to_string();
    let r = c.request_unlock(&user, "C".to_string(), "8".to_string(), None, 2_000);
    assert_eq!(r.unwrap_err(), ContractError::TokenNotLocked);
    assert_eq!(c.get_all_pending_packets(None, None).len(), 0);
}

#[test]
fn request_ids_strictly_increase_across_kinds() {
    let mut c = contract_with_locked_token(3, "U", "C", "7");
    let coll = "osmo1xqw2sl9zk8a6pch0csaw78n4swg5ws8t62wc5qta4gnjxfqg6v2qcs777k".to_string();
    let user = "U".to_string();
    let r1 = c.deposit_and_lock(&coll, lock_msg(&user, "1"), 2_000).unwrap();
    let r2 = c
        .request_unlock(&user, "C".to_string(), "7".to_string(), None, 2_000)
        .unwrap();
    let r3 = c.deposit_and_lock(&coll, lock_msg(&user, "2"), 2_000).unwrap();
    assert_eq!(r1.packet.request_id, 1);
    assert_eq!(r2.packet.request_id, 2);
    assert_eq!(r3.packet.request_id, 3);
    assert!(r1.packet.request_id < r2.packet.request_id);
    assert!(r2.packet.request_id < r3.packet.request_id);
}

#[test]
fn unsupported_collection_is_rejected() {
    let user = "someone".to_string();
    let mut c = Contract::instantiate(default_instantiate_msg(), "admin".to_string());
    open_channel(&mut c);
    let r = c.deposit_and_lock(&"badcoll".to_string(), lock_msg(&user, "1"), 1_000_000);
    assert_eq!(r.unwrap_err(), ContractError::CollectionNotSupported);
}

#[test]
fn lock_requires_finalized_channel() {
    let coll = "osmo1xqw2sl9zk8a6pch0csaw78n4swg5ws8t62wc5qta4gnjxfqg6v2qcs777k".to_string();
    let user = "someone".to_string();
    let mut c = Contract::instantiate(default_instantiate_msg(), "admin".to_string());
    let r = c.deposit_and_lock(&coll, lock_msg(&user, "1"), 1_000_000);
    assert_eq!(r.unwrap_err(), ContractError::ChannelNotAvailable);
    c.channel = Some(ChannelInfo {
        channel_id: "channel-0".to_string(),
        finalized: false,
        opened_at: 0,
    });
    let r2 = c.deposit_and_lock(&coll, lock_msg(&user, "1"), 1_000_000);
    assert_eq!(r2.unwrap_err(), ContractError::ChannelNotFinalized);
}

#[test]
fn unlock_ack_without_user_record_is_rejected() {
    let mut msg = default_instantiate_msg();
    msg.lock_credit_settings.token = None;
    let mut c = Contract::instantiate(msg, "admin".to_string());
    open_channel(&mut c);
    // a pending unlock whose user record is gone is a ledger-consistency
    // error: the resolving call fails and nothing changes
    let packet = IbcPacketOutgoing {
        request_id: 1,
        timestamp: 0,
        chain_prefix: "osmo".to_string(),
        packet_type: PacketType::UnlockRequest {
            user: "ghost".to_string(),
            token_id: "7".to_string(),
            collection: "C".to_string(),
            native_address: None,
        },
    };
    c.pending.push(PendingPacket { user: "ghost".to_string(), packet: packet.clone() });
    c.last_request_id = 1;
    let r = c.resolve_ack(&AckMessage::Success {}, &packet, 10);
    assert_eq!(r.unwrap_err(), ContractError::UserNotFound);
    assert_eq!(c.pending.len(), 1);
}

#[test]
fn credit_gated_lock_without_record_is_rejected() {
    let coll = "osmo1xqw2sl9zk8a6pch0csaw78n4swg5ws8t62wc5qta4gnjxfqg6v2qcs777k".to_string();
    let mut c = Contract::instantiate(default_instantiate_msg(), "admin".to_string());
    open_channel(&mut c);
    // credits must be purchased first: an unknown user may not lock
    let r = c.deposit_and_lock(&coll, lock_msg("stranger", "1"), 1_000_000);
    assert_eq!(r.unwrap_err(), ContractError::UserNotFound);
    assert_eq!(c.get_all_pending_packets(None, None).len(), 0);
}
