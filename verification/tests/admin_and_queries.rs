use gamefi_satellite::datatypes::{
    CollectionInfo, CollectionTokens, Cw721ReceiveMsg, IbcSettings, InstantiateMsg,
    LockCreditSettings, Coin, NftReceiveMsg, PacketType, TokenStatus, UpdateStatePayload,
    UserData, ChannelInfo,
};
use gamefi_satellite::state::Contract;
use gamefi_satellite::ContractError;

fn base_msg() -> InstantiateMsg {
    InstantiateMsg {
        collections_info: vec![CollectionInfo { address: "coll-a".to_string() }],
        ibc_settings: IbcSettings { timeout: 300u64, max_timeouts: 3 },
        host_chain_prefix: "osmo".to_string(),
        lock_credit_settings: LockCreditSettings {
            token: Some(Coin { denom: "uosmo".to_string(), amount: 5u128 }),
            credit_per_lock: 1u16,
        },
    }
}

fn no_changes() -> UpdateStatePayload {
    UpdateStatePayload {
        collections_info: None,
        ibc_settings: None,
        admin: None,
        host_chain_prefix: None,
    }
}

#[test]
fn update_state_rejects_non_admin() {
    let mut c = Contract::instantiate(base_msg(), "admin".to_string());
    let mut changes = no_changes();
    changes.host_chain_prefix = Some("juno".to_string());
    let r = c.update_state(&"mallory".to_string(), changes);
    assert_eq!(r.unwrap_err(), ContractError::NotAdmin);
    assert_eq!(c.get_state().host_chain_prefix, "osmo");
}

#[test]
fn update_state_overwrites_only_given_fields() {
    let mut c = Contract::instantiate(base_msg(), "admin".to_string());
    let mut changes = no_changes();
    changes.host_chain_prefix = Some("juno".to_string());
    changes.ibc_settings = Some(IbcSettings { timeout: 600, max_timeouts: 5 });
    c.update_state(&"admin".to_string(), changes).unwrap();
    let s = c.get_state();
    assert_eq!(s.host_chain_prefix, "juno");
    assert_eq!(s.ibc_settings.timeout, 600);
    assert_eq!(s.ibc_settings.max_timeouts, 5);
    assert_eq!(s.admin, "admin");
    assert_eq!(s.collections_info[0].address, "coll-a");
}

#[test]
fn purchase_credit_requires_funds() {
    let mut c = Contract::instantiate(base_msg(), "admin".to_string());
    let r = c.purchase_credit(&"alice".to_string(), 1, &Vec::new());
    assert_eq!(r.unwrap_err(), ContractError::NoFundsSent);
}

#[test]
fn purchase_credit_checks_denomination_and_amount() {
    let mut c = Contract::instantiate(base_msg(), "admin".to_string());
    let wrong_denom = vec![Coin { denom: "uatom".to_string(), amount: 100u128 }];
    let r = c.purchase_credit(&"alice".to_string(), 1, &wrong_denom);
    assert_eq!(r.unwrap_err(), ContractError::InvalidFundsSent);

    // three credits cost fifteen, fourteen is short
    let short = vec![Coin { denom: "uosmo".to_string(), amount: 14u128 }];
    let r2 = c.purchase_credit(&"alice".to_string(), 3, &short);
    assert_eq!(r2.unwrap_err(), ContractError::InvalidFundsSent);

    let exact = vec![Coin { denom: "uosmo".to_string(), amount: 15u128 }];
    assert_eq!(c.purchase_credit(&"alice".to_string(), 3, &exact).unwrap(), 3);
    assert_eq!(c.purchase_credit(&"alice".to_string(), 3, &exact).unwrap(), 6);
}

#[test]
fn purchase_credit_admin_pays_nothing() {
    let mut c = Contract::instantiate(base_msg(), "admin".to_string());
    let dust = vec![Coin { denom: "whatever".to_string(), amount: 1u128 }];
    assert_eq!(c.purchase_credit(&"admin".to_string(), 7, &dust).unwrap(), 7);
    assert_eq!(c.get_user_data(&"admin".to_string()).unwrap().lock_credits, 7);
}

#[test]
fn channel_handshake_lifecycle() {
    let mut c = Contract::instantiate(base_msg(), "admin".to_string());
    let version = "gamefi-satellite-protocol-v1".to_string();

    // ordered channels are refused
    let r = c.ibc_channel_open("channel-0".to_string(), false, Some(&version), 50);
    assert_eq!(r.unwrap_err(), ContractError::OnlyUnorderedChannels);

    // a wrong counterpart version is refused
    let bad = "other-protocol".to_string();
    let r2 = c.ibc_channel_open("channel-0".to_string(), true, Some(&bad), 50);
    assert_eq!(r2.unwrap_err(), ContractError::InvalidCounterpartyVersion);

    c.ibc_channel_open("channel-0".to_string(), true, Some(&version), 50).unwrap();
    assert!(!c.channel.as_ref().unwrap().finalized);

    // a second open is refused while the record exists
    let r3 = c.ibc_channel_open("channel-1".to_string(), true, None, 60);
    assert_eq!(r3.unwrap_err(), ContractError::ChannelAlreadyExists);

    c.ibc_channel_connect().unwrap();
    assert!(c.channel.as_ref().unwrap().finalized);
    assert_eq!(c.ibc_channel_connect().unwrap_err(), ContractError::ChannelAlreadyFinalized);

    c.ibc_channel_close();
    assert!(c.channel.is_none());
    assert_eq!(c.ibc_channel_connect().unwrap_err(), ContractError::ChannelNotAvailable);
}

fn user(addr: &str, credits: u16) -> UserData {
    UserData {
        address: addr.to_string(),
        locked_tokens: Vec::new(),
        last_lock: 0,
        lock_credits: credits,
    }
}

#[test]
fn users_are_listed_ascending_with_cursor_and_limit() {
    let mut c = Contract::instantiate(base_msg(), "admin".to_string());
    for name in ["delta", "alpha", "echo", "bravo", "charlie"] {
        c.purchase_credit(&name.to_string(), 1, &vec![Coin {
            denom: "uosmo".to_string(),
            amount: 5u128,
        }])
        .unwrap();
    }
    let all = c.get_all_users_data(None, None);
    let names: Vec<String> = all.iter().map(|u| u.address.clone()).collect();
    assert_eq!(names, vec!["alpha", "bravo", "charlie", "delta", "echo"]);

    let bravo = "bravo".to_string();
    let after = c.get_all_users_data(Some(&bravo), Some(2));
    let names2: Vec<String> = after.iter().map(|u| u.address.clone()).collect();
    assert_eq!(names2, vec!["charlie", "delta"]);
}

fn locked_contract() -> (Contract, String, String) {
    let mut msg = base_msg();
    msg.lock_credit_settings.token = None;
    let mut c = Contract::instantiate(msg, "admin".to_string());
    c.channel = Some(ChannelInfo {
        channel_id: "channel-0".to_string(),
        finalized: true,
        opened_at: 0,
    });
    c.users.push(UserData {
        address: "U".to_string(),
        locked_tokens: vec![CollectionTokens {
            collection: "C".to_string(),
            token_ids: vec!["7".to_string()],
        }],
        last_lock: 0,
        lock_credits: 0,
    });
    (c, "U".to_string(), "C".to_string())
}

#[test]
fn pending_packets_are_listed_newest_first() {
    let (mut c, u, _coll) = locked_contract();
    for token in ["a", "b", "c"] {
        c.deposit_and_lock(
            &"coll-a".to_string(),
            Cw721ReceiveMsg {
                sender: u.clone(),
                token_id: token.to_string(),
                msg: NftReceiveMsg::LockNft { remote_recipient: None },
            },
            100,
        )
        .unwrap();
    }
    let all = c.get_all_pending_packets(None, None);
    let tokens: Vec<String> = all
        .iter()
        .map(|p| match p {
            PacketType::LockRequest { token_id, .. } => token_id.clone(),
            PacketType::UnlockRequest { token_id, .. } => token_id.clone(),
        })
        .collect();
    assert_eq!(tokens, vec!["c", "b", "a"]);

    // the cursor is exclusive and cuts below the given id
    let page = c.get_all_pending_packets(Some((u.clone(), 3u128)), Some(1));
    let tokens2: Vec<String> = page
        .iter()
        .map(|p| match p {
            PacketType::LockRequest { token_id, .. } => token_id.clone(),
            PacketType::UnlockRequest { token_id, .. } => token_id.clone(),
        })
        .collect();
    assert_eq!(tokens2, vec!["b"]);
}

#[test]
fn user_pending_packets_are_filtered_by_user() {
    let (mut c, u, coll) = locked_contract();
    c.deposit_and_lock(
        &"coll-a".to_string(),
        Cw721ReceiveMsg {
            sender: "other".to_string(),
            token_id: "x".to_string(),
            msg: NftReceiveMsg::LockNft { remote_recipient: None },
        },
        100,
    )
    .unwrap();
    c.request_unlock(&u, coll, "7".to_string(), None, 100).unwrap();

    let mine = c.get_user_pending_packets(None, None, &u);
    assert_eq!(mine.len(), 1);
    match &mine[0] {
        PacketType::UnlockRequest { token_id, user, .. } => {
            assert_eq!(token_id, "7");
            assert_eq!(user, &u);
        },
        PacketType::LockRequest { .. } => panic!("expected an unlock request"),
    }
    let others = c.get_user_pending_packets(None, None, &"other".to_string());
    assert_eq!(others.len(), 1);
}

#[test]
fn token_status_prefers_pending_requests() {
    let (mut c, u, coll) = locked_contract();
    assert_eq!(c.get_token_status(&u, &coll, &"7".to_string()).unwrap(), TokenStatus::Locked);
    assert_eq!(c.get_token_status(&u, &coll, &"8".to_string()).unwrap(), TokenStatus::Unlocked);
    assert_eq!(
        c.get_token_status(&"ghost".to_string(), &coll, &"7".to_string()).unwrap_err(),
        ContractError::UserNotFound
    );

    c.request_unlock(&u, coll.clone(), "7".to_string(), None, 100).unwrap();
    assert_eq!(
        c.get_token_status(&u, &coll, &"7".to_string()).unwrap(),
        TokenStatus::UnlockInProgress
    );

    // a pending lock of the same user takes precedence over the unlock
    c.deposit_and_lock(
        &"coll-a".to_string(),
        Cw721ReceiveMsg {
            sender: u.clone(),
            token_id: "9".to_string(),
            msg: NftReceiveMsg::LockNft { remote_recipient: None },
        },
        100,
    )
    .unwrap();
    assert_eq!(
        c.get_token_status(&u, &coll, &"7".to_string()).unwrap(),
        TokenStatus::LockInProgress
    );
}

#[test]
fn get_user_data_reports_missing_users() {
    let c = Contract::instantiate(base_msg(), "admin".to_string());
    assert_eq!(
        c.get_user_data(&"nobody".to_string()).unwrap_err(),
        ContractError::UserNotFound
    );
}
