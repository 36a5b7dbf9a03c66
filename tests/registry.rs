use white_hat_hacker::error::{ContractError, ValidationError};
use white_hat_hacker::msg::{ConfigResponse, InstantiateMsg, SubscriptionResponse};
use white_hat_hacker::order::{compare_keys, KeyOrder};
use white_hat_hacker::state::Contract;

fn s(v: &str) -> String {
    v.to_string()
}

fn fresh(protocol_fee_bps: u16) -> Contract {
    let msg = InstantiateMsg {
        protocol_fee_bps,
        cw721_code_id: 1,
        cw721_name: s("NAME"),
        cw721_symbol: s("SYMBOL"),
        cw721_label: s("label"),
        cw721_admin: None,
    };
    Contract::instantiate(&s("owner"), &s("main"), msg).unwrap().0
}

#[test]
fn subscribe_accepts_every_valid_commission() {
    let mut c = fresh(0);
    for bps in [0u16, 1, 2000, 9999, 10000] {
        assert_eq!(c.subscribe(&s("user"), bps, None), Ok(()));
        assert_eq!(
            c.subscriber(&s("user")),
            Ok(SubscriptionResponse { commission_bps: bps, min_bounty: None })
        );
    }
}

#[test]
fn subscribe_rejects_commission_above_scale() {
    let mut c = fresh(0);
    let before = c.clone();
    for bps in [10001u16, 20000, u16::MAX] {
        assert_eq!(
            c.subscribe(&s("user"), bps, None),
            Err(ContractError::Validation(ValidationError::CommissionBps))
        );
    }
    assert_eq!(c, before);
}

#[test]
fn subscriptions_listed_in_ascending_order() {
    let mut c = fresh(0);
    c.subscribe(&s("bravo"), 1, None).unwrap();
    c.subscribe(&s("alpha"), 2, Some(5)).unwrap();
    c.subscribe(&s("charlie"), 3, None).unwrap();
    c.subscribe(&s("alpha"), 4, None).unwrap();
    let list = c.subscriptions();
    let names: Vec<&str> = list.iter().map(|r| r.subscriber.as_str()).collect();
    assert_eq!(names, vec!["alpha", "bravo", "charlie"]);
    assert_eq!(list[0].commission_bps, 4);
    assert_eq!(list[0].min_bounty, None);
    assert!(c.is_well_formed());
}

#[test]
fn key_order_is_bytewise() {
    assert_eq!(compare_keys("a", "b"), KeyOrder::Less);
    assert_eq!(compare_keys("ab", "a"), KeyOrder::Greater);
    assert_eq!(compare_keys("Z", "a"), KeyOrder::Less);
    assert_eq!(compare_keys("same", "same"), KeyOrder::Equal);
    assert_eq!(compare_keys("", "a"), KeyOrder::Less);
}

#[test]
fn update_subscription_rules() {
    let mut c = fresh(0);
    c.subscribe(&s("user"), 2000, Some(10)).unwrap();
    let before = c.clone();
    assert_eq!(
        c.update_subscription(&s("other"), &s("user"), Some(100), None),
        Err(ContractError::Unauthorized)
    );
    assert_eq!(
        c.update_subscription(&s("user"), &s("user"), None, None),
        Err(ContractError::NothingToUpdate)
    );
    assert_eq!(
        c.update_subscription(&s("user"), &s("user"), Some(2000), Some(10)),
        Err(ContractError::NothingToUpdate)
    );
    assert_eq!(
        c.update_subscription(&s("user"), &s("user"), Some(2000), Some(77)),
        Err(ContractError::NothingToUpdate)
    );
    assert_eq!(
        c.update_subscription(&s("user"), &s("user"), Some(10001), None),
        Err(ContractError::Validation(ValidationError::CommissionBps))
    );
    assert_eq!(
        c.update_subscription(&s("user"), &s("ghost"), Some(1), None),
        Err(ContractError::NotSubscribed)
    );
    assert_eq!(c, before);
    c.update_subscription(&s("user"), &s("user"), Some(500), None).unwrap();
    assert_eq!(
        c.subscriber(&s("user")),
        Ok(SubscriptionResponse { commission_bps: 500, min_bounty: Some(10) })
    );
    // the minimum bounty alone is no update; it changes only with the commission
    let before = c.clone();
    assert_eq!(
        c.update_subscription(&s("user"), &s("user"), None, Some(99)),
        Err(ContractError::NothingToUpdate)
    );
    assert_eq!(
        c.update_subscription(&s("user"), &s("user"), Some(500), Some(99)),
        Err(ContractError::NothingToUpdate)
    );
    assert_eq!(c, before);
    c.update_subscription(&s("user"), &s("user"), Some(600), Some(99)).unwrap();
    assert_eq!(
        c.subscriber(&s("user")),
        Ok(SubscriptionResponse { commission_bps: 600, min_bounty: Some(99) })
    );
}

#[test]
fn unsubscribe_is_owner_only_and_idempotent() {
    let mut c = fresh(0);
    c.subscribe(&s("a"), 1, None).unwrap();
    c.subscribe(&s("b"), 2, None).unwrap();
    c.subscribe(&s("c"), 3, None).unwrap();
    assert_eq!(c.unsubscribe(&s("x"), &s("b")), Err(ContractError::Unauthorized));
    assert_eq!(c.unsubscribe(&s("b"), &s("b")), Ok(()));
    assert_eq!(c.subscriber(&s("b")), Err(ContractError::NotSubscribed));
    let before = c.clone();
    assert_eq!(c.unsubscribe(&s("b"), &s("b")), Ok(()));
    assert_eq!(c, before);
    let names: Vec<String> = c.subscriptions().into_iter().map(|r| r.subscriber).collect();
    assert_eq!(names, vec![s("a"), s("c")]);
}

#[test]
fn update_config_identical_values_rejected() {
    let mut c = fresh(100);
    let before = c.clone();
    assert_eq!(
        c.update_config(&s("owner"), Some(s("owner")), Some(100)),
        Err(ContractError::NothingToUpdate)
    );
    assert_eq!(c.update_config(&s("owner"), None, None), Err(ContractError::NothingToUpdate));
    assert_eq!(c.update_config(&s("owner"), None, Some(100)), Err(ContractError::NothingToUpdate));
    assert_eq!(c, before);
}

#[test]
fn update_config_rules() {
    let mut c = fresh(100);
    assert_eq!(c.update_config(&s("intruder"), None, Some(5)), Err(ContractError::Unauthorized));
    assert_eq!(
        c.update_config(&s("owner"), None, Some(10001)),
        Err(ContractError::Validation(ValidationError::ProtocolFeeBps))
    );
    c.update_config(&s("owner"), Some(s("nahem")), Some(1000)).unwrap();
    assert_eq!(
        c.config(),
        ConfigResponse { contract_owner: s("nahem"), protocol_fee_bps: 1000, cw721_addr: None }
    );
    assert_eq!(c.update_config(&s("owner"), None, Some(5)), Err(ContractError::Unauthorized));
}
