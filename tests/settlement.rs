use white_hat_hacker::error::{ArithmeticError, ContractError};
use white_hat_hacker::msg::{Cw20Receive, Effect, InstantiateMsg, ReceiveMsg, SubMsgOutcome};
use white_hat_hacker::settlement::{split_deposit, Split};
use white_hat_hacker::state::Contract;

const NOW: u64 = 1_571_797_419;

fn s(v: &str) -> String {
    v.to_string()
}

fn encoded_address(addr: &str) -> Vec<u8> {
    let mut data = vec![0x0a, addr.len() as u8];
    data.extend_from_slice(addr.as_bytes());
    data
}

fn linked(protocol_fee_bps: u16) -> Contract {
    let msg = InstantiateMsg {
        protocol_fee_bps,
        cw721_code_id: 7,
        cw721_name: s("White Hat Hacker NFT"),
        cw721_symbol: s("WHH"),
        cw721_label: s("White Hat Hacker Cw721"),
        cw721_admin: Some(s("cw721_contract_owner")),
    };
    let (mut c, _) = Contract::instantiate(&s("contract_owner"), &s("main"), msg).unwrap();
    let data = Some(encoded_address("contract1"));
    c.reply(1, SubMsgOutcome::Success { data }).unwrap();
    c
}

#[test]
fn split_scenario_exact_values() {
    let split = split_deposit(1_000_000, 2000, 1000).unwrap();
    assert_eq!(split, Split { bounty: 200_000, fee: 100_000, remainder: 700_000 });
}

#[test]
fn split_floors_and_adds_up() {
    let split = split_deposit(999_999, 3333, 3333).unwrap();
    assert_eq!(split.bounty, 333_299);
    assert_eq!(split.fee, 333_299);
    assert_eq!(split.remainder, 333_401);
    assert_eq!(split.bounty + split.fee + split.remainder, 999_999);
}

#[test]
fn split_of_zero_and_full_rates() {
    assert_eq!(split_deposit(0, 2000, 1000).unwrap(), Split { bounty: 0, fee: 0, remainder: 0 });
    assert_eq!(split_deposit(7, 10000, 0).unwrap(), Split { bounty: 7, fee: 0, remainder: 0 });
    assert_eq!(split_deposit(7, 0, 0).unwrap(), Split { bounty: 0, fee: 0, remainder: 7 });
}

#[test]
fn split_overflow_and_underflow() {
    assert_eq!(split_deposit(u128::MAX, 2, 0), Err(ArithmeticError::Overflow));
    assert_eq!(split_deposit(u128::MAX, 0, 2), Err(ArithmeticError::Overflow));
    assert_eq!(split_deposit(1_000, 10000, 1000), Err(ArithmeticError::Underflow));
}

#[test]
fn deposit_scenario_pays_and_records() {
    let mut c = linked(1000);
    c.subscribe(&s("protocol"), 2000, None).unwrap();
    let effects = c
        .deposit_cw20(NOW, &s("protocol"), &s("hacker"), &s("token"), 1_000_000, 0)
        .unwrap();
    assert_eq!(effects.len(), 3);
    assert_eq!(
        effects[0],
        Effect::Transfer { token: s("token"), recipient: s("hacker"), amount: 200_000 }
    );
    assert_eq!(
        effects[1],
        Effect::Transfer { token: s("token"), recipient: s("protocol"), amount: 700_000 }
    );
    match &effects[2] {
        Effect::Mint { module, token_id, owner, record } => {
            assert_eq!(module, "contract1");
            assert_eq!(*token_id, 1);
            assert_eq!(owner, "hacker");
            assert_eq!(record.bounty, 200_000);
            assert_eq!(record.total_amount_hacked, 1_000_000);
            assert_eq!(record.date, NOW);
            assert_eq!(record.contract_exploited, "protocol");
        }
        other => panic!("unexpected effect {:?}", other),
    }
    let hacks = c.hacks();
    assert_eq!(hacks.len(), 1);
    assert_eq!(hacks[0].bounty, 200_000);
    assert_eq!(hacks[0].id, 0);
    // the fee stays behind and can be withdrawn in full
    let out = c.withdraw(&s("contract_owner"), &s("token"), None, None).unwrap();
    assert_eq!(
        out,
        vec![Effect::Transfer { token: s("token"), recipient: s("contract_owner"), amount: 100_000 }]
    );
}

#[test]
fn deposits_at_same_time_are_distinct_entries() {
    let mut c = linked(0);
    c.subscribe(&s("protocol"), 2000, None).unwrap();
    c.deposit_cw20(NOW, &s("protocol"), &s("hacker"), &s("token"), 500_000, 0).unwrap();
    c.deposit_cw20(NOW, &s("protocol"), &s("hacker"), &s("token"), 900_000, 1).unwrap();
    let hacks = c.hacks();
    assert_eq!(hacks.len(), 2);
    assert_eq!(hacks[0].id, 0);
    assert_eq!(hacks[1].id, 1);
    assert_eq!(hacks[0].date, hacks[1].date);
    assert_eq!(hacks[0].total_amount_hacked, 500_000);
    assert_eq!(hacks[1].total_amount_hacked, 900_000);
    let mine = c.hacks_by_reporter(&s("hacker"), NOW, NOW);
    assert_eq!(mine.len(), 2);
    assert!(c.hacks_by_reporter(&s("someone"), 0, u64::MAX).is_empty());
    assert!(c.hacks_by_reporter(&s("hacker"), NOW + 1, u64::MAX).is_empty());
}

#[test]
fn deposit_errors_leave_state_unchanged() {
    let mut c = linked(1000);
    c.subscribe(&s("protocol"), 10000, None).unwrap();
    let before = c.clone();
    assert_eq!(
        c.deposit_cw20(NOW, &s("nobody"), &s("hacker"), &s("token"), 10, 0),
        Err(ContractError::NotSubscribed)
    );
    assert_eq!(
        c.deposit_cw20(NOW, &s("protocol"), &s("hacker"), &s("token"), 1_000, 0),
        Err(ContractError::Arithmetic(ArithmeticError::Underflow))
    );
    assert_eq!(
        c.deposit_cw20(NOW, &s("protocol"), &s("hacker"), &s("token"), u128::MAX, 0),
        Err(ContractError::Arithmetic(ArithmeticError::Overflow))
    );
    assert_eq!(c, before);
}

#[test]
fn deposit_token_id_overflow() {
    let mut c = linked(0);
    c.subscribe(&s("protocol"), 2000, None).unwrap();
    assert_eq!(
        c.deposit_cw20(NOW, &s("protocol"), &s("hacker"), &s("token"), 10, u64::MAX),
        Err(ContractError::Arithmetic(ArithmeticError::Overflow))
    );
}

#[test]
fn deposit_before_module_linked() {
    let msg = InstantiateMsg {
        protocol_fee_bps: 0,
        cw721_code_id: 7,
        cw721_name: s("n"),
        cw721_symbol: s("s"),
        cw721_label: s("l"),
        cw721_admin: None,
    };
    let (mut c, _) = Contract::instantiate(&s("owner"), &s("main"), msg).unwrap();
    c.subscribe(&s("protocol"), 2000, None).unwrap();
    assert_eq!(
        c.deposit_cw20(NOW, &s("protocol"), &s("hacker"), &s("token"), 10, 0),
        Err(ContractError::ModuleNotLinked)
    );
}

#[test]
fn receive_hook_deposits_for_named_entity() {
    let mut c = linked(0);
    c.subscribe(&s("protocol"), 5000, None).unwrap();
    let receive = Cw20Receive {
        sender: s("hacker"),
        amount: 100_000,
        msg: ReceiveMsg::DepositCw20 { subscriber: s("protocol") },
    };
    let effects = c.handle_receive_cw20(NOW, &s("token"), &receive, 0).unwrap();
    assert_eq!(
        effects[0],
        Effect::Transfer { token: s("token"), recipient: s("hacker"), amount: 50_000 }
    );
    assert_eq!(c.hacks()[0].hacker_addr, "hacker");
}

#[test]
fn withdraw_zero_and_non_owner() {
    let mut c = linked(1000);
    c.subscribe(&s("protocol"), 2000, None).unwrap();
    c.deposit_cw20(NOW, &s("protocol"), &s("hacker"), &s("token"), 1_000_000, 0).unwrap();
    assert_eq!(
        c.withdraw(&s("contract_owner"), &s("token"), Some(0), None),
        Err(ContractError::NothingToWithdraw)
    );
    assert_eq!(
        c.withdraw(&s("hacker"), &s("token"), Some(10), None),
        Err(ContractError::Unauthorized)
    );
    assert_eq!(
        c.withdraw(&s("contract_owner"), &s("other"), None, None),
        Err(ContractError::NothingToWithdraw)
    );
    assert_eq!(
        c.withdraw(&s("contract_owner"), &s("token"), Some(100_001), None),
        Err(ContractError::Arithmetic(ArithmeticError::Underflow))
    );
    let out = c
        .withdraw(&s("contract_owner"), &s("token"), Some(40_000), Some(s("treasury")))
        .unwrap();
    assert_eq!(
        out,
        vec![Effect::Transfer { token: s("token"), recipient: s("treasury"), amount: 40_000 }]
    );
    let rest = c.withdraw(&s("contract_owner"), &s("token"), None, None).unwrap();
    assert_eq!(
        rest,
        vec![Effect::Transfer { token: s("token"), recipient: s("contract_owner"), amount: 60_000 }]
    );
}

#[test]
fn fees_accrue_per_token() {
    let mut c = linked(1000);
    c.subscribe(&s("protocol"), 0, None).unwrap();
    c.deposit_cw20(NOW, &s("protocol"), &s("h"), &s("a"), 1_000, 0).unwrap();
    c.deposit_cw20(NOW, &s("protocol"), &s("h"), &s("b"), 5_000, 1).unwrap();
    c.deposit_cw20(NOW, &s("protocol"), &s("h"), &s("a"), 2_000, 2).unwrap();
    assert_eq!(c.fee_balance(&s("a")), 300);
    assert_eq!(c.fee_balance(&s("b")), 500);
    assert_eq!(c.fee_balance(&s("c")), 0);
    let a = c.withdraw(&s("contract_owner"), &s("a"), None, None).unwrap();
    let b = c.withdraw(&s("contract_owner"), &s("b"), None, None).unwrap();
    assert_eq!(a, vec![Effect::Transfer { token: s("a"), recipient: s("contract_owner"), amount: 300 }]);
    assert_eq!(b, vec![Effect::Transfer { token: s("b"), recipient: s("contract_owner"), amount: 500 }]);
    assert_eq!(c.fee_balance(&s("a")), 0);
    assert!(c.is_well_formed());
}

#[test]
fn ledger_pages_resume_in_sequence() {
    let mut c = linked(0);
    c.subscribe(&s("protocol"), 1000, None).unwrap();
    for n in 0..5u64 {
        c.deposit_cw20(NOW + n, &s("protocol"), &s("hacker"), &s("token"), 1_000 * (n as u128 + 1), n)
            .unwrap();
    }
    let first = c.hacks_page(0, 2);
    let second = c.hacks_page(2, 2);
    let third = c.hacks_page(4, 2);
    let ids: Vec<u64> = first.iter().chain(second.iter()).chain(third.iter()).map(|h| h.id).collect();
    assert_eq!(ids, vec![0, 1, 2, 3, 4]);
    assert_eq!(third.len(), 1);
    assert_eq!(third[0].total_amount_hacked, 5_000);
    assert_eq!(third[0].bounty, 500);
    assert!(c.hacks_page(5, 10).is_empty());
    assert!(c.hacks_page(u64::MAX, u64::MAX).is_empty());
    assert_eq!(c.hacks_page(1, u64::MAX).len(), 4);
    assert_eq!(c.hacks_by_reporter(&s("hacker"), NOW + 1, NOW + 2).len(), 2);
}
