//! Values exchanged with the host: setup parameters, hook payloads, replies,
//! the effects an operation asks the host to dispatch, and query answers.
use vstd::prelude::*;
use crate::state::Hacks;

verus! {

/// Parameters of the setup operation. The token-issuing module is
/// instantiated from `cw721_code_id` with this deployment as its minter.
#[derive(Debug, Clone, PartialEq, Eq)]
pub struct InstantiateMsg {
    pub protocol_fee_bps: u16,
    pub cw721_code_id: u64,
    pub cw721_name: String,
    pub cw721_symbol: String,
    pub cw721_label: String,
    pub cw721_admin: Option<String>,
}

/// Payload attached by the reporting actor to a deposit of fungible tokens.
#[derive(Debug, Clone, PartialEq, Eq)]
pub enum ReceiveMsg {
    /// Names the protected entity whose funds are being returned.
    DepositCw20 { subscriber: String },
}

/// A deposit notification from a fungible-token module: `sender` moved
/// `amount` tokens to this deployment with `msg` attached.
#[derive(Debug, Clone, PartialEq, Eq)]
pub struct Cw20Receive {
    pub sender: String,
    pub amount: u128,
    pub msg: ReceiveMsg,
}

/// How a dispatched sub-call ended, as the host reports it in a reply.
#[derive(Debug, Clone, PartialEq, Eq)]
pub enum SubMsgOutcome {
    /// The sub-call succeeded; `data` is its raw response, if any.
    Success { data: Option<Vec<u8>> },
    /// The sub-call failed for the given reason.
    Failure { reason: String },
}

/// A request that an operation hands to the host for dispatch.
#[derive(Debug, Clone, PartialEq, Eq)]
pub enum Effect {
    /// Move `amount` of the fungible token `token` to `recipient`.
    Transfer { token: String, recipient: String, amount: u128 },
    /// Mint token `token_id` on the issuing module `module` to `owner`,
    /// with the settlement `record` as its metadata.
    Mint { module: String, token_id: u64, owner: String, record: Hacks },
    /// Instantiate the token-issuing module and reply under `reply_id`.
    InstantiateModule {
        code_id: u64,
        admin: Option<String>,
        label: String,
        name: String,
        symbol: String,
        minter: String,
        reply_id: u64,
    },
}

/// What a handled reply did to the pending continuation.
#[derive(Debug, Clone, PartialEq, Eq)]
pub enum ReplyOutcome {
    /// The module at `address` is now linked.
    Resolved { id: u64, address: String },
    /// The sub-call failed; the continuation was discarded and not retried.
    Failed { id: u64, reason: String },
}

#[derive(Debug, Clone, PartialEq, Eq)]
pub struct ConfigResponse {
    pub contract_owner: String,
    pub protocol_fee_bps: u16,
    pub cw721_addr: Option<String>,
}

#[derive(Debug, Clone, PartialEq, Eq)]
pub struct SubscriptionResponse {
    pub commission_bps: u16,
    pub min_bounty: Option<u128>,
}

#[derive(Debug, Clone, PartialEq, Eq)]
pub struct SubscriptionsResponse {
    pub subscriber: String,
    pub commission_bps: u16,
    pub min_bounty: Option<u128>,
}

#[derive(Debug, Clone, PartialEq, Eq)]
pub struct HacksResponse {
    pub id: u64,
    pub date: u64,
    pub contract_exploited: String,
    pub total_amount_hacked: u128,
    pub bounty: u128,
    pub hacker_addr: String,
}

/// `e` is a transfer of `amount` of `token` to `recipient`.
pub open spec fn is_transfer(e: Effect, token: Seq<char>, recipient: Seq<char>, amount: u128) -> bool {
    e matches Effect::Transfer { token: t, recipient: r, amount: a } && t@ == token && r@ == recipient
        && a == amount
}

} // verus!
