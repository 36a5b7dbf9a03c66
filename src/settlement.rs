//! The settlement engine: the three-way split of a deposit, the deposit
//! itself, and the withdrawal of accrued protocol fees.
use vstd::prelude::*;
use crate::error::{ArithmeticError, ContractError};
use crate::msg::{Cw20Receive, Effect, ReceiveMsg, is_transfer};
use crate::state::{
    Contract, FeeBalance, Hacks, lemma_fee_frame, lemma_lookup_fee_at,
    lemma_lookup_subscription_at,
};

verus! {

/// How a deposit is divided.
#[derive(Debug, Clone, Copy, PartialEq, Eq, Structural)]
pub struct Split {
    /// Paid to the reporting actor.
    pub bounty: u128,
    /// Retained as protocol fee.
    pub fee: u128,
    /// Returned to the subscription owner.
    pub remainder: u128,
}

/// `floor(amount * bps / 10000)`.
pub open spec fn bps_share(amount: int, bps: int) -> int {
    amount * bps / 10000
}

/// The split of `amount` at the given rates, or the arithmetic failure that
/// prevents it: a product that does not fit in `u128`, or a bounty and fee
/// that together exceed the amount.
pub open spec fn split_of(amount: u128, commission_bps: u16, protocol_fee_bps: u16) -> Result<
    Split,
    ArithmeticError,
> {
    let bounty = bps_share(amount as int, commission_bps as int);
    let fee = bps_share(amount as int, protocol_fee_bps as int);
    if amount * commission_bps > u128::MAX || amount * protocol_fee_bps > u128::MAX {
        Err(ArithmeticError::Overflow)
    } else if bounty + fee > amount {
        Err(ArithmeticError::Underflow)
    } else {
        Ok(Split { bounty: bounty as u128, fee: fee as u128, remainder: (amount - bounty - fee) as u128 })
    }
}

/// Splits `amount` into bounty, protocol fee and remainder, with checked
/// arithmetic throughout.
pub fn split_deposit(amount: u128, commission_bps: u16, protocol_fee_bps: u16) -> (r: Result<
    Split,
    ArithmeticError,
>)
    ensures
        r == split_of(amount, commission_bps, protocol_fee_bps),
        r matches Ok(s) ==> s.bounty + s.fee + s.remainder == amount,
{
    let bounty = match amount.checked_mul(commission_bps as u128) {
        Some(p) => p / 10000,
        None => return Err(ArithmeticError::Overflow),
    };
    let fee = match amount.checked_mul(protocol_fee_bps as u128) {
        Some(p) => p / 10000,
        None => return Err(ArithmeticError::Overflow),
    };
    let rest = match amount.checked_sub(bounty) {
        Some(v) => v,
        None => return Err(ArithmeticError::Underflow),
    };
    let remainder = match rest.checked_sub(fee) {
        Some(v) => v,
        None => return Err(ArithmeticError::Underflow),
    };
    Ok(Split { bounty, fee, remainder })
}

/// When the two rates together stay within 100% and the products fit, the
/// split always exists and its three parts add up to the deposit exactly.
pub proof fn lemma_split_is_exact(amount: u128, commission_bps: u16, protocol_fee_bps: u16)
    requires
        commission_bps + protocol_fee_bps <= 10000,
        amount * commission_bps <= u128::MAX,
        amount * protocol_fee_bps <= u128::MAX,
    ensures
        split_of(amount, commission_bps, protocol_fee_bps) matches Ok(s) && s.bounty + s.fee
            + s.remainder == amount,
{
    let a = amount as int;
    let c = commission_bps as int;
    let f = protocol_fee_bps as int;
    let x = a * c;
    let y = a * f;
    assert(x / 10000 * 10000 <= x) by (nonlinear_arith)
        requires
            x >= 0,
    ;
    assert(y / 10000 * 10000 <= y) by (nonlinear_arith)
        requires
            y >= 0,
    ;
    assert(x + y <= a * 10000) by (nonlinear_arith)
        requires
            x == a * c,
            y == a * f,
            c + f <= 10000,
            a >= 0,
    ;
    assert(x / 10000 + y / 10000 <= a) by (nonlinear_arith)
        requires
            x / 10000 * 10000 <= x,
            y / 10000 * 10000 <= y,
            x + y <= a * 10000,
    ;
}

/// A deposit for a subscribed entity is accepted whenever the two rates
/// together stay within 100%, the amount leaves room for the products, the
/// module is linked, the token count can still grow and the fee balance can
/// absorb the fee; bounty, fee and remainder are then the exact basis-point
/// shares of the amount and add up to it.
pub proof fn lemma_deposit_accepted(s: Contract, entity: Seq<char>, token: Seq<char>, amount: u128, minted: u64)
    requires
        s.wf(),
        s.subscription_of(entity) matches Some(sub) && sub.commission_bps + s.config.protocol_fee_bps <= 10000,
        amount <= u128::MAX / 10000,
        s.config.cw721_addr is Some,
        minted < u64::MAX,
        s.fee_of(token) + bps_share(amount as int, s.config.protocol_fee_bps as int) <= u128::MAX,
    ensures
        deposit_error(s, entity, token, amount, minted) is None,
        ({
            let sub = s.subscription_of(entity)->0;
            let bounty = bps_share(amount as int, sub.commission_bps as int);
            let fee = bps_share(amount as int, s.config.protocol_fee_bps as int);
            &&& split_of(amount, sub.commission_bps, s.config.protocol_fee_bps) == Ok::<Split, ArithmeticError>(
                Split { bounty: bounty as u128, fee: fee as u128, remainder: (amount - bounty - fee) as u128 },
            )
            &&& bounty + fee + (amount - bounty - fee) == amount
            &&& 0 <= amount - bounty - fee
        }),
{
    let sub = s.subscription_of(entity)->0;
    let a = amount as int;
    let c = sub.commission_bps as int;
    let f = s.config.protocol_fee_bps as int;
    assert(a * c <= u128::MAX && a * f <= u128::MAX) by (nonlinear_arith)
        requires
            0 <= a <= u128::MAX / 10000,
            0 <= c <= 10000,
            0 <= f <= 10000,
    ;
    lemma_split_is_exact(amount, sub.commission_bps, s.config.protocol_fee_bps);
}

/// `h` records a settlement of `amount` at `date`, numbered `id`.
pub open spec fn records_settlement(
    h: Hacks,
    id: int,
    date: u64,
    entity: Seq<char>,
    amount: u128,
    bounty: u128,
    hacker: Seq<char>,
) -> bool {
    &&& h.id == id
    &&& h.date == date
    &&& h.contract_exploited@ == entity
    &&& h.total_amount_hacked == amount
    &&& h.bounty == bounty
    &&& h.hacker_addr@ == hacker
}

/// Why a deposit of `amount` in `token` for `entity` is rejected, checked in
/// this order; `None` when it goes through. `minted` is the number of tokens
/// the issuing module has minted so far.
pub open spec fn deposit_error(
    s: Contract,
    entity: Seq<char>,
    token: Seq<char>,
    amount: u128,
    minted: u64,
) -> Option<ContractError> {
    match s.subscription_of(entity) {
        None => Some(ContractError::NotSubscribed),
        Some(sub) => match split_of(amount, sub.commission_bps, s.config.protocol_fee_bps) {
            Err(e) => Some(ContractError::Arithmetic(e)),
            Ok(split) => if s.config.cw721_addr is None {
                Some(ContractError::ModuleNotLinked)
            } else if minted == u64::MAX {
                Some(ContractError::Arithmetic(ArithmeticError::Overflow))
            } else if s.fee_of(token) + split.fee > u128::MAX {
                Some(ContractError::Arithmetic(ArithmeticError::Overflow))
            } else {
                None
            },
        },
    }
}

/// The state `s1` and the effects after an accepted deposit on `s0`.
pub open spec fn deposit_applied(
    s0: Contract,
    s1: Contract,
    now: u64,
    entity: Seq<char>,
    hacker: Seq<char>,
    token: Seq<char>,
    amount: u128,
    minted: u64,
    effects: Seq<Effect>,
) -> bool {
    let sub = s0.subscription_of(entity)->0;
    let split = split_of(amount, sub.commission_bps, s0.config.protocol_fee_bps)->Ok_0;
    let n = s0.hacks@.len();
    &&& s1.config == s0.config
    &&& s1.subscriptions@ == s0.subscriptions@
    &&& s1.pending@ == s0.pending@
    &&& s1.next_reply_id == s0.next_reply_id
    &&& s1.hacks@.len() == n + 1
    &&& s1.hacks@.take(n as int) == s0.hacks@
    &&& records_settlement(s1.hacks@[n as int], n as int, now, entity, amount, split.bounty, hacker)
    &&& s1.fee_of(token) == s0.fee_of(token) + split.fee
    &&& forall|t: Seq<char>| t != token ==> #[trigger] s1.fee_of(t) == s0.fee_of(t)
    &&& effects.len() == 3
    &&& is_transfer(effects[0], token, hacker, split.bounty)
    &&& is_transfer(effects[1], token, sub.subscriber@, split.remainder)
    &&& effects[2] matches Effect::Mint { module, token_id, owner, record } && s0.config.cw721_addr
        == Some(module) && token_id == minted + 1 && owner@ == hacker && record == s1.hacks@[n as int]
}

fn copy_record(h: &Hacks) -> (r: Hacks)
    ensures
        r == *h,
{
    Hacks {
        id: h.id,
        date: h.date,
        contract_exploited: h.contract_exploited.clone(),
        total_amount_hacked: h.total_amount_hacked,
        bounty: h.bounty,
        hacker_addr: h.hacker_addr.clone(),
    }
}

impl Contract {
    /// Settles `amount` of `cw20_addr` returned by `hacker_addr` for the
    /// protected entity `subscriber`: pays the bounty, returns the remainder to
    /// the subscription owner, keeps the protocol fee, appends the settlement
    /// to the ledger and mints a record token to the reporting actor.
    /// `now` is the block time; `minted` the number of tokens minted so far.
    pub fn deposit_cw20(
        &mut self,
        now: u64,
        subscriber: &String,
        hacker_addr: &String,
        cw20_addr: &String,
        amount: u128,
        minted: u64,
    ) -> (r: Result<Vec<Effect>, ContractError>)
        requires
            old(self).wf(),
        ensures
            final(self).wf(),
            match r {
                Err(e) => *final(self) == *old(self) && deposit_error(
                    *old(self),
                    subscriber@,
                    cw20_addr@,
                    amount,
                    minted,
                ) == Some(e),
                Ok(effects) => deposit_error(*old(self), subscriber@, cw20_addr@, amount, minted) is None
                    && deposit_applied(
                    *old(self),
                    *final(self),
                    now,
                    subscriber@,
                    hacker_addr@,
                    cw20_addr@,
                    amount,
                    minted,
                    effects@,
                ),
            },
    {
        let idx = match self.find_subscription(subscriber) {
            Some(i) => i,
            None => return Err(ContractError::NotSubscribed),
        };
        proof {
            lemma_lookup_subscription_at(self.subscriptions@, idx as int);
        }
        let split = match split_deposit(
            amount,
            self.subscriptions[idx].commission_bps,
            self.config.protocol_fee_bps,
        ) {
            Ok(s) => s,
            Err(e) => return Err(ContractError::Arithmetic(e)),
        };
        let module = match &self.config.cw721_addr {
            Some(m) => m.clone(),
            None => return Err(ContractError::ModuleNotLinked),
        };
        let token_id = match minted.checked_add(1) {
            Some(t) => t,
            None => return Err(ContractError::Arithmetic(ArithmeticError::Overflow)),
        };
        let fee_idx = self.find_fee(cw20_addr);
        let accrued = match fee_idx {
            Some(j) => {
                proof {
                    lemma_lookup_fee_at(self.fees@, j as int);
                }
                match self.fees[j].amount.checked_add(split.fee) {
                    Some(v) => v,
                    None => return Err(ContractError::Arithmetic(ArithmeticError::Overflow)),
                }
            },
            None => split.fee,
        };
        let ghost s0 = *self;
        let owner = self.subscriptions[idx].subscriber.clone();
        match fee_idx {
            Some(j) => {
                self.fees.set(j, FeeBalance { token: cw20_addr.clone(), amount: accrued });
            },
            None => {
                self.fees.push(FeeBalance { token: cw20_addr.clone(), amount: accrued });
            },
        }
        proof {
            assert(crate::state::distinct_tokens(self.fees@));
            lemma_fee_frame(s0.fees@, self.fees@, cw20_addr@);
            let k = match fee_idx {
                Some(j) => j as int,
                None => s0.fees@.len() as int,
            };
            lemma_lookup_fee_at(self.fees@, k);
        }
        let record = Hacks {
            id: self.hacks.len() as u64,
            date: now,
            contract_exploited: subscriber.clone(),
            total_amount_hacked: amount,
            bounty: split.bounty,
            hacker_addr: hacker_addr.clone(),
        };
        let snapshot = copy_record(&record);
        self.hacks.push(record);
        proof {
            assert(self.hacks@.take(s0.hacks@.len() as int) =~= s0.hacks@);
        }
        let mut effects: Vec<Effect> = Vec::new();
        effects.push(
            Effect::Transfer {
                token: cw20_addr.clone(),
                recipient: hacker_addr.clone(),
                amount: split.bounty,
            },
        );
        effects.push(
            Effect::Transfer { token: cw20_addr.clone(), recipient: owner, amount: split.remainder },
        );
        effects.push(
            Effect::Mint { module, token_id, owner: hacker_addr.clone(), record: snapshot },
        );
        Ok(effects)
    }

    /// Handles a deposit notification from the fungible-token module
    /// `cw20_addr`: the sender is the reporting actor and the attached payload
    /// names the protected entity.
    pub fn handle_receive_cw20(&mut self, now: u64, cw20_addr: &String, receive: &Cw20Receive, minted: u64) -> (r:
        Result<Vec<Effect>, ContractError>)
        requires
            old(self).wf(),
        ensures
            final(self).wf(),
            match receive.msg {
                ReceiveMsg::DepositCw20 { subscriber } => match r {
                    Err(e) => *final(self) == *old(self) && deposit_error(
                        *old(self),
                        subscriber@,
                        cw20_addr@,
                        receive.amount,
                        minted,
                    ) == Some(e),
                    Ok(effects) => deposit_error(
                        *old(self),
                        subscriber@,
                        cw20_addr@,
                        receive.amount,
                        minted,
                    ) is None && deposit_applied(
                        *old(self),
                        *final(self),
                        now,
                        subscriber@,
                        receive.sender@,
                        cw20_addr@,
                        receive.amount,
                        minted,
                        effects@,
                    ),
                },
            },
    {
        match &receive.msg {
            ReceiveMsg::DepositCw20 { subscriber } => self.deposit_cw20(
                now,
                subscriber,
                &receive.sender,
                cw20_addr,
                receive.amount,
                minted,
            ),
        }
    }
}

/// The amount a withdrawal of `amount` in `token` resolves to: all accrued
/// fees of that token when no amount is given.
pub open spec fn withdrawal_amount(s: Contract, token: Seq<char>, amount: Option<u128>) -> u128 {
    match amount {
        Some(a) => a,
        None => s.fee_of(token),
    }
}

/// Why a withdrawal is rejected, checked in this order; `None` when it goes
/// through.
pub open spec fn withdraw_error(s: Contract, caller: Seq<char>, token: Seq<char>, amount: Option<u128>) -> Option<
    ContractError,
> {
    let resolved = withdrawal_amount(s, token, amount);
    if caller != s.config.contract_owner@ {
        Some(ContractError::Unauthorized)
    } else if resolved == 0 {
        Some(ContractError::NothingToWithdraw)
    } else if resolved > s.fee_of(token) {
        Some(ContractError::Arithmetic(ArithmeticError::Underflow))
    } else {
        None
    }
}

/// A withdrawal of nothing is rejected for the owner, and any withdrawal by
/// someone else is rejected as unauthorized.
pub proof fn lemma_withdraw_guards(s: Contract, token: Seq<char>, caller: Seq<char>, amount: Option<u128>)
    ensures
        withdraw_error(s, s.config.contract_owner@, token, Some(0u128)) == Some(ContractError::NothingToWithdraw),
        caller != s.config.contract_owner@ ==> withdraw_error(s, caller, token, amount) == Some(
            ContractError::Unauthorized,
        ),
{
}

impl Contract {
    /// Protocol fees accrued in `cw20_addr` and not yet withdrawn.
    pub fn fee_balance(&self, cw20_addr: &String) -> (r: u128)
        requires
            self.wf(),
        ensures
            r == self.fee_of(cw20_addr@),
    {
        match self.find_fee(cw20_addr) {
            Some(j) => {
                proof {
                    lemma_lookup_fee_at(self.fees@, j as int);
                }
                self.fees[j].amount
            },
            None => 0,
        }
    }

    /// Pays accrued protocol fees of `cw20_addr` out to `recipient`, or to the
    /// owner when no recipient is given. Reserved to the owner.
    pub fn withdraw(
        &mut self,
        caller: &String,
        cw20_addr: &String,
        amount: Option<u128>,
        recipient: Option<String>,
    ) -> (r: Result<Vec<Effect>, ContractError>)
        requires
            old(self).wf(),
        ensures
            final(self).wf(),
            match r {
                Err(e) => *final(self) == *old(self) && withdraw_error(*old(self), caller@, cw20_addr@, amount)
                    == Some(e),
                Ok(effects) => {
                    let resolved = withdrawal_amount(*old(self), cw20_addr@, amount);
                    let to = match recipient {
                        Some(a) => a@,
                        None => old(self).config.contract_owner@,
                    };
                    &&& withdraw_error(*old(self), caller@, cw20_addr@, amount) is None
                    &&& effects@.len() == 1
                    &&& is_transfer(effects@[0], cw20_addr@, to, resolved)
                    &&& final(self).fee_of(cw20_addr@) == old(self).fee_of(cw20_addr@) - resolved
                    &&& forall|t: Seq<char>| t != cw20_addr@ ==> #[trigger] final(self).fee_of(t) == old(self).fee_of(t)
                    &&& final(self).config == old(self).config
                    &&& final(self).subscriptions@ == old(self).subscriptions@
                    &&& final(self).hacks@ == old(self).hacks@
                    &&& final(self).pending@ == old(self).pending@
                    &&& final(self).next_reply_id == old(self).next_reply_id
                },
            },
    {
        if *caller != self.config.contract_owner {
            return Err(ContractError::Unauthorized);
        }
        let fee_idx = self.find_fee(cw20_addr);
        let accrued = match fee_idx {
            Some(j) => {
                proof {
                    lemma_lookup_fee_at(self.fees@, j as int);
                }
                self.fees[j].amount
            },
            None => 0,
        };
        let resolved = match amount {
            Some(a) => a,
            None => accrued,
        };
        if resolved == 0 {
            return Err(ContractError::NothingToWithdraw);
        }
        if resolved > accrued {
            return Err(ContractError::Arithmetic(ArithmeticError::Underflow));
        }
        let j = match fee_idx {
            Some(j) => j,
            None => return Err(ContractError::Arithmetic(ArithmeticError::Underflow)),
        };
        let ghost s0 = *self;
        self.fees.set(j, FeeBalance { token: cw20_addr.clone(), amount: accrued - resolved });
        proof {
            assert(crate::state::distinct_tokens(self.fees@));
            lemma_fee_frame(s0.fees@, self.fees@, cw20_addr@);
            lemma_lookup_fee_at(self.fees@, j as int);
        }
        let to = match recipient {
            Some(a) => a,
            None => self.config.contract_owner.clone(),
        };
        let mut effects: Vec<Effect> = Vec::new();
        effects.push(Effect::Transfer { token: cw20_addr.clone(), recipient: to, amount: resolved });
        Ok(effects)
    }
}

} // verus!
