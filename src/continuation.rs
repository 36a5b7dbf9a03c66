//! Two-phase setup. `instantiate` creates the store and asks the host to
//! instantiate the token-issuing module, registering a pending continuation
//! under a fresh reply id; `reply` later resolves that continuation, binding
//! the module's address into the configuration, or records its failure.
use vstd::prelude::*;
use crate::error::{ContractError, ValidationError};
use crate::msg::{Effect, InstantiateMsg, ReplyOutcome, SubMsgOutcome};
use crate::state::{
    BPS_SCALE, Config, Contract, PendingContinuation, PendingOp, lemma_lookup_pending_at,
};

verus! {

#[verifier::external_type_specification]
#[verifier::external_body]
pub struct ExParseReplyError(cw_utils::ParseReplyError);

/// The contract address that the protobuf `MsgInstantiateContractResponse`
/// encoded in `data` carries, or `None` when `data` does not decode.
pub uninterp spec fn instantiate_reply_address(data: Seq<u8>) -> Option<Seq<char>>;

/// Relies on `cw_utils::parse_instantiate_response_data`, which decodes the
/// response of an instantiation from its protobuf bytes; the outcome depends
/// on the bytes alone.
#[verifier::external_body]
fn decode_instantiate_response(data: &[u8]) -> (r: Result<String, cw_utils::ParseReplyError>)
    ensures
        match r {
            Ok(a) => instantiate_reply_address(data@) == Some(a@),
            Err(_) => instantiate_reply_address(data@) is None,
        },
{
    cw_utils::parse_instantiate_response_data(data).map(|res| res.contract_address)
}

/// The reply id given to the first continuation of a deployment.
pub const FIRST_REPLY_ID: u64 = 1;

/// The continuation was discarded between `s0` and `s1`, and nothing else
/// changed but, possibly, the linked module.
pub open spec fn continuation_discarded(s0: Contract, s1: Contract) -> bool {
    &&& s1.pending@.len() == 0
    &&& s1.next_reply_id == s0.next_reply_id
    &&& s1.subscriptions@ == s0.subscriptions@
    &&& s1.hacks@ == s0.hacks@
    &&& s1.fees@ == s0.fees@
    &&& s1.config.contract_owner == s0.config.contract_owner
    &&& s1.config.protocol_fee_bps == s0.config.protocol_fee_bps
}

/// What binding the module address `decoded` (the decoded reply, `None` when
/// it did not decode) for continuation `id` does to `s0`, leading to `s1` and
/// returning `r`: a non-empty address is linked and the continuation
/// discarded; anything else is a parse error that changes nothing.
pub open spec fn bind_post(
    s0: Contract,
    s1: Contract,
    id: u64,
    decoded: Option<Seq<char>>,
    r: Result<ReplyOutcome, ContractError>,
) -> bool {
    match decoded {
        Some(a) if a.len() > 0 => {
            &&& r matches Ok(ReplyOutcome::Resolved { id: rid, address }) && rid == id && address@ == a
            &&& s1.config.cw721_addr matches Some(m) && m@ == a
            &&& continuation_discarded(s0, s1)
        },
        _ => r == Err::<ReplyOutcome, ContractError>(ContractError::ContinuationParseError { id }) && s1 == s0,
    }
}

/// What a reply under `id` with `result` does to `s0`, leading to `s1` and
/// returning `r`.
pub open spec fn reply_post(
    s0: Contract,
    s1: Contract,
    id: u64,
    result: SubMsgOutcome,
    r: Result<ReplyOutcome, ContractError>,
) -> bool {
    match s0.pending_op(id) {
        None => r == Err::<ReplyOutcome, ContractError>(ContractError::UnknownReplyId { id }) && s1 == s0,
        Some(PendingOp::InstantiateTokenModule) => match result {
            SubMsgOutcome::Failure { reason } => {
                &&& r == Ok::<ReplyOutcome, ContractError>(ReplyOutcome::Failed { id, reason })
                &&& continuation_discarded(s0, s1)
                &&& s1.config.cw721_addr == s0.config.cw721_addr
            },
            SubMsgOutcome::Success { data: None } => bind_post(s0, s1, id, None, r),
            SubMsgOutcome::Success { data: Some(d) } => bind_post(s0, s1, id, instantiate_reply_address(d@), r),
        },
    }
}

/// Once a reply resolves the setup continuation, the configuration names a
/// non-empty module address, the one decoded from that reply; a later reply
/// under the same id is rejected as unknown and leaves the configuration as
/// it was.
pub proof fn lemma_reply_resolves_once(
    s0: Contract,
    s1: Contract,
    s2: Contract,
    id: u64,
    first: SubMsgOutcome,
    second: SubMsgOutcome,
    r1: Result<ReplyOutcome, ContractError>,
    r2: Result<ReplyOutcome, ContractError>,
)
    requires
        s0.wf(),
        reply_post(s0, s1, id, first, r1),
        r1 matches Ok(ReplyOutcome::Resolved { .. }),
        reply_post(s1, s2, id, second, r2),
    ensures
        first matches SubMsgOutcome::Success { data: Some(d) } && s1.config.cw721_addr matches Some(a)
            && a@.len() > 0 && instantiate_reply_address(d@) == Some(a@),
        r2 == Err::<ReplyOutcome, ContractError>(ContractError::UnknownReplyId { id }),
        s2.config == s1.config,
{
    assert(s1.pending_op(id) is None);
}

impl Contract {
    /// Creates the store with `sender` as owner, and asks the host to
    /// instantiate the token-issuing module with `contract_address` as minter.
    pub fn instantiate(sender: &String, contract_address: &String, msg: InstantiateMsg) -> (r: Result<
        (Contract, Vec<Effect>),
        ContractError,
    >)
        ensures
            r is Err <==> msg.protocol_fee_bps > BPS_SCALE,
            r is Err ==> r == Err::<(Contract, Vec<Effect>), ContractError>(
                ContractError::Validation(ValidationError::ProtocolFeeBps),
            ),
            r matches Ok((c, effects)) ==> {
                &&& c.wf()
                &&& c.config.contract_owner@ == sender@
                &&& c.config.protocol_fee_bps == msg.protocol_fee_bps
                &&& c.config.cw721_addr is None
                &&& c.subscriptions@.len() == 0
                &&& c.hacks@.len() == 0
                &&& c.fees@.len() == 0
                &&& c.pending_op(FIRST_REPLY_ID) == Some(PendingOp::InstantiateTokenModule)
                &&& effects@.len() == 1
                &&& effects@[0] matches Effect::InstantiateModule {
                    code_id,
                    admin,
                    label,
                    name,
                    symbol,
                    minter,
                    reply_id,
                } && code_id == msg.cw721_code_id && admin == msg.cw721_admin && label == msg.cw721_label
                    && name == msg.cw721_name && symbol == msg.cw721_symbol && minter@ == contract_address@
                    && reply_id == FIRST_REPLY_ID
            },
    {
        if msg.protocol_fee_bps > BPS_SCALE {
            return Err(ContractError::Validation(ValidationError::ProtocolFeeBps));
        }
        let mut pending: Vec<PendingContinuation> = Vec::new();
        pending.push(PendingContinuation { id: FIRST_REPLY_ID, op: PendingOp::InstantiateTokenModule });
        let c = Contract {
            config: Config {
                contract_owner: sender.clone(),
                protocol_fee_bps: msg.protocol_fee_bps,
                cw721_addr: None,
            },
            subscriptions: Vec::new(),
            hacks: Vec::new(),
            fees: Vec::new(),
            pending,
            next_reply_id: FIRST_REPLY_ID + 1,
        };
        proof {
            lemma_lookup_pending_at(c.pending@, c.next_reply_id, 0);
        }
        let mut effects: Vec<Effect> = Vec::new();
        effects.push(
            Effect::InstantiateModule {
                code_id: msg.cw721_code_id,
                admin: msg.cw721_admin,
                label: msg.cw721_label,
                name: msg.cw721_name,
                symbol: msg.cw721_symbol,
                minter: contract_address.clone(),
                reply_id: FIRST_REPLY_ID,
            },
        );
        Ok((c, effects))
    }

    /// Resolves the pending continuation `id` with the outcome of its sub-call.
    pub fn reply(&mut self, id: u64, result: SubMsgOutcome) -> (r: Result<ReplyOutcome, ContractError>)
        requires
            old(self).wf(),
        ensures
            final(self).wf(),
            reply_post(*old(self), *final(self), id, result, r),
    {
        match self.find_pending(id) {
            None => Err(ContractError::UnknownReplyId { id }),
            Some(i) => {
                proof {
                    lemma_lookup_pending_at(self.pending@, self.next_reply_id, i as int);
                }
                match self.pending[i].op {
                    PendingOp::InstantiateTokenModule => self.handle_cw721_instantiate_reply(id, result),
                }
            },
        }
    }

    /// Completes the instantiation of the token-issuing module: links the
    /// address decoded from a successful reply, or discards the continuation
    /// when the instantiation failed.
    pub fn handle_cw721_instantiate_reply(&mut self, id: u64, result: SubMsgOutcome) -> (r: Result<
        ReplyOutcome,
        ContractError,
    >)
        requires
            old(self).wf(),
            old(self).pending_op(id) == Some(PendingOp::InstantiateTokenModule),
        ensures
            final(self).wf(),
            reply_post(*old(self), *final(self), id, result, r),
    {
        match result {
            SubMsgOutcome::Failure { reason } => {
                self.pending = Vec::new();
                Ok(ReplyOutcome::Failed { id, reason })
            },
            SubMsgOutcome::Success { data: None } => self.bind_module_address(id, None),
            SubMsgOutcome::Success { data: Some(d) } => {
                let decoded = match decode_instantiate_response(d.as_slice()) {
                    Ok(a) => Some(a),
                    Err(_) => None,
                };
                self.bind_module_address(id, decoded)
            },
        }
    }

    /// Links the module address decoded from the reply to continuation `id`
    /// and discards the continuation; an address that is missing or empty is
    /// rejected and changes nothing.
    pub fn bind_module_address(&mut self, id: u64, decoded: Option<String>) -> (r: Result<
        ReplyOutcome,
        ContractError,
    >)
        requires
            old(self).wf(),
            old(self).pending_op(id) == Some(PendingOp::InstantiateTokenModule),
        ensures
            final(self).wf(),
            bind_post(
                *old(self),
                *final(self),
                id,
                match decoded {
                    Some(a) => Some(a@),
                    None => None,
                },
                r,
            ),
    {
        let address = match decoded {
            Some(a) => a,
            None => return Err(ContractError::ContinuationParseError { id }),
        };
        if address.as_str().is_empty() {
            return Err(ContractError::ContinuationParseError { id });
        }
        self.config.cw721_addr = Some(address.clone());
        self.pending = Vec::new();
        Ok(ReplyOutcome::Resolved { id, address })
    }
}

} // verus!
