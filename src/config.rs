//! The configuration store: owner and protocol fee, and the query over them.
use vstd::prelude::*;
use crate::error::{ContractError, ValidationError};
use crate::msg::ConfigResponse;
use crate::state::{BPS_SCALE, Config, Contract};

verus! {

/// The identity named by an optional new owner.
pub open spec fn owner_view(o: Option<String>) -> Option<Seq<char>> {
    match o {
        Some(s) => Some(s@),
        None => None,
    }
}

/// The owner and fee that an update of `cfg` by `caller` leads to, or why it
/// is rejected, checked in this order. An absent value keeps the current one.
pub open spec fn config_update(
    cfg: Config,
    caller: Seq<char>,
    new_owner: Option<Seq<char>>,
    new_fee_bps: Option<u16>,
) -> Result<(Seq<char>, u16), ContractError> {
    let owner = match new_owner {
        Some(o) => o,
        None => cfg.contract_owner@,
    };
    let fee = match new_fee_bps {
        Some(f) => f,
        None => cfg.protocol_fee_bps,
    };
    if caller != cfg.contract_owner@ {
        Err(ContractError::Unauthorized)
    } else if owner == cfg.contract_owner@ && fee == cfg.protocol_fee_bps {
        Err(ContractError::NothingToUpdate)
    } else if fee > BPS_SCALE {
        Err(ContractError::Validation(ValidationError::ProtocolFeeBps))
    } else {
        Ok((owner, fee))
    }
}

/// An update by the owner that names the current owner and the current fee
/// is rejected as having nothing to update.
pub proof fn lemma_identical_update_rejected(cfg: Config)
    ensures
        config_update(cfg, cfg.contract_owner@, Some(cfg.contract_owner@), Some(cfg.protocol_fee_bps))
            == Err::<(Seq<char>, u16), ContractError>(ContractError::NothingToUpdate),
{
}

impl Contract {
    /// Replaces the owner and/or the protocol fee. Reserved to the owner.
    pub fn update_config(
        &mut self,
        caller: &String,
        new_contract_owner: Option<String>,
        new_protocol_fee_bps: Option<u16>,
    ) -> (r: Result<(), ContractError>)
        requires
            old(self).wf(),
        ensures
            final(self).wf(),
            match config_update(old(self).config, caller@, owner_view(new_contract_owner), new_protocol_fee_bps) {
                Err(e) => r == Err::<(), ContractError>(e) && *final(self) == *old(self),
                Ok((owner, fee)) => {
                    &&& r is Ok
                    &&& final(self).config.contract_owner@ == owner
                    &&& final(self).config.protocol_fee_bps == fee
                    &&& final(self).config.cw721_addr == old(self).config.cw721_addr
                    &&& final(self).subscriptions@ == old(self).subscriptions@
                    &&& final(self).hacks@ == old(self).hacks@
                    &&& final(self).fees@ == old(self).fees@
                    &&& final(self).pending@ == old(self).pending@
                    &&& final(self).next_reply_id == old(self).next_reply_id
                },
            },
    {
        if *caller != self.config.contract_owner {
            return Err(ContractError::Unauthorized);
        }
        let fee = match new_protocol_fee_bps {
            Some(f) => f,
            None => self.config.protocol_fee_bps,
        };
        let owner = match new_contract_owner {
            Some(o) => o,
            None => self.config.contract_owner.clone(),
        };
        if owner == self.config.contract_owner && fee == self.config.protocol_fee_bps {
            return Err(ContractError::NothingToUpdate);
        }
        if fee > BPS_SCALE {
            return Err(ContractError::Validation(ValidationError::ProtocolFeeBps));
        }
        self.config.contract_owner = owner;
        self.config.protocol_fee_bps = fee;
        Ok(())
    }

    /// The current configuration.
    pub fn config(&self) -> (r: ConfigResponse)
        ensures
            r.contract_owner@ == self.config.contract_owner@,
            r.protocol_fee_bps == self.config.protocol_fee_bps,
            r.cw721_addr == self.config.cw721_addr,
    {
        ConfigResponse {
            contract_owner: self.config.contract_owner.clone(),
            protocol_fee_bps: self.config.protocol_fee_bps,
            cw721_addr: self.config.cw721_addr.clone(),
        }
    }
}

} // verus!
