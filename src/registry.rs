//! The subscription registry. An entity registers itself: the caller of
//! `subscribe` is both the protected entity and the owner of the
//! subscription, so ownership can never pass to anyone else.
use vstd::prelude::*;
use crate::error::{ContractError, ValidationError};
use crate::msg::{SubscriptionResponse, SubscriptionsResponse};
use crate::order::{KeyOrder, compare_keys, key_lt, lemma_key_lt_transitive};
use crate::state::{
    BPS_SCALE, Contract, Subscriptions, lemma_lookup_subscription_at, lookup_subscription,
    sorted_by_subscriber,
};

verus! {

/// `s` holds the given terms for `entity`, which also owns it.
pub open spec fn holds_terms(
    s: Option<Subscriptions>,
    entity: Seq<char>,
    commission_bps: u16,
    min_bounty: Option<u128>,
) -> bool {
    s matches Some(sub) && sub.subscriber@ == entity && sub.commission_bps == commission_bps
        && sub.min_bounty == min_bounty
}

/// Every part of the store but the subscriptions is the same in `s0` and `s1`.
pub open spec fn same_but_subscriptions(s0: Contract, s1: Contract) -> bool {
    &&& s1.config == s0.config
    &&& s1.hacks@ == s0.hacks@
    &&& s1.fees@ == s0.fees@
    &&& s1.pending@ == s0.pending@
    &&& s1.next_reply_id == s0.next_reply_id
}

/// Only the subscription of `entity` may differ between `s0` and `s1`.
pub open spec fn others_unchanged(s0: Contract, s1: Contract, entity: Seq<char>) -> bool {
    forall|e: Seq<char>| e != entity ==> #[trigger] s1.subscription_of(e) == s0.subscription_of(e)
}

/// Lookups of other entities survive a change at one position of the
/// sequence: `new` is `old` with position `i` of `old` replaced (`shift == 0`),
/// a new entry placed before it (`shift == 1`), or removed (`shift == -1`).
proof fn lemma_lookup_frame(
    old: Seq<Subscriptions>,
    new: Seq<Subscriptions>,
    entity: Seq<char>,
    i: int,
    shift: int,
)
    requires
        sorted_by_subscriber(old),
        sorted_by_subscriber(new),
        -1 <= shift <= 1,
        0 <= i <= old.len(),
        new.len() == old.len() + shift,
        shift <= 0 ==> i < old.len() && old[i].subscriber@ == entity,
        forall|k: int| 0 <= k < i ==> #[trigger] new[k] == old[k],
        forall|k: int| i < k < old.len() ==> #[trigger] new[k + shift] == old[k],
        shift == 1 ==> forall|k: int| i <= k < old.len() ==> #[trigger] new[k + 1] == old[k],
        shift >= 0 ==> new[i].subscriber@ == entity,
    ensures
        forall|e: Seq<char>| e != entity ==> #[trigger] lookup_subscription(new, e) == lookup_subscription(old, e),
{
    assert forall|e: Seq<char>| e != entity implies #[trigger] lookup_subscription(new, e)
        == lookup_subscription(old, e) by {
        if exists|k: int| 0 <= k < old.len() && #[trigger] old[k].subscriber@ == e {
            let k = choose|k: int| 0 <= k < old.len() && #[trigger] old[k].subscriber@ == e;
            lemma_lookup_subscription_at(old, k);
            if k < i {
                lemma_lookup_subscription_at(new, k);
            } else if k == i {
                assert(shift == 1);
                assert(new[k + 1] == old[k]);
                lemma_lookup_subscription_at(new, k + 1);
            } else if shift == 1 {
                assert(new[k + 1] == old[k]);
                lemma_lookup_subscription_at(new, k + 1);
            } else {
                assert(new[k + shift] == old[k]);
                lemma_lookup_subscription_at(new, k + shift);
            }
        } else {
            assert forall|j: int| 0 <= j < new.len() implies #[trigger] new[j].subscriber@ != e by {
                if j < i {
                    assert(new[j] == old[j]);
                } else if j == i && shift >= 0 {
                } else if shift == 1 {
                    assert(new[(j - 1) + 1] == old[j - 1]);
                } else {
                    assert(new[(j - shift) + shift] == old[j - shift]);
                }
            }
        }
    }
}

impl Contract {
    /// Registers the caller as a protected entity with the given commission,
    /// or replaces the terms it already holds.
    pub fn subscribe(&mut self, caller: &String, commission_bps: u16, min_bounty: Option<u128>) -> (r:
        Result<(), ContractError>)
        requires
            old(self).wf(),
        ensures
            final(self).wf(),
            r is Ok <==> commission_bps <= BPS_SCALE,
            r is Err ==> r == Err::<(), ContractError>(
                ContractError::Validation(ValidationError::CommissionBps),
            ) && *final(self) == *old(self),
            r is Ok ==> {
                &&& holds_terms(final(self).subscription_of(caller@), caller@, commission_bps, min_bounty)
                &&& others_unchanged(*old(self), *final(self), caller@)
                &&& same_but_subscriptions(*old(self), *final(self))
            },
    {
        if commission_bps > BPS_SCALE {
            return Err(ContractError::Validation(ValidationError::CommissionBps));
        }
        let ghost old_subs = self.subscriptions@;
        let entry = Subscriptions { subscriber: caller.clone(), commission_bps, min_bounty };
        let mut i: usize = 0;
        while i < self.subscriptions.len()
            invariant
                self.wf(),
                self.subscriptions@ == old_subs,
                *self == *old(self),
                entry.subscriber@ == caller@,
                entry.commission_bps == commission_bps <= BPS_SCALE,
                entry.min_bounty == min_bounty,
                i <= old_subs.len(),
                forall|j: int| 0 <= j < i ==> key_lt(#[trigger] old_subs[j].subscriber@, caller@),
            decreases old_subs.len() - i,
        {
            match compare_keys(self.subscriptions[i].subscriber.as_str(), caller.as_str()) {
                KeyOrder::Less => {
                    i = i + 1;
                },
                KeyOrder::Equal => {
                    self.subscriptions.set(i, entry);
                    proof {
                        let new = self.subscriptions@;
                        assert forall|k: int| 0 <= k < new.len() - 1 implies #[trigger] key_lt(
                            new[k].subscriber@,
                            new[k + 1].subscriber@,
                        ) by {
                            assert(key_lt(old_subs[k].subscriber@, old_subs[k + 1].subscriber@));
                        }
                        lemma_lookup_frame(old_subs, new, caller@, i as int, 0);
                        lemma_lookup_subscription_at(new, i as int);
                    }
                    return Ok(());
                },
                KeyOrder::Greater => {
                    self.subscriptions.insert(i, entry);
                    proof {
                        let new = self.subscriptions@;
                        assert forall|k: int| 0 <= k < new.len() - 1 implies #[trigger] key_lt(
                            new[k].subscriber@,
                            new[k + 1].subscriber@,
                        ) by {
                            if k + 1 < i {
                                assert(key_lt(old_subs[k].subscriber@, old_subs[k + 1].subscriber@));
                            } else if k + 1 == i {
                            } else if k == i {
                            } else {
                                assert(key_lt(old_subs[k - 1].subscriber@, old_subs[(k - 1) + 1].subscriber@));
                            }
                        }
                        lemma_lookup_frame(old_subs, new, caller@, i as int, 1);
                        lemma_lookup_subscription_at(new, i as int);
                    }
                    return Ok(());
                },
            }
        }
        self.subscriptions.push(entry);
        proof {
            let new = self.subscriptions@;
            assert forall|k: int| 0 <= k < new.len() - 1 implies #[trigger] key_lt(
                new[k].subscriber@,
                new[k + 1].subscriber@,
            ) by {
                if k + 1 < i {
                    assert(key_lt(old_subs[k].subscriber@, old_subs[k + 1].subscriber@));
                }
            }
            lemma_lookup_frame(old_subs, new, caller@, i as int, 1);
            lemma_lookup_subscription_at(new, i as int);
        }
        Ok(())
    }

    /// Changes the commission of the subscription of `subscriber`, and with it
    /// the advertised minimum bounty when one is given. Only its owner may do
    /// so, and only with a commission that differs from the current one.
    pub fn update_subscription(
        &mut self,
        caller: &String,
        subscriber: &String,
        new_commission_bps: Option<u16>,
        new_min_bounty: Option<u128>,
    ) -> (r: Result<(), ContractError>)
        requires
            old(self).wf(),
        ensures
            final(self).wf(),
            r is Err ==> *final(self) == *old(self),
            match old(self).subscription_of(subscriber@) {
                None => r == Err::<(), ContractError>(ContractError::NotSubscribed),
                Some(sub) => {
                    let bps = match new_commission_bps {
                        Some(b) => b,
                        None => sub.commission_bps,
                    };
                    let min = match new_min_bounty {
                        Some(m) => Some(m),
                        None => sub.min_bounty,
                    };
                    if caller@ != sub.subscriber@ {
                        r == Err::<(), ContractError>(ContractError::Unauthorized)
                    } else if new_commission_bps is None || bps == sub.commission_bps {
                        r == Err::<(), ContractError>(ContractError::NothingToUpdate)
                    } else if bps > BPS_SCALE {
                        r == Err::<(), ContractError>(
                            ContractError::Validation(ValidationError::CommissionBps),
                        )
                    } else {
                        &&& r is Ok
                        &&& holds_terms(final(self).subscription_of(subscriber@), subscriber@, bps, min)
                        &&& others_unchanged(*old(self), *final(self), subscriber@)
                        &&& same_but_subscriptions(*old(self), *final(self))
                    }
                },
            },
    {
        let i = match self.find_subscription(subscriber) {
            Some(i) => i,
            None => return Err(ContractError::NotSubscribed),
        };
        proof {
            lemma_lookup_subscription_at(self.subscriptions@, i as int);
        }
        let current = &self.subscriptions[i];
        if *caller != current.subscriber {
            return Err(ContractError::Unauthorized);
        }
        let bps = match new_commission_bps {
            Some(b) => b,
            None => return Err(ContractError::NothingToUpdate),
        };
        if bps == current.commission_bps {
            return Err(ContractError::NothingToUpdate);
        }
        let min = match new_min_bounty {
            Some(m) => Some(m),
            None => current.min_bounty,
        };
        if bps > BPS_SCALE {
            return Err(ContractError::Validation(ValidationError::CommissionBps));
        }
        let ghost old_subs = self.subscriptions@;
        let entry = Subscriptions { subscriber: subscriber.clone(), commission_bps: bps, min_bounty: min };
        self.subscriptions.set(i, entry);
        proof {
            let new = self.subscriptions@;
            assert forall|k: int| 0 <= k < new.len() - 1 implies #[trigger] key_lt(
                new[k].subscriber@,
                new[k + 1].subscriber@,
            ) by {
                assert(key_lt(old_subs[k].subscriber@, old_subs[k + 1].subscriber@));
            }
            lemma_lookup_frame(old_subs, new, subscriber@, i as int, 0);
            lemma_lookup_subscription_at(new, i as int);
        }
        Ok(())
    }

    /// Removes the subscription of `subscriber`. Only its owner may do so;
    /// removing a subscription that does not exist succeeds and changes nothing.
    pub fn unsubscribe(&mut self, caller: &String, subscriber: &String) -> (r: Result<(), ContractError>)
        requires
            old(self).wf(),
        ensures
            final(self).wf(),
            r is Err ==> *final(self) == *old(self),
            match old(self).subscription_of(subscriber@) {
                None => r is Ok && *final(self) == *old(self),
                Some(sub) => if caller@ != sub.subscriber@ {
                    r == Err::<(), ContractError>(ContractError::Unauthorized)
                } else {
                    &&& r is Ok
                    &&& final(self).subscription_of(subscriber@) is None
                    &&& others_unchanged(*old(self), *final(self), subscriber@)
                    &&& same_but_subscriptions(*old(self), *final(self))
                },
            },
    {
        let i = match self.find_subscription(subscriber) {
            Some(i) => i,
            None => return Ok(()),
        };
        proof {
            lemma_lookup_subscription_at(self.subscriptions@, i as int);
        }
        if *caller != self.subscriptions[i].subscriber {
            return Err(ContractError::Unauthorized);
        }
        let ghost old_subs = self.subscriptions@;
        self.subscriptions.remove(i);
        proof {
            let new = self.subscriptions@;
            assert forall|k: int| 0 <= k < new.len() - 1 implies #[trigger] key_lt(
                new[k].subscriber@,
                new[k + 1].subscriber@,
            ) by {
                if k + 1 < i {
                    assert(key_lt(old_subs[k].subscriber@, old_subs[k + 1].subscriber@));
                } else if k + 1 == i {
                    assert(key_lt(old_subs[k].subscriber@, old_subs[k + 1].subscriber@));
                    assert(key_lt(old_subs[k + 1].subscriber@, old_subs[k + 2].subscriber@));
                    lemma_key_lt_transitive(
                        old_subs[k].subscriber@,
                        old_subs[k + 1].subscriber@,
                        old_subs[k + 2].subscriber@,
                    );
                } else {
                    assert(key_lt(old_subs[k + 1].subscriber@, old_subs[(k + 1) + 1].subscriber@));
                }
            }
            lemma_lookup_frame(old_subs, new, subscriber@, i as int, -1);
            assert forall|j: int| 0 <= j < new.len() implies #[trigger] new[j].subscriber@ != subscriber@ by {
                if j < i {
                    crate::state::lemma_sorted_distinct(old_subs, j, i as int);
                } else {
                    crate::state::lemma_sorted_distinct(old_subs, j + 1, i as int);
                }
            }
        }
        Ok(())
    }

    /// The terms held by `protected_addr`.
    pub fn subscriber(&self, protected_addr: &String) -> (r: Result<SubscriptionResponse, ContractError>)
        requires
            self.wf(),
        ensures
            match self.subscription_of(protected_addr@) {
                None => r == Err::<SubscriptionResponse, ContractError>(ContractError::NotSubscribed),
                Some(sub) => r == Ok::<SubscriptionResponse, ContractError>(
                    SubscriptionResponse { commission_bps: sub.commission_bps, min_bounty: sub.min_bounty },
                ),
            },
    {
        match self.find_subscription(protected_addr) {
            Some(i) => {
                proof {
                    lemma_lookup_subscription_at(self.subscriptions@, i as int);
                }
                Ok(
                    SubscriptionResponse {
                        commission_bps: self.subscriptions[i].commission_bps,
                        min_bounty: self.subscriptions[i].min_bounty,
                    },
                )
            },
            None => Err(ContractError::NotSubscribed),
        }
    }

    /// Every subscription, by entity in ascending order.
    pub fn subscriptions(&self) -> (r: Vec<SubscriptionsResponse>)
        requires
            self.wf(),
        ensures
            r@.len() == self.subscriptions@.len(),
            forall|i: int|
                0 <= i < r@.len() ==> {
                    &&& #[trigger] r@[i].subscriber@ == self.subscriptions@[i].subscriber@
                    &&& r@[i].commission_bps == self.subscriptions@[i].commission_bps
                    &&& r@[i].min_bounty == self.subscriptions@[i].min_bounty
                    &&& self.subscription_of(r@[i].subscriber@) == Some(self.subscriptions@[i])
                },
            forall|i: int, j: int|
                0 <= i < j < r@.len() ==> key_lt(#[trigger] r@[i].subscriber@, #[trigger] r@[j].subscriber@),
    {
        let mut out: Vec<SubscriptionsResponse> = Vec::new();
        let mut i: usize = 0;
        while i < self.subscriptions.len()
            invariant
                self.wf(),
                i <= self.subscriptions@.len(),
                out@.len() == i,
                forall|k: int|
                    0 <= k < i ==> {
                        &&& #[trigger] out@[k].subscriber@ == self.subscriptions@[k].subscriber@
                        &&& out@[k].commission_bps == self.subscriptions@[k].commission_bps
                        &&& out@[k].min_bounty == self.subscriptions@[k].min_bounty
                    },
            decreases self.subscriptions@.len() - i,
        {
            let s = &self.subscriptions[i];
            out.push(
                SubscriptionsResponse {
                    subscriber: s.subscriber.clone(),
                    commission_bps: s.commission_bps,
                    min_bounty: s.min_bounty,
                },
            );
            i = i + 1;
        }
        proof {
            assert forall|k: int| 0 <= k < out@.len() implies self.subscription_of(
                #[trigger] out@[k].subscriber@,
            ) == Some(self.subscriptions@[k]) by {
                lemma_lookup_subscription_at(self.subscriptions@, k);
            }
            assert forall|a: int, b: int| 0 <= a < b < out@.len() implies key_lt(
                #[trigger] out@[a].subscriber@,
                #[trigger] out@[b].subscriber@,
            ) by {
                crate::state::lemma_sorted_all_pairs(self.subscriptions@, a, b);
            }
        }
        out
    }
}

} // verus!
