//! The store: configuration, subscriptions, the audit ledger, accrued fees and
//! pending continuations, with the invariant that every operation keeps.
use vstd::prelude::*;
use crate::order::{KeyOrder, compare_keys, key_lt, lemma_key_lt_irreflexive, lemma_key_lt_transitive};

verus! {

/// Largest rate in basis points: 100%.
pub const BPS_SCALE: u16 = 10000;

/// Singleton configuration.
#[derive(Debug, Clone, PartialEq, Eq)]
pub struct Config {
    pub contract_owner: String,
    /// Protocol fee in basis points, at most `BPS_SCALE`.
    pub protocol_fee_bps: u16,
    /// Address of the linked token-issuing module; `None` until the setup
    /// continuation resolves.
    pub cw721_addr: Option<String>,
}

/// Commission terms of one protected entity. The entity is also the owner of
/// its subscription and receives what is left of each deposit.
#[derive(Debug, Clone, PartialEq, Eq)]
pub struct Subscriptions {
    pub subscriber: String,
    /// Share of a deposit paid as bounty, in basis points.
    pub commission_bps: u16,
    /// Minimum bounty the entity advertises; recorded, not applied.
    pub min_bounty: Option<u128>,
}

/// One settlement, as recorded in the audit ledger. Never changed once written.
#[derive(Debug, Clone, PartialEq, Eq)]
pub struct Hacks {
    /// Sequence number: the position of the record in the ledger.
    pub id: u64,
    /// Block time of the deposit, in seconds.
    pub date: u64,
    /// The protected entity whose funds were recovered.
    pub contract_exploited: String,
    pub total_amount_hacked: u128,
    pub bounty: u128,
    /// The reporting actor, who received the bounty.
    pub hacker_addr: String,
}

/// Protocol fees accrued in one fungible token.
#[derive(Debug, Clone, PartialEq, Eq)]
pub struct FeeBalance {
    pub token: String,
    pub amount: u128,
}

/// What a pending continuation is waiting for.
#[derive(Debug, Clone, Copy, PartialEq, Eq, Structural)]
pub enum PendingOp {
    /// Instantiation of the token-issuing module.
    InstantiateTokenModule,
}

/// A sub-call awaiting its reply, correlated by the id chosen when it was
/// dispatched.
#[derive(Debug, Clone, PartialEq, Eq)]
pub struct PendingContinuation {
    pub id: u64,
    pub op: PendingOp,
}

/// The whole persistent state of one deployment.
#[derive(Debug, Clone, PartialEq, Eq)]
pub struct Contract {
    pub config: Config,
    /// Ordered by `key_lt` on the entity, strictly increasing.
    pub subscriptions: Vec<Subscriptions>,
    /// `hacks[i].id == i`.
    pub hacks: Vec<Hacks>,
    /// At most one balance per token.
    pub fees: Vec<FeeBalance>,
    /// Distinct ids, all below `next_reply_id`. Setup is the only operation
    /// that waits for a reply, so at most one continuation is pending.
    pub pending: Vec<PendingContinuation>,
    pub next_reply_id: u64,
}

/// Each entity sorts strictly before the next one.
pub open spec fn sorted_by_subscriber(s: Seq<Subscriptions>) -> bool {
    forall|i: int| 0 <= i < s.len() - 1 ==> #[trigger] key_lt(s[i].subscriber@, s[i + 1].subscriber@)
}

pub open spec fn distinct_tokens(f: Seq<FeeBalance>) -> bool {
    forall|i: int, j: int|
        0 <= i < f.len() && 0 <= j < f.len() && i != j ==> #[trigger] f[i].token@ != #[trigger] f[j].token@
}

pub open spec fn distinct_ids_below(p: Seq<PendingContinuation>, bound: u64) -> bool {
    &&& forall|i: int| 0 <= i < p.len() ==> #[trigger] p[i].id < bound
    &&& forall|i: int, j: int|
        0 <= i < p.len() && 0 <= j < p.len() && i != j ==> #[trigger] p[i].id != #[trigger] p[j].id
}

pub open spec fn ledger_numbered(h: Seq<Hacks>) -> bool {
    forall|i: int| 0 <= i < h.len() ==> #[trigger] h[i].id == i
}

/// The subscription of `entity`, if it holds one.
pub open spec fn lookup_subscription(s: Seq<Subscriptions>, entity: Seq<char>) -> Option<Subscriptions> {
    if exists|i: int| 0 <= i < s.len() && #[trigger] s[i].subscriber@ == entity {
        Some(s[choose|i: int| 0 <= i < s.len() && #[trigger] s[i].subscriber@ == entity])
    } else {
        None
    }
}

/// Fees accrued in `token`.
pub open spec fn lookup_fee(f: Seq<FeeBalance>, token: Seq<char>) -> u128 {
    if exists|i: int| 0 <= i < f.len() && #[trigger] f[i].token@ == token {
        f[choose|i: int| 0 <= i < f.len() && #[trigger] f[i].token@ == token].amount
    } else {
        0
    }
}

/// The pending continuation with this id, if there is one.
pub open spec fn lookup_pending(p: Seq<PendingContinuation>, id: u64) -> Option<PendingOp> {
    if exists|i: int| 0 <= i < p.len() && #[trigger] p[i].id == id {
        Some(p[choose|i: int| 0 <= i < p.len() && #[trigger] p[i].id == id].op)
    } else {
        None
    }
}

impl Contract {
    /// The invariant: rates within range, a linked module only once setup is
    /// over, subscriptions sorted by entity, the ledger numbered by position,
    /// one fee balance per token, and at most one pending continuation.
    pub open spec fn wf(&self) -> bool {
        &&& self.config.protocol_fee_bps <= BPS_SCALE
        &&& (self.config.cw721_addr matches Some(a) ==> a@.len() > 0 && self.pending@.len() == 0)
        &&& sorted_by_subscriber(self.subscriptions@)
        &&& forall|i: int|
            0 <= i < self.subscriptions@.len() ==> #[trigger] self.subscriptions@[i].commission_bps
                <= BPS_SCALE
        &&& ledger_numbered(self.hacks@)
        &&& distinct_tokens(self.fees@)
        &&& self.pending@.len() <= 1
        &&& distinct_ids_below(self.pending@, self.next_reply_id)
    }

    pub open spec fn subscription_of(&self, entity: Seq<char>) -> Option<Subscriptions> {
        lookup_subscription(self.subscriptions@, entity)
    }

    pub open spec fn fee_of(&self, token: Seq<char>) -> u128 {
        lookup_fee(self.fees@, token)
    }

    pub open spec fn pending_op(&self, id: u64) -> Option<PendingOp> {
        lookup_pending(self.pending@, id)
    }
}

/// A sequence sorted pair by pair is sorted across any two positions.
pub proof fn lemma_sorted_all_pairs(s: Seq<Subscriptions>, i: int, j: int)
    requires
        sorted_by_subscriber(s),
        0 <= i < j < s.len(),
    ensures
        key_lt(s[i].subscriber@, s[j].subscriber@),
    decreases j - i,
{
    if j > i + 1 {
        lemma_sorted_all_pairs(s, i, j - 1);
        let m = j - 1;
        assert(key_lt(s[m].subscriber@, s[m + 1].subscriber@));
        lemma_key_lt_transitive(s[i].subscriber@, s[j - 1].subscriber@, s[j].subscriber@);
    }
}

/// In a sorted sequence, an entity sits at one position at most.
pub proof fn lemma_sorted_distinct(s: Seq<Subscriptions>, i: int, j: int)
    requires
        sorted_by_subscriber(s),
        0 <= i < s.len(),
        0 <= j < s.len(),
        i != j,
    ensures
        s[i].subscriber@ != s[j].subscriber@,
{
    if i < j {
        lemma_sorted_all_pairs(s, i, j);
    } else {
        lemma_sorted_all_pairs(s, j, i);
    }
    lemma_key_lt_irreflexive(s[i].subscriber@);
}

/// The subscription found at a position is the one that the lookup returns.
pub proof fn lemma_lookup_subscription_at(s: Seq<Subscriptions>, i: int)
    requires
        sorted_by_subscriber(s),
        0 <= i < s.len(),
    ensures
        lookup_subscription(s, s[i].subscriber@) == Some(s[i]),
{
    let e = s[i].subscriber@;
    assert(0 <= i < s.len() && s[i].subscriber@ == e);
    assert forall|k: int| 0 <= k < s.len() && #[trigger] s[k].subscriber@ == e implies k == i by {
        if k != i {
            lemma_sorted_distinct(s, k, i);
        }
    }
}

pub proof fn lemma_lookup_fee_at(f: Seq<FeeBalance>, i: int)
    requires
        distinct_tokens(f),
        0 <= i < f.len(),
    ensures
        lookup_fee(f, f[i].token@) == f[i].amount,
{
    let t = f[i].token@;
    assert(exists|k: int| 0 <= k < f.len() && #[trigger] f[k].token@ == t);
}

pub proof fn lemma_lookup_pending_at(p: Seq<PendingContinuation>, bound: u64, i: int)
    requires
        distinct_ids_below(p, bound),
        0 <= i < p.len(),
    ensures
        lookup_pending(p, p[i].id) == Some(p[i].op),
{
    let id = p[i].id;
    assert(exists|k: int| 0 <= k < p.len() && #[trigger] p[k].id == id);
}

/// Rewriting or adding the balance of `token` leaves every other balance alone.
pub proof fn lemma_fee_frame(old: Seq<FeeBalance>, new: Seq<FeeBalance>, token: Seq<char>)
    requires
        distinct_tokens(old),
        distinct_tokens(new),
        old.len() <= new.len(),
        forall|i: int| 0 <= i < old.len() ==> #[trigger] new[i].token@ == old[i].token@,
        forall|i: int| 0 <= i < old.len() && old[i].token@ != token ==> #[trigger] new[i] == old[i],
        forall|i: int| old.len() <= i < new.len() ==> #[trigger] new[i].token@ == token,
    ensures
        forall|t: Seq<char>| t != token ==> #[trigger] lookup_fee(new, t) == lookup_fee(old, t),
{
    assert forall|t: Seq<char>| t != token implies #[trigger] lookup_fee(new, t) == lookup_fee(old, t) by {
        if exists|i: int| 0 <= i < old.len() && #[trigger] old[i].token@ == t {
            let i = choose|i: int| 0 <= i < old.len() && #[trigger] old[i].token@ == t;
            lemma_lookup_fee_at(old, i);
            lemma_lookup_fee_at(new, i);
        } else {
            assert forall|i: int| 0 <= i < new.len() implies #[trigger] new[i].token@ != t by {
                if i < old.len() {
                    assert(old[i].token@ != t);
                }
            }
        }
    }
}

impl Contract {
    /// Checks the invariant, for a store that was read back from storage.
    pub fn is_well_formed(&self) -> (b: bool)
        ensures
            b == self.wf(),
    {
        if self.config.protocol_fee_bps > BPS_SCALE {
            return false;
        }
        match &self.config.cw721_addr {
            Some(a) => {
                if a.as_str().is_empty() || self.pending.len() != 0 {
                    return false;
                }
            },
            None => {},
        }
        if self.pending.len() > 1 {
            return false;
        }
        if self.pending.len() == 1 && self.pending[0].id >= self.next_reply_id {
            return false;
        }
        let n = self.subscriptions.len();
        let mut i: usize = 0;
        while i < n
            invariant
                n == self.subscriptions@.len(),
                i <= n,
                forall|k: int| 0 <= k < i ==> #[trigger] self.subscriptions@[k].commission_bps <= BPS_SCALE,
                forall|k: int|
                    0 <= k < i && k + 1 < n ==> #[trigger] key_lt(
                        self.subscriptions@[k].subscriber@,
                        self.subscriptions@[k + 1].subscriber@,
                    ),
            decreases n - i,
        {
            if self.subscriptions[i].commission_bps > BPS_SCALE {
                return false;
            }
            if i + 1 < n {
                match compare_keys(
                    self.subscriptions[i].subscriber.as_str(),
                    self.subscriptions[i + 1].subscriber.as_str(),
                ) {
                    KeyOrder::Less => {},
                    _ => {
                        proof {
                            lemma_key_lt_irreflexive(self.subscriptions@[i as int].subscriber@);
                        }
                        return false;
                    },
                }
            }
            i = i + 1;
        }
        let mut h: usize = 0;
        while h < self.hacks.len()
            invariant
                h <= self.hacks@.len(),
                forall|k: int| 0 <= k < h ==> #[trigger] self.hacks@[k].id == k,
            decreases self.hacks@.len() - h,
        {
            if self.hacks[h].id != h as u64 {
                return false;
            }
            h = h + 1;
        }
        let m = self.fees.len();
        let mut a: usize = 0;
        while a < m
            invariant
                m == self.fees@.len(),
                a <= m,
                forall|x: int, y: int|
                    0 <= x < a && 0 <= y < m && x != y ==> #[trigger] self.fees@[x].token@
                        != #[trigger] self.fees@[y].token@,
            decreases m - a,
        {
            let mut b: usize = 0;
            while b < m
                invariant
                    m == self.fees@.len(),
                    a < m,
                    b <= m,
                    forall|x: int, y: int|
                        0 <= x < a && 0 <= y < m && x != y ==> #[trigger] self.fees@[x].token@
                            != #[trigger] self.fees@[y].token@,
                    forall|y: int| 0 <= y < b && y != a ==> self.fees@[a as int].token@ != #[trigger] self.fees@[y].token@,
                decreases m - b,
            {
                if b != a && self.fees[a].token == self.fees[b].token {
                    return false;
                }
                b = b + 1;
            }
            a = a + 1;
        }
        true
    }
}

impl Contract {
    /// Position of the subscription of `entity`.
    pub fn find_subscription(&self, entity: &String) -> (r: Option<usize>)
        ensures
            r matches Some(i) ==> i < self.subscriptions@.len() && self.subscriptions@[i as int].subscriber@
                == entity@,
            r is None ==> forall|i: int|
                0 <= i < self.subscriptions@.len() ==> #[trigger] self.subscriptions@[i].subscriber@
                    != entity@,
    {
        let mut i: usize = 0;
        while i < self.subscriptions.len()
            invariant
                i <= self.subscriptions@.len(),
                forall|j: int| 0 <= j < i ==> #[trigger] self.subscriptions@[j].subscriber@ != entity@,
            decreases self.subscriptions@.len() - i,
        {
            if self.subscriptions[i].subscriber == *entity {
                return Some(i);
            }
            i = i + 1;
        }
        None
    }

    /// Position of the fee balance of `token`.
    pub fn find_fee(&self, token: &String) -> (r: Option<usize>)
        ensures
            r matches Some(i) ==> i < self.fees@.len() && self.fees@[i as int].token@ == token@,
            r is None ==> forall|i: int| 0 <= i < self.fees@.len() ==> #[trigger] self.fees@[i].token@ != token@,
    {
        let mut i: usize = 0;
        while i < self.fees.len()
            invariant
                i <= self.fees@.len(),
                forall|j: int| 0 <= j < i ==> #[trigger] self.fees@[j].token@ != token@,
            decreases self.fees@.len() - i,
        {
            if self.fees[i].token == *token {
                return Some(i);
            }
            i = i + 1;
        }
        None
    }

    /// Position of the pending continuation `id`.
    pub fn find_pending(&self, id: u64) -> (r: Option<usize>)
        ensures
            r matches Some(i) ==> i < self.pending@.len() && self.pending@[i as int].id == id,
            r is None ==> forall|i: int| 0 <= i < self.pending@.len() ==> #[trigger] self.pending@[i].id != id,
    {
        let mut i: usize = 0;
        while i < self.pending.len()
            invariant
                i <= self.pending@.len(),
                forall|j: int| 0 <= j < i ==> #[trigger] self.pending@[j].id != id,
            decreases self.pending@.len() - i,
        {
            if self.pending[i].id == id {
                return Some(i);
            }
            i = i + 1;
        }
        None
    }
}

} // verus!
