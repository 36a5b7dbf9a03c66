//! The audit ledger: settlements in sequence order, and the secondary view
//! by reporting actor and time.
use vstd::prelude::*;
use crate::msg::HacksResponse;
use crate::state::{Contract, Hacks};

verus! {

/// `r` reports the ledger record `h`.
pub open spec fn reports(r: HacksResponse, h: Hacks) -> bool {
    &&& r.id == h.id
    &&& r.date == h.date
    &&& r.contract_exploited@ == h.contract_exploited@
    &&& r.total_amount_hacked == h.total_amount_hacked
    &&& r.bounty == h.bounty
    &&& r.hacker_addr@ == h.hacker_addr@
}

/// `h` was reported by `hacker` at a time in `since..=until`.
pub open spec fn reported_between(h: Hacks, hacker: Seq<char>, since: u64, until: u64) -> bool {
    h.hacker_addr@ == hacker && since <= h.date <= until
}

fn report(h: &Hacks) -> (r: HacksResponse)
    ensures
        reports(r, *h),
{
    HacksResponse {
        id: h.id,
        date: h.date,
        contract_exploited: h.contract_exploited.clone(),
        total_amount_hacked: h.total_amount_hacked,
        bounty: h.bounty,
        hacker_addr: h.hacker_addr.clone(),
    }
}

impl Contract {
    /// Every settlement, in ascending sequence order.
    pub fn hacks(&self) -> (r: Vec<HacksResponse>)
        requires
            self.wf(),
        ensures
            r@.len() == self.hacks@.len(),
            forall|i: int| 0 <= i < r@.len() ==> #[trigger] reports(r@[i], self.hacks@[i]) && r@[i].id == i,
    {
        let mut out: Vec<HacksResponse> = Vec::new();
        let mut i: usize = 0;
        while i < self.hacks.len()
            invariant
                self.wf(),
                i <= self.hacks@.len(),
                out@.len() == i,
                forall|k: int| 0 <= k < i ==> #[trigger] reports(out@[k], self.hacks@[k]),
            decreases self.hacks@.len() - i,
        {
            out.push(report(&self.hacks[i]));
            i = i + 1;
        }
        out
    }

    /// The settlements of reporting actor `hacker_addr` made between `since`
    /// and `until` inclusive, in ascending sequence order.
    pub fn hacks_by_reporter(&self, hacker_addr: &String, since: u64, until: u64) -> (r: Vec<HacksResponse>)
        requires
            self.wf(),
        ensures
            forall|i: int|
                0 <= i < r@.len() ==> {
                    &&& 0 <= #[trigger] r@[i].id < self.hacks@.len()
                    &&& reports(r@[i], self.hacks@[r@[i].id as int])
                    &&& reported_between(self.hacks@[r@[i].id as int], hacker_addr@, since, until)
                },
            forall|i: int, j: int| 0 <= i < j < r@.len() ==> #[trigger] r@[i].id < #[trigger] r@[j].id,
            forall|k: int|
                0 <= k < self.hacks@.len() && reported_between(#[trigger] self.hacks@[k], hacker_addr@, since, until)
                    ==> exists|i: int| 0 <= i < r@.len() && #[trigger] r@[i].id == k,
    {
        let mut out: Vec<HacksResponse> = Vec::new();
        let mut k: usize = 0;
        while k < self.hacks.len()
            invariant
                self.wf(),
                k <= self.hacks@.len(),
                forall|i: int|
                    0 <= i < out@.len() ==> {
                        &&& 0 <= #[trigger] out@[i].id < k
                        &&& reports(out@[i], self.hacks@[out@[i].id as int])
                        &&& reported_between(self.hacks@[out@[i].id as int], hacker_addr@, since, until)
                    },
                forall|i: int, j: int| 0 <= i < j < out@.len() ==> #[trigger] out@[i].id < #[trigger] out@[j].id,
                forall|m: int|
                    0 <= m < k && reported_between(#[trigger] self.hacks@[m], hacker_addr@, since, until)
                        ==> exists|i: int| 0 <= i < out@.len() && #[trigger] out@[i].id == m,
            decreases self.hacks@.len() - k,
        {
            let h = &self.hacks[k];
            if h.hacker_addr == *hacker_addr && since <= h.date && h.date <= until {
                let ghost before = out@;
                out.push(report(h));
                proof {
                    assert(out@[out@.len() - 1].id == k);
                    assert forall|m: int|
                        0 <= m < k + 1 && reported_between(#[trigger] self.hacks@[m], hacker_addr@, since, until)
                            implies exists|i: int| 0 <= i < out@.len() && #[trigger] out@[i].id == m by {
                        if m < k {
                            let i = choose|i: int| 0 <= i < before.len() && #[trigger] before[i].id == m;
                            assert(out@[i] == before[i]);
                        } else {
                            assert(out@[out@.len() - 1].id == m);
                        }
                    }
                }
            }
            k = k + 1;
        }
        out
    }

    /// At most `limit` settlements starting at sequence number `start`, in
    /// ascending sequence order; resuming at `start + limit` continues the
    /// listing where this page ended.
    pub fn hacks_page(&self, start: u64, limit: u64) -> (r: Vec<HacksResponse>)
        requires
            self.wf(),
        ensures
            r@.len() == if start >= self.hacks@.len() {
                0
            } else {
                vstd::math::min(limit as int, self.hacks@.len() - start)
            },
            forall|i: int|
                0 <= i < r@.len() ==> #[trigger] reports(r@[i], self.hacks@[start + i]) && r@[i].id == start + i,
    {
        let mut out: Vec<HacksResponse> = Vec::new();
        let n: usize = self.hacks.len();
        if start >= n as u64 {
            return out;
        }
        let first: usize = start as usize;
        let end: usize = if limit < (n - first) as u64 {
            first + limit as usize
        } else {
            n
        };
        let mut k: usize = first;
        while k < end
            invariant
                self.wf(),
                n == self.hacks@.len(),
                first == start,
                first <= k <= end <= n,
                out@.len() == k - first,
                forall|i: int| 0 <= i < out@.len() ==> #[trigger] reports(out@[i], self.hacks@[first + i]),
            decreases end - k,
        {
            out.push(report(&self.hacks[k]));
            proof {
                assert(self.hacks@[first + (k - first)] == self.hacks@[k as int]);
            }
            k = k + 1;
        }
        proof {
            assert forall|i: int| 0 <= i < out@.len() implies #[trigger] out@[i].id == start + i by {
                assert(reports(out@[i], self.hacks@[first + i]));
                assert(self.hacks@[first + i].id == first + i);
            }
        }
        out
    }
}

} // verus!
