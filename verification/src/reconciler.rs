//! The backstop sweep: promotes pending deposits whose confirmation policy is
//! met and funnels them into the same crediting pipeline.
//!
//! A time-based policy ("confirmed once it has sat long enough") mirrors the
//! manual reporting flow's placeholder and weakens trust — a fabricated
//! report would be credited once it ages. A deployment that cannot observe
//! finality should prefer the confirmation-count policy fed by a listener and
//! leave manual reports pending until verified out of band.

use vstd::prelude::*;

use crate::error::ApiError;
use crate::ledger::deposit_pos;
use crate::ledger::lemma_deposit_pos;
use crate::store::Deposit;
use crate::store::DepositStatus;
use crate::store::Store;
use crate::store::has_deposit;

verus! {

/// When a pending deposit counts as confirmed.
#[derive(Clone, Copy, Debug, PartialEq, Eq, Structural)]
pub enum ConfirmPolicy {
    /// Promote once more than this many seconds have passed since the report.
    AfterSeconds(i64),
    /// Promote once the listener has reported at least this many confirmations.
    MinConfirmations(u32),
}

/// Whether a deposit meets the policy at a given time.
pub open spec fn policy_met(dep: Deposit, policy: ConfirmPolicy, now: i64) -> bool {
    match policy {
        ConfirmPolicy::AfterSeconds(wait) => now - dep.created_at > wait,
        ConfirmPolicy::MinConfirmations(min) => dep.confirmations >= min,
    }
}

/// A pending deposit that the sweep will promote.
pub open spec fn due(dep: Deposit, policy: ConfirmPolicy, now: i64) -> bool {
    dep.status is Pending && policy_met(dep, policy, now)
}

/// Statuses move forward only: pending, then confirmed, then credited.
pub open spec fn status_le(a: DepositStatus, b: DepositStatus) -> bool {
    match a {
        DepositStatus::Pending => true,
        DepositStatus::Confirmed => !(b is Pending),
        DepositStatus::Credited => b is Credited,
    }
}

/// What the sweep does to one deposit row: identity fields never change,
/// the status only moves forward, a due row is promoted out of pending, and
/// a row that was not due stays intact.
pub open spec fn swept_row(pre: Deposit, post: Deposit, policy: ConfirmPolicy, now: i64) -> bool {
    &&& post.id == pre.id
    &&& post.account_id@ == pre.account_id@
    &&& post.chain == pre.chain
    &&& post.tx_hash@ == pre.tx_hash@
    &&& post.asset@ == pre.asset@
    &&& post.amount == pre.amount
    &&& post.created_at == pre.created_at
    &&& status_le(pre.status, post.status)
    &&& due(pre, policy, now) ==> !(post.status is Pending)
    &&& !due(pre, policy, now) ==> post == pre
}

/// How many of the first `k` rows a sweep newly credited.
pub open spec fn newly_credited(pre: Seq<Deposit>, post: Seq<Deposit>, k: int) -> int
    decreases k,
{
    if k <= 0 {
        0
    } else {
        newly_credited(pre, post, k - 1) + if !(pre[k - 1].status is Credited) && post[k
            - 1].status is Credited {
            1int
        } else {
            0
        }
    }
}

/// The count over a prefix ignores rows past the prefix.
proof fn lemma_newly_credited_frozen(
    base: Seq<Deposit>,
    before: Seq<Deposit>,
    after: Seq<Deposit>,
    i: int,
)
    requires
        forall|k: int| 0 <= k < i ==> before[k] == after[k],
    ensures
        newly_credited(base, before, i) == newly_credited(base, after, i),
    decreases i,
{
    if i > 0 {
        lemma_newly_credited_frozen(base, before, after, i - 1);
    }
}

/// Everything `confirm_deposit` promises.
pub open spec fn confirm_result(
    pre: Store,
    post: Store,
    deposit_id: u64,
    r: Result<(), ApiError>,
) -> bool {
    if !has_deposit(pre.deposits@, deposit_id) {
        &&& r is Err
        &&& r->Err_0 is NotFound
        &&& post == pre
    } else {
        let i = deposit_pos(pre.deposits@, deposit_id);
        let dep = pre.deposits@[i];
        if !(dep.status is Pending) {
            &&& r is Err
            &&& r->Err_0 is InvalidRequest
            &&& r->Err_0->InvalidRequest_0@ == "deposit not pending"@
            &&& post == pre
        } else {
            &&& r is Ok
            &&& post.deposits@.len() == pre.deposits@.len()
            &&& forall|j: int|
                0 <= j < pre.deposits@.len() && j != i ==> post.deposits@[j] == pre.deposits@[j]
            &&& post.deposits@[i].id == dep.id
            &&& post.deposits@[i].account_id@ == dep.account_id@
            &&& post.deposits@[i].chain == dep.chain
            &&& post.deposits@[i].tx_hash@ == dep.tx_hash@
            &&& post.deposits@[i].asset@ == dep.asset@
            &&& post.deposits@[i].amount == dep.amount
            &&& post.deposits@[i].status is Confirmed
            &&& post.deposits@[i].confirmations == 1
            &&& post.deposits@[i].block_number == dep.block_number
            &&& crate::ledger::opt_str_is(
                post.deposits@[i].from_address,
                crate::ledger::view_opt_string(dep.from_address),
            )
            &&& crate::ledger::opt_str_is(
                post.deposits@[i].to_address,
                crate::ledger::view_opt_string(dep.to_address),
            )
            &&& post.deposits@[i].created_at == dep.created_at
            &&& post.deposits@[i].credited_at == dep.credited_at
            &&& post.addresses == pre.addresses
            &&& post.ledger == pre.ledger
            &&& post.balances == pre.balances
            &&& post.cursors == pre.cursors
            &&& post.next_deposit_id == pre.next_deposit_id
        }
    }
}

/// A deposit's status never moves backward under crediting: every row's
/// status after a `credit_deposit` call, successful or not, is at or past
/// where it was.
pub proof fn lemma_credit_moves_forward(
    pre: Store,
    post: Store,
    deposit_id: u64,
    now: i64,
    r: Result<(), ApiError>,
)
    requires
        crate::ledger::credit_result(pre, post, deposit_id, now, r),
    ensures
        post.deposits@.len() == pre.deposits@.len(),
        forall|k: int|
            0 <= k < pre.deposits@.len() ==> status_le(
                (#[trigger] pre.deposits@[k]).status,
                post.deposits@[k].status,
            ),
{
    assert forall|k: int|
        0 <= k < pre.deposits@.len() implies status_le(
        (#[trigger] pre.deposits@[k]).status,
        post.deposits@[k].status,
    ) by {
        assert(status_le(pre.deposits@[k].status, pre.deposits@[k].status));
    }
}

/// A deposit's status never moves backward under confirmation either.
pub proof fn lemma_confirm_moves_forward(
    pre: Store,
    post: Store,
    deposit_id: u64,
    r: Result<(), ApiError>,
)
    requires
        confirm_result(pre, post, deposit_id, r),
    ensures
        post.deposits@.len() == pre.deposits@.len(),
        forall|k: int|
            0 <= k < pre.deposits@.len() ==> status_le(
                (#[trigger] pre.deposits@[k]).status,
                post.deposits@[k].status,
            ),
{
    assert forall|k: int|
        0 <= k < pre.deposits@.len() implies status_le(
        (#[trigger] pre.deposits@[k]).status,
        post.deposits@[k].status,
    ) by {
        assert(status_le(pre.deposits@[k].status, pre.deposits@[k].status));
    }
}

impl Store {
    /// Promote one pending deposit to confirmed with one confirmation.
    /// A missing or non-pending deposit is rejected untouched.
    pub fn confirm_deposit(&mut self, deposit_id: u64) -> (r: Result<(), ApiError>)
        requires
            old(self).wf(),
        ensures
            final(self).wf(),
            confirm_result(*old(self), *final(self), deposit_id, r),
    {
        let j: usize = match self.find_deposit_index_pub(deposit_id) {
            Some(j) => j,
            None => {
                return Err(ApiError::NotFound);
            },
        };
        proof {
            assert(has_deposit(self.deposits@, deposit_id));
            lemma_deposit_pos(self.deposits@, deposit_id);
            let p = deposit_pos(self.deposits@, deposit_id);
            if p < j {
                assert(self.deposits@[p].id != deposit_id);
            }
            if p > j {
                assert(self.deposits@[j as int].id < self.deposits@[p].id);
            }
            assert(p == j);
        }
        let status = self.deposits[j].status;
        match status {
            DepositStatus::Pending => {},
            _ => {
                return Err(ApiError::InvalidRequest("deposit not pending".to_owned()));
            },
        }
        let row = &self.deposits[j];
        let updated = Deposit {
            id: row.id,
            account_id: row.account_id.clone(),
            chain: row.chain,
            tx_hash: row.tx_hash.clone(),
            asset: row.asset.clone(),
            amount: row.amount,
            status: DepositStatus::Confirmed,
            confirmations: 1,
            block_number: row.block_number,
            from_address: match &row.from_address {
                Some(a) => Some(a.clone()),
                None => None,
            },
            to_address: match &row.to_address {
                Some(a) => Some(a.clone()),
                None => None,
            },
            created_at: row.created_at,
            credited_at: row.credited_at,
        };
        vstd::pervasive::VecAdditionalExecFns::set(&mut self.deposits, j, updated);
        proof {
            let pre = *old(self);
            let post = *self;
            let i = j as int;
            assert forall|k: int|
                0 <= k < post.deposits@.len() implies #[trigger] post.deposits@[k].id
                == pre.deposits@[k].id && post.deposits@[k].tx_hash@ == pre.deposits@[k].tx_hash@
                && post.deposits@[k].amount == pre.deposits@[k].amount && (
            post.deposits@[k].status is Credited <==> pre.deposits@[k].status is Credited) by {
                if k != i {
                    assert(post.deposits@[k] == pre.deposits@[k]);
                }
            }
            assert forall|k: int|
                0 <= k < post.ledger@.len() && #[trigger] post.ledger@[k].deposit_id is Some
                implies has_deposit(post.deposits@, post.ledger@[k].deposit_id->0) by {
                if post.ledger@[k].deposit_id is Some {
                    let x = post.ledger@[k].deposit_id->0;
                    let w = choose|w: int|
                        0 <= w < pre.deposits@.len() && pre.deposits@[w].id == x;
                    assert(post.deposits@[w].id == x);
                }
            }
        }
        Ok(())
    }

    /// Index of the deposit carrying an id, if any.
    #[verifier::loop_isolation(false)]
    pub fn find_deposit_index_pub(&self, deposit_id: u64) -> (r: Option<usize>)
        ensures
            r is Some ==> r->0 < self.deposits@.len() && self.deposits@[r->0 as int].id
                == deposit_id,
            r is None ==> !has_deposit(self.deposits@, deposit_id),
    {
        let n = self.deposits.len();
        let mut j: usize = 0;
        while j < n
            invariant
                j <= n,
                forall|k: int| 0 <= k < j ==> self.deposits@[k].id != deposit_id,
            decreases n - j,
        {
            if self.deposits[j].id == deposit_id {
                return Some(j);
            }
            j += 1;
        }
        None
    }

    /// Sweep all deposits: confirm and credit every pending deposit that
    /// meets the policy at `now`. Returns how many were credited this pass;
    /// a deposit whose credit would overflow the balance is left confirmed.
    pub fn sweep_pending(&mut self, policy: ConfirmPolicy, now: i64) -> (credited: u64)
        requires
            old(self).wf(),
        ensures
            final(self).wf(),
            final(self).deposits@.len() == old(self).deposits@.len(),
            forall|k: int|
                0 <= k < old(self).deposits@.len() ==> swept_row(
                    #[trigger] old(self).deposits@[k],
                    final(self).deposits@[k],
                    policy,
                    now,
                ),
            credited == newly_credited(
                old(self).deposits@,
                final(self).deposits@,
                old(self).deposits@.len() as int,
            ),
    {
        let n = self.deposits.len();
        let mut credited: u64 = 0;
        let mut i: usize = 0;
        while i < n
            invariant
                i <= n,
                n == self.deposits@.len(),
                self.wf(),
                n == old(self).deposits@.len(),
                forall|k: int|
                    0 <= k < i ==> swept_row(
                        #[trigger] old(self).deposits@[k],
                        self.deposits@[k],
                        policy,
                        now,
                    ),
                forall|k: int| i <= k < n ==> self.deposits@[k] == old(self).deposits@[k],
                credited == newly_credited(old(self).deposits@, self.deposits@, i as int),
                credited <= i,
            decreases n - i,
        {
            let ghost before = self.deposits@;
            let is_due: bool = self.deposits[i].status == DepositStatus::Pending && match policy {
                ConfirmPolicy::AfterSeconds(wait) => (now as i128) - (self.deposits[i].created_at
                    as i128) > (wait as i128),
                ConfirmPolicy::MinConfirmations(min) => self.deposits[i].confirmations >= min,
            };
            proof {
                assert(is_due == due(self.deposits@[i as int], policy, now));
            }
            let mut did_credit: bool = false;
            if is_due {
                let id = self.deposits[i].id;
                let ghost s0 = *self;
                let confirm_r = self.confirm_deposit(id);
                proof {
                    lemma_deposit_pos(s0.deposits@, id);
                    let p = deposit_pos(s0.deposits@, id);
                    if p < i {
                        assert(s0.deposits@[p].id < s0.deposits@[i as int].id);
                    }
                    if p > i {
                        assert(s0.deposits@[i as int].id < s0.deposits@[p].id);
                    }
                    assert(p == i);
                }
                let ghost s1 = *self;
                let credit_r = self.credit_deposit(id, now);
                proof {
                    assert(s1.deposits@[i as int].id == id);
                    lemma_deposit_pos(s1.deposits@, id);
                    let p = deposit_pos(s1.deposits@, id);
                    if p < i {
                        assert(s1.deposits@[p].id < s1.deposits@[i as int].id);
                    }
                    if p > i {
                        assert(s1.deposits@[i as int].id < s1.deposits@[p].id);
                    }
                    assert(p == i);
                }
                match credit_r {
                    Ok(()) => {
                        did_credit = true;
                    },
                    Err(_) => {},
                }
            }
            proof {
                assert forall|k: int| 0 <= k < n && k != i implies self.deposits@[k]
                    == before[k] by {}
                lemma_newly_credited_frozen(
                    old(self).deposits@,
                    before,
                    self.deposits@,
                    i as int,
                );
                assert(did_credit <==> (!(old(self).deposits@[i as int].status is Credited)
                    && self.deposits@[i as int].status is Credited));
            }
            if did_credit {
                credited += 1;
            }
            i += 1;
        }
        credited
    }
}

} // verus!
