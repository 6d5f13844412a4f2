//! The crediting pipeline: reported deposits enter once, and each deposit
//! changes the balance exactly once.
//!
//! `record_deposit` is the single entry point for new deposits; the store's
//! hash-uniqueness invariant is the storage-level constraint that makes the
//! duplicate check race-free in this owned-state model. `credit_deposit`
//! turns a confirmed deposit into a balance change, a ledger entry, and the
//! `Credited` status in one step over the owned state: every failure leaves
//! the store exactly as it was.

use vstd::prelude::*;

use crate::crypto::str_eq;
use crate::error::ApiError;
use crate::store::AccountBalance;
use crate::store::Chain;
use crate::store::Deposit;
use crate::store::DepositStatus;
use crate::store::EntryType;
use crate::store::LedgerEntry;
use crate::store::Store;
use crate::store::bal_of;
use crate::store::entry_count;
use crate::store::has_bal_row;
use crate::store::has_deposit;
use crate::store::sum_for;
use crate::store::chain_name;
use crate::store::tx_exists;
use crate::text::dec_str;
use crate::text::u64_to_string;
use vstd::string::StringExecFns;
use crate::store::wf_ledger;

verus! {

/// Position of the deposit with an id; meaningful when `has_deposit` holds.
pub open spec fn deposit_pos(d: Seq<Deposit>, id: u64) -> int
    decreases d.len(),
{
    if d.len() == 0 {
        0
    } else if d[0].id == id {
        0
    } else {
        1 + deposit_pos(d.drop_first(), id)
    }
}

/// When a deposit with the id exists, `deposit_pos` finds it.
pub proof fn lemma_deposit_pos(d: Seq<Deposit>, id: u64)
    requires
        has_deposit(d, id),
    ensures
        0 <= deposit_pos(d, id) < d.len(),
        d[deposit_pos(d, id)].id == id,
    decreases d.len(),
{
    if d.len() > 0 && d[0].id != id {
        assert(has_deposit(d.drop_first(), id)) by {
            let i = choose|i: int| 0 <= i < d.len() && d[i].id == id;
            assert(d.drop_first()[i - 1] == d[i]);
        }
        lemma_deposit_pos(d.drop_first(), id);
    }
}

/// Appending a ledger entry adds its amount to its account's sum and to no
/// other account's.
pub proof fn lemma_sum_push(l: Seq<LedgerEntry>, e: LedgerEntry, account: Seq<char>)
    ensures
        sum_for(l.push(e), account) == sum_for(l, account) + if e.account_id@ == account {
            e.amount as int
        } else {
            0
        },
{
    assert(l.push(e).drop_last() =~= l);
}

/// Appending a ledger entry raises the count of the deposit it references by
/// one and no other deposit's.
pub proof fn lemma_entry_count_push(l: Seq<LedgerEntry>, e: LedgerEntry, id: u64)
    ensures
        entry_count(l.push(e), id) == entry_count(l, id) + if e.deposit_id == Some(id) {
            1int
        } else {
            0
        },
{
    assert(l.push(e).drop_last() =~= l);
}

/// With unique keys, the recorded balance of a row's account is that row's
/// value.
pub proof fn lemma_bal_of_row(b: Seq<AccountBalance>, i: int)
    requires
        forall|p: int, q: int| 0 <= p < q < b.len() ==> b[p].account_id@ != b[q].account_id@,
        0 <= i < b.len(),
    ensures
        bal_of(b, b[i].account_id@) == b[i].balance,
    decreases b.len(),
{
    if i + 1 < b.len() {
        assert(b.drop_last()[i] == b[i]);
        lemma_bal_of_row(b.drop_last(), i);
    }
}

/// Replacing one row changes only its own account's recorded balance.
pub proof fn lemma_bal_of_update(b: Seq<AccountBalance>, i: int, row: AccountBalance)
    requires
        forall|p: int, q: int| 0 <= p < q < b.len() ==> b[p].account_id@ != b[q].account_id@,
        0 <= i < b.len(),
        b[i].account_id@ == row.account_id@,
    ensures
        bal_of(b.update(i, row), row.account_id@) == row.balance,
        forall|a: Seq<char>| a != row.account_id@ ==> bal_of(b.update(i, row), a) == bal_of(b, a),
    decreases b.len(),
{
    let u = b.update(i, row);
    if i + 1 == b.len() {
        assert(u.drop_last() =~= b.drop_last());
        assert(u.last() == row);
        assert(bal_of(u, row.account_id@) == row.balance);
        assert forall|a: Seq<char>| a != row.account_id@ implies bal_of(u, a) == bal_of(b, a) by {
            assert(b.last().account_id@ == row.account_id@);
        }
    } else {
        assert(u.drop_last() =~= b.drop_last().update(i, row));
        assert(b.drop_last()[i] == b[i]);
        lemma_bal_of_update(b.drop_last(), i, row);
        assert(u.last() == b.last());
        assert(b.last().account_id@ != b[i].account_id@);
        assert(bal_of(u, row.account_id@) == row.balance);
        assert forall|a: Seq<char>| a != row.account_id@ implies bal_of(u, a) == bal_of(b, a) by {
            if b.last().account_id@ != a {
                assert(bal_of(u, a) == bal_of(b.drop_last().update(i, row), a));
                assert(bal_of(b, a) == bal_of(b.drop_last(), a));
            }
        }
    }
}

/// Appending a row for a fresh account sets that account's recorded balance
/// and no other's.
pub proof fn lemma_bal_of_push(b: Seq<AccountBalance>, row: AccountBalance)
    ensures
        bal_of(b.push(row), row.account_id@) == row.balance,
        forall|a: Seq<char>| a != row.account_id@ ==> bal_of(b.push(row), a) == bal_of(b, a),
{
    assert(b.push(row).drop_last() =~= b);
}

/// An account without a balance row has no ledger entries, so its sum is 0.
pub proof fn lemma_no_row_sum_zero(
    l: Seq<LedgerEntry>,
    b: Seq<AccountBalance>,
    account: Seq<char>,
)
    requires
        forall|i: int| 0 <= i < l.len() ==> has_bal_row(b, l[i].account_id@),
        !has_bal_row(b, account),
    ensures
        sum_for(l, account) == 0,
    decreases l.len(),
{
    if l.len() > 0 {
        assert(forall|i: int|
            0 <= i < l.drop_last().len() ==> has_bal_row(b, #[trigger] l.drop_last()[i].account_id@))
            by {
            assert(forall|i: int| 0 <= i < l.len() - 1 ==> l.drop_last()[i] == l[i]);
        }
        lemma_no_row_sum_zero(l.drop_last(), b, account);
        assert(l.last().account_id@ != account);
    }
}

/// The recorded balance of any account equals its ledger sum in a
/// well-formed ledger, whether or not it has a row.
pub proof fn lemma_bal_is_sum(l: Seq<LedgerEntry>, b: Seq<AccountBalance>, account: Seq<char>)
    requires
        wf_ledger(l, b),
    ensures
        bal_of(b, account) == sum_for(l, account),
    decreases b.len(),
{
    if !has_bal_row(b, account) {
        lemma_no_row_sum_zero(l, b, account);
        lemma_bal_of_no_row(b, account);
    } else {
        let i = choose|i: int| 0 <= i < b.len() && b[i].account_id@ == account;
        lemma_bal_of_row(b, i);
    }
}

/// The authoritative balance of every account — with or without a cached
/// row — is the sum of its ledger entries, in every well-formed store.
pub proof fn lemma_balance_is_ledger_sum(s: Store, account: Seq<char>)
    requires
        s.wf(),
    ensures
        bal_of(s.balances@, account) == sum_for(s.ledger@, account),
{
    lemma_bal_is_sum(s.ledger@, s.balances@, account);
}

/// An account without a row has recorded balance 0.
pub proof fn lemma_bal_of_no_row(b: Seq<AccountBalance>, account: Seq<char>)
    requires
        !has_bal_row(b, account),
    ensures
        bal_of(b, account) == 0,
    decreases b.len(),
{
    if b.len() > 0 {
        assert(!has_bal_row(b.drop_last(), account)) by {
            assert(forall|i: int| 0 <= i < b.len() - 1 ==> b.drop_last()[i] == b[i]);
        }
        lemma_bal_of_no_row(b.drop_last(), account);
    }
}

/// View of an optional owned string.
pub open spec fn view_opt_string(o: Option<String>) -> Option<Seq<char>> {
    match o {
        Some(s) => Some(s@),
        None => None,
    }
}

/// View of an optional borrowed string.
pub open spec fn opt_view(o: Option<&str>) -> Option<Seq<char>> {
    match o {
        Some(s) => Some(s@),
        None => None,
    }
}

/// Whether an optional owned string holds exactly an optional value.
pub open spec fn opt_str_is(o: Option<String>, v: Option<Seq<char>>) -> bool {
    match v {
        Some(x) => o is Some && o->0@ == x,
        None => o is None,
    }
}

/// The ledger description written for a credited deposit.
pub open spec fn deposit_description(amount: u64, chain: Chain) -> Seq<char> {
    "deposit "@ + dec_str(amount as nat) + " via "@ + chain_name(chain)
}

/// Everything `record_deposit` promises, as one relation between the store
/// before, the store after, and the result.
pub open spec fn record_result(
    pre: Store,
    post: Store,
    account: Seq<char>,
    chain: Chain,
    tx: Seq<char>,
    asset: Seq<char>,
    amount: u64,
    from: Option<Seq<char>>,
    to: Option<Seq<char>>,
    created_at: i64,
    status: DepositStatus,
    r: Result<u64, ApiError>,
) -> bool {
    if tx_exists(pre.deposits@, tx) {
        &&& r is Err
        &&& r->Err_0 is InvalidRequest
        &&& r->Err_0->InvalidRequest_0@ == "deposit already recorded"@
        &&& post == pre
    } else {
        &&& r is Ok
        &&& r->Ok_0 == pre.next_deposit_id
        &&& post.deposits@.len() == pre.deposits@.len() + 1
        &&& post.deposits@.drop_last() == pre.deposits@
        &&& post.deposits@.last().id == pre.next_deposit_id
        &&& post.deposits@.last().account_id@ == account
        &&& post.deposits@.last().chain == chain
        &&& post.deposits@.last().tx_hash@ == tx
        &&& post.deposits@.last().asset@ == asset
        &&& post.deposits@.last().amount == amount
        &&& post.deposits@.last().status == status
        &&& post.deposits@.last().confirmations == 0
        &&& post.deposits@.last().block_number is None
        &&& opt_str_is(post.deposits@.last().from_address, from)
        &&& opt_str_is(post.deposits@.last().to_address, to)
        &&& post.deposits@.last().created_at == created_at
        &&& post.deposits@.last().credited_at is None
        &&& post.next_deposit_id == pre.next_deposit_id + 1
        &&& post.addresses == pre.addresses
        &&& post.ledger == pre.ledger
        &&& post.balances == pre.balances
        &&& post.cursors == pre.cursors
    }
}

/// Everything `credit_deposit` promises, as one relation between the store
/// before, the store after, and the result.
pub open spec fn credit_result(
    pre: Store,
    post: Store,
    deposit_id: u64,
    now: i64,
    r: Result<(), ApiError>,
) -> bool {
    if !has_deposit(pre.deposits@, deposit_id) {
        &&& r is Err
        &&& r->Err_0 is NotFound
        &&& post == pre
    } else {
        let i = deposit_pos(pre.deposits@, deposit_id);
        let dep = pre.deposits@[i];
        if dep.status is Credited {
            &&& r is Err
            &&& r->Err_0 is InvalidRequest
            &&& r->Err_0->InvalidRequest_0@ == "deposit already credited"@
            &&& post == pre
        } else if dep.status is Pending {
            &&& r is Err
            &&& r->Err_0 is InvalidRequest
            &&& r->Err_0->InvalidRequest_0@ == "deposit not confirmed"@
            &&& post == pre
        } else if bal_of(pre.balances@, dep.account_id@) + dep.amount > i64::MAX {
            &&& r is Err
            &&& r->Err_0 is Internal
            &&& post == pre
        } else {
            &&& r is Ok
            &&& post.deposits@.len() == pre.deposits@.len()
            &&& forall|j: int|
                0 <= j < pre.deposits@.len() && j != i ==> post.deposits@[j] == pre.deposits@[j]
            &&& post.deposits@[i].id == dep.id
            &&& post.deposits@[i].account_id@ == dep.account_id@
            &&& post.deposits@[i].chain == dep.chain
            &&& post.deposits@[i].tx_hash@ == dep.tx_hash@
            &&& post.deposits@[i].asset@ == dep.asset@
            &&& post.deposits@[i].amount == dep.amount
            &&& post.deposits@[i].status is Credited
            &&& post.deposits@[i].confirmations == dep.confirmations
            &&& post.deposits@[i].block_number == dep.block_number
            &&& opt_str_is(post.deposits@[i].from_address, view_opt_string(dep.from_address))
            &&& opt_str_is(post.deposits@[i].to_address, view_opt_string(dep.to_address))
            &&& post.deposits@[i].created_at == dep.created_at
            &&& post.deposits@[i].credited_at == Some(now)
            &&& post.ledger@.len() == pre.ledger@.len() + 1
            &&& post.ledger@.drop_last() == pre.ledger@
            &&& post.ledger@.last().account_id@ == dep.account_id@
            &&& post.ledger@.last().amount == dep.amount as i64
            &&& post.ledger@.last().entry_type == EntryType::Purchase
            &&& post.ledger@.last().description@ == deposit_description(dep.amount, dep.chain)
            &&& post.ledger@.last().chain == Some(dep.chain)
            &&& post.ledger@.last().deposit_id == Some(deposit_id)
            &&& bal_of(post.balances@, dep.account_id@) == bal_of(pre.balances@, dep.account_id@)
                + dep.amount
            &&& forall|a: Seq<char>|
                a != dep.account_id@ ==> bal_of(post.balances@, a) == bal_of(pre.balances@, a)
            &&& post.addresses == pre.addresses
            &&& post.cursors == pre.cursors
            &&& post.next_deposit_id == pre.next_deposit_id
        }
    }
}

impl Store {
    /// Index of the deposit carrying an id, if any.
    #[verifier::loop_isolation(false)]
    fn find_deposit_index(&self, deposit_id: u64) -> (r: Option<usize>)
        ensures
            r is Some ==> r->0 < self.deposits@.len() && self.deposits@[r->0 as int].id
                == deposit_id,
            r is None ==> !has_deposit(self.deposits@, deposit_id),
    {
        let n = self.deposits.len();
        let mut j: usize = 0;
        while j < n
            invariant
                n == self.deposits@.len(),
                j <= n,
                forall|k: int| 0 <= k < j ==> self.deposits@[k].id != deposit_id,
            decreases n - j,
        {
            if self.deposits[j].id == deposit_id {
                return Some(j);
            }
            j += 1;
        }
        None
    }

    /// Index of an account's balance row, if any.
    #[verifier::loop_isolation(false)]
    fn find_balance_index(&self, account: &str) -> (r: Option<usize>)
        ensures
            r is Some ==> r->0 < self.balances@.len() && self.balances@[r->0 as int].account_id@
                == account@,
            r is None ==> !has_bal_row(self.balances@, account@),
    {
        let m = self.balances.len();
        let mut b: usize = 0;
        while b < m
            invariant
                m == self.balances@.len(),
                b <= m,
                forall|k: int| 0 <= k < b ==> self.balances@[k].account_id@ != account@,
            decreases m - b,
        {
            if str_eq(self.balances[b].account_id.as_str(), account) {
                return Some(b);
            }
            b += 1;
        }
        None
    }

    /// Record a newly observed or reported deposit. The transaction hash is
    /// the sole de-duplication key: a hash already present is rejected with
    /// "deposit already recorded" and nothing changes.
    #[verifier::loop_isolation(false)]
    pub fn record_deposit(
        &mut self,
        account_id: &str,
        chain: Chain,
        tx_hash: &str,
        asset: &str,
        amount: u64,
        from_address: Option<&str>,
        to_address: Option<&str>,
        created_at: i64,
        status: DepositStatus,
    ) -> (r: Result<u64, ApiError>)
        requires
            old(self).wf(),
            old(self).next_deposit_id < u64::MAX,
            amount <= i64::MAX,
            !(status is Credited),
        ensures
            final(self).wf(),
            record_result(
                *old(self),
                *final(self),
                account_id@,
                chain,
                tx_hash@,
                asset@,
                amount,
                opt_view(from_address),
                opt_view(to_address),
                created_at,
                status,
                r,
            ),
    {
        let n = self.deposits.len();
        let mut j: usize = 0;
        while j < n
            invariant
                n == self.deposits@.len(),
                j <= n,
                forall|k: int| 0 <= k < j ==> self.deposits@[k].tx_hash@ != tx_hash@,
            decreases n - j,
        {
            if str_eq(self.deposits[j].tx_hash.as_str(), tx_hash) {
                return Err(ApiError::InvalidRequest("deposit already recorded".to_owned()));
            }
            j += 1;
        }
        let id = self.next_deposit_id;
        let dep = Deposit {
            id,
            account_id: account_id.to_owned(),
            chain,
            tx_hash: tx_hash.to_owned(),
            asset: asset.to_owned(),
            amount,
            status,
            confirmations: 0,
            block_number: None,
            from_address: match from_address {
                Some(a) => Some(a.to_owned()),
                None => None,
            },
            to_address: match to_address {
                Some(a) => Some(a.to_owned()),
                None => None,
            },
            created_at,
            credited_at: None,
        };
        self.deposits.push(dep);
        self.next_deposit_id = id + 1;
        proof {
            assert(self.deposits@.drop_last() =~= old(self).deposits@);
            assert forall|k: int|
                0 <= k < self.ledger@.len() && #[trigger] self.ledger@[k].deposit_id is Some
                implies self.ledger@[k].deposit_id->0 != id by {
                if self.ledger@[k].deposit_id is Some {
                    let x = self.ledger@[k].deposit_id->0;
                    let w = choose|w: int|
                        0 <= w < old(self).deposits@.len() && old(self).deposits@[w].id == x;
                    assert(old(self).deposits@[w].id < id);
                }
            }
            lemma_entry_count_fresh(self.ledger@, id);
            assert forall|i: int|
                0 <= i < self.deposits@.len() implies entry_count(self.ledger@, self.deposits@[i].id)
                == if self.deposits@[i].status is Credited {
                1int
            } else {
                0
            } by {
                if i < self.deposits@.len() - 1 {
                    assert(self.deposits@[i] == old(self).deposits@[i]);
                }
            }
            assert forall|k: int|
                0 <= k < self.ledger@.len() && #[trigger] self.ledger@[k].deposit_id is Some
                implies has_deposit(self.deposits@, self.ledger@[k].deposit_id->0) by {
                if self.ledger@[k].deposit_id is Some {
                    let x = self.ledger@[k].deposit_id->0;
                    let w = choose|w: int|
                        0 <= w < old(self).deposits@.len() && old(self).deposits@[w].id == x;
                    assert(self.deposits@[w].id == x);
                }
            }
        }
        Ok(id)
    }

    /// Credit a confirmed deposit: mark it credited, add its amount to the
    /// account's balance, and append the one ledger entry referencing it —
    /// all in one step, so a failure changes nothing. A deposit that is
    /// missing, still pending, or already credited is rejected untouched.
    pub fn credit_deposit(&mut self, deposit_id: u64, now: i64) -> (r: Result<(), ApiError>)
        requires
            old(self).wf(),
        ensures
            final(self).wf(),
            credit_result(*old(self), *final(self), deposit_id, now, r),
    {
        let j: usize = match self.find_deposit_index(deposit_id) {
            Some(j) => j,
            None => {
                return Err(ApiError::NotFound);
            },
        };
        proof {
            assert(has_deposit(self.deposits@, deposit_id));
            lemma_deposit_pos(self.deposits@, deposit_id);
            let p = deposit_pos(self.deposits@, deposit_id);
            if p < j {
                assert(self.deposits@[p].id != deposit_id);
            }
            if p > j {
                assert(self.deposits@[j as int].id < self.deposits@[p].id);
            }
            assert(p == j);
        }
        let status = self.deposits[j].status;
        match status {
            DepositStatus::Credited => {
                return Err(ApiError::InvalidRequest("deposit already credited".to_owned()));
            },
            DepositStatus::Pending => {
                return Err(ApiError::InvalidRequest("deposit not confirmed".to_owned()));
            },
            DepositStatus::Confirmed => {},
        }
        let amount = self.deposits[j].amount;
        let account = self.deposits[j].account_id.clone();
        let current = self.balance_of(account.as_str());
        if current > i64::MAX - (amount as i64) {
            return Err(ApiError::Internal("balance overflow".to_owned()));
        }
        let new_balance = current + (amount as i64);

        // update the deposit row
        let old_row = &self.deposits[j];
        let updated = Deposit {
            id: old_row.id,
            account_id: old_row.account_id.clone(),
            chain: old_row.chain,
            tx_hash: old_row.tx_hash.clone(),
            asset: old_row.asset.clone(),
            amount: old_row.amount,
            status: DepositStatus::Credited,
            confirmations: old_row.confirmations,
            block_number: old_row.block_number,
            from_address: match &old_row.from_address {
                Some(a) => Some(a.clone()),
                None => None,
            },
            to_address: match &old_row.to_address {
                Some(a) => Some(a.clone()),
                None => None,
            },
            created_at: old_row.created_at,
            credited_at: Some(now),
        };
        let chain = updated.chain;
        let tx_hash = updated.tx_hash.clone();
        vstd::pervasive::VecAdditionalExecFns::set(&mut self.deposits, j, updated);

        // append the ledger entry
        let mut description = "deposit ".to_owned();
        description.append(u64_to_string(amount).as_str());
        description.append(" via ");
        description.append(chain.name());
        proof {
            assert(description@ =~= deposit_description(amount, chain));
        }
        let entry = LedgerEntry {
            account_id: account.clone(),
            amount: amount as i64,
            entry_type: EntryType::Purchase,
            description,
            chain: Some(chain),
            tx_hash: Some(tx_hash),
            deposit_id: Some(deposit_id),
        };
        self.ledger.push(entry);

        // update or insert the balance row
        let m = self.balances.len();
        let found = self.find_balance_index(account.as_str());
        let b: usize = match found {
            Some(b) => {
                let row = AccountBalance { account_id: account.clone(), balance: new_balance };
                vstd::pervasive::VecAdditionalExecFns::set(&mut self.balances, b, row);
                b
            },
            None => {
                let row = AccountBalance { account_id: account.clone(), balance: new_balance };
                self.balances.push(row);
                m
            },
        };

        proof {
            let pre = *old(self);
            let post = *self;
            let i = j as int;
            let dep = pre.deposits@[i];
            let e = post.ledger@.last();

            assert(post.ledger@.drop_last() =~= pre.ledger@);

            // balances
            if b < m {
                assert(pre.balances@[b as int].account_id@ == account@);
                lemma_bal_of_row(pre.balances@, b as int);
                lemma_bal_of_update(
                    pre.balances@,
                    b as int,
                    post.balances@[b as int],
                );
            } else {
                lemma_bal_of_no_row(pre.balances@, account@);
                lemma_bal_of_push(pre.balances@, post.balances@.last());
            }

            // wf_ledger for the new state
            assert forall|k: int| 0 <= k < post.balances@.len() implies post.balances@[k].balance
                == sum_for(post.ledger@, post.balances@[k].account_id@) by {
                lemma_sum_push(pre.ledger@, e, post.balances@[k].account_id@);
                if b < m {
                    if k != b {
                        assert(post.balances@[k] == pre.balances@[k]);
                        assert(pre.balances@[k].account_id@ != account@);
                    }
                } else {
                    if k < m {
                        assert(post.balances@[k] == pre.balances@[k]);
                        assert(pre.balances@[k].account_id@ != account@);
                    } else {
                        lemma_no_row_sum_zero(pre.ledger@, pre.balances@, account@);
                    }
                }
            }
            assert forall|k: int| 0 <= k < post.ledger@.len() implies has_bal_row(
                post.balances@,
                #[trigger] post.ledger@[k].account_id@,
            ) by {
                if k < pre.ledger@.len() {
                    assert(post.ledger@[k] == pre.ledger@[k]);
                    let w = choose|w: int|
                        0 <= w < pre.balances@.len() && pre.balances@[w].account_id@
                            == pre.ledger@[k].account_id@;
                    if b < m && w == b {
                        assert(post.balances@[w].account_id@ == account@);
                    } else {
                        assert(post.balances@[w] == pre.balances@[w]);
                    }
                } else {
                    if b < m {
                        assert(post.balances@[b as int].account_id@ == account@);
                    } else {
                        assert(post.balances@[m as int].account_id@ == account@);
                    }
                }
            }

            // wf_credits for the new state
            assert forall|k: int| 0 <= k < post.deposits@.len() implies entry_count(
                post.ledger@,
                post.deposits@[k].id,
            ) == if post.deposits@[k].status is Credited {
                1int
            } else {
                0
            } by {
                lemma_entry_count_push(pre.ledger@, e, post.deposits@[k].id);
                if k != i {
                    assert(post.deposits@[k] == pre.deposits@[k]);
                    if k < i {
                        assert(pre.deposits@[k].id < dep.id);
                    } else {
                        assert(dep.id < pre.deposits@[k].id);
                    }
                }
            }

            // deposit table: only status and credited_at of row i changed
            assert forall|p: int|
                0 <= p < post.deposits@.len() implies #[trigger] post.deposits@[p].id
                == pre.deposits@[p].id && post.deposits@[p].tx_hash@ == pre.deposits@[p].tx_hash@
                && post.deposits@[p].amount == pre.deposits@[p].amount by {
                if p != i {
                    assert(post.deposits@[p] == pre.deposits@[p]);
                }
            }

            // every back-reference still points at a recorded deposit
            assert forall|k: int|
                0 <= k < post.ledger@.len() && #[trigger] post.ledger@[k].deposit_id is Some
                implies has_deposit(post.deposits@, post.ledger@[k].deposit_id->0) by {
                if post.ledger@[k].deposit_id is Some {
                    let x = post.ledger@[k].deposit_id->0;
                    if k < pre.ledger@.len() {
                        assert(post.ledger@[k] == pre.ledger@[k]);
                        let w = choose|w: int|
                            0 <= w < pre.deposits@.len() && pre.deposits@[w].id == x;
                        assert(post.deposits@[w].id == x);
                    } else {
                        assert(post.deposits@[i].id == deposit_id);
                    }
                }
            }

            // balance change statement
            lemma_sum_push(pre.ledger@, e, account@);
            assert(bal_of(post.balances@, account@) == bal_of(pre.balances@, account@)
                + dep.amount);
        }
        Ok(())
    }
}

/// A deposit id that no entry references has count 0.
pub proof fn lemma_entry_count_fresh(l: Seq<LedgerEntry>, id: u64)
    requires
        forall|i: int|
            0 <= i < l.len() ==> (#[trigger] l[i].deposit_id is Some ==> l[i].deposit_id->0 != id),
    ensures
        entry_count(l, id) == 0,
    decreases l.len(),
{
    if l.len() > 0 {
        assert(forall|i: int| 0 <= i < l.len() - 1 ==> l.drop_last()[i] == l[i]);
        lemma_entry_count_fresh(l.drop_last(), id);
        assert(l.last() == l[l.len() - 1]);
    }
}

/// Crediting is atomic: on any error the store is exactly what it was.
pub proof fn lemma_credit_atomic(
    pre: Store,
    post: Store,
    deposit_id: u64,
    now: i64,
    r: Result<(), ApiError>,
)
    requires
        credit_result(pre, post, deposit_id, now, r),
        r is Err,
    ensures
        post == pre,
{
}

/// No double credit: once a credit for a deposit succeeds, a second credit
/// of the same deposit is rejected and changes nothing, so the deposit's
/// amount enters the balance exactly once and exactly one ledger entry
/// references it.
pub proof fn lemma_no_double_credit(
    pre: Store,
    mid: Store,
    post: Store,
    deposit_id: u64,
    now1: i64,
    now2: i64,
    r1: Result<(), ApiError>,
    r2: Result<(), ApiError>,
)
    requires
        pre.wf(),
        mid.wf(),
        credit_result(pre, mid, deposit_id, now1, r1),
        r1 is Ok,
        credit_result(mid, post, deposit_id, now2, r2),
    ensures
        r2 is Err,
        post == mid,
        mid.ledger@.len() == pre.ledger@.len() + 1,
        entry_count(mid.ledger@, deposit_id) == entry_count(pre.ledger@, deposit_id) + 1,
{
    lemma_deposit_pos(pre.deposits@, deposit_id);
    let i = deposit_pos(pre.deposits@, deposit_id);
    assert(mid.deposits@[i].id == deposit_id);
    assert(has_deposit(mid.deposits@, deposit_id));
    lemma_deposit_pos(mid.deposits@, deposit_id);
    let p = deposit_pos(mid.deposits@, deposit_id);
    if p < i {
        assert(mid.deposits@[p].id < mid.deposits@[i].id);
    }
    if p > i {
        assert(mid.deposits@[i].id < mid.deposits@[p].id);
    }
    assert(p == i);
    assert(mid.deposits@[i].status is Credited);
    lemma_entry_count_push(pre.ledger@, mid.ledger@.last(), deposit_id);
    assert(mid.ledger@.drop_last() =~= pre.ledger@);
}

/// A duplicate report is rejected: once a deposit with a transaction hash is
/// recorded, recording any deposit with the same hash fails with "deposit
/// already recorded" and changes nothing; reporting alone never changes a
/// balance.
pub proof fn lemma_duplicate_report(
    pre: Store,
    mid: Store,
    post: Store,
    account1: Seq<char>,
    account2: Seq<char>,
    chain1: Chain,
    chain2: Chain,
    tx: Seq<char>,
    asset1: Seq<char>,
    asset2: Seq<char>,
    amount1: u64,
    amount2: u64,
    from1: Option<Seq<char>>,
    from2: Option<Seq<char>>,
    to1: Option<Seq<char>>,
    to2: Option<Seq<char>>,
    t1: i64,
    t2: i64,
    status1: DepositStatus,
    status2: DepositStatus,
    r1: Result<u64, ApiError>,
    r2: Result<u64, ApiError>,
)
    requires
        record_result(pre, mid, account1, chain1, tx, asset1, amount1, from1, to1, t1, status1, r1),
        r1 is Ok,
        record_result(mid, post, account2, chain2, tx, asset2, amount2, from2, to2, t2, status2, r2),
    ensures
        r2 is Err,
        r2->Err_0 is InvalidRequest,
        post == mid,
        mid.balances == pre.balances,
{
    assert(mid.deposits@[mid.deposits@.len() - 1].tx_hash@ == tx);
    assert(tx_exists(mid.deposits@, tx));
}

} // verus!
