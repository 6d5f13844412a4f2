//! The persisted state of the deposit subsystem, modelled as an owned value.
//!
//! Three tables — payment addresses, deposits, and the append-only
//! transaction log — plus the denormalized per-account balance. The
//! well-formedness predicate carries the cross-table invariants: derivation
//! indices strictly increase and are never reused per (account, chain); the
//! last address of each (account, chain) is the one active address;
//! transaction hashes are unique across all deposits; every balance equals
//! the sum of that account's ledger entries; and a deposit has exactly one
//! ledger entry exactly when it has been credited.

use vstd::prelude::*;

verus! {

/// Payment rail of an address or deposit.
#[derive(Clone, Copy, Debug, PartialEq, Eq, Structural)]
pub enum Chain {
    PolkadotAssethub,
    Penumbra,
    Stripe,
}

/// The rail's stored name.
pub open spec fn chain_name(c: Chain) -> Seq<char> {
    match c {
        Chain::PolkadotAssethub => "polkadot_assethub"@,
        Chain::Penumbra => "penumbra"@,
        Chain::Stripe => "stripe"@,
    }
}

impl Chain {
    /// The rail's stored name.
    pub fn name(&self) -> (r: &'static str)
        ensures
            r@ == chain_name(*self),
    {
        match self {
            Chain::PolkadotAssethub => "polkadot_assethub",
            Chain::Penumbra => "penumbra",
            Chain::Stripe => "stripe",
        }
    }
}

/// Deposit lifecycle; transitions run forward only.
#[derive(Clone, Copy, Debug, PartialEq, Eq, Structural)]
pub enum DepositStatus {
    Pending,
    Confirmed,
    Credited,
}

/// Kind of a ledger entry.
#[derive(Clone, Copy, Debug, PartialEq, Eq, Structural)]
pub enum EntryType {
    Purchase,
    Usage,
    Subscription,
}

/// One derived deposit address of an account on a chain.
pub struct PaymentAddress {
    pub account_id: String,
    pub chain: Chain,
    pub address: String,
    pub derivation_index: u32,
    pub chain_sub_index: Option<u64>,
    pub is_active: bool,
}

/// One observed or reported deposit.
pub struct Deposit {
    pub id: u64,
    pub account_id: String,
    pub chain: Chain,
    pub tx_hash: String,
    pub asset: String,
    pub amount: u64,
    pub status: DepositStatus,
    pub confirmations: u32,
    pub block_number: Option<u64>,
    pub from_address: Option<String>,
    pub to_address: Option<String>,
    pub created_at: i64,
    pub credited_at: Option<i64>,
}

/// One immutable balance-affecting event.
pub struct LedgerEntry {
    pub account_id: String,
    pub amount: i64,
    pub entry_type: EntryType,
    pub description: String,
    pub chain: Option<Chain>,
    pub tx_hash: Option<String>,
    pub deposit_id: Option<u64>,
}

/// Denormalized cache of one account's ledger sum.
pub struct AccountBalance {
    pub account_id: String,
    pub balance: i64,
}

/// The durable poll watermark of one chain: the last block height whose
/// range has been processed. Kept in the store, in the same step as the
/// deposits found in that range, so a restarted listener resumes exactly
/// where it left off instead of silently skipping the downtime.
pub struct ChainCursor {
    pub chain: Chain,
    pub height: u64,
}

/// The recorded watermark of a chain; 0 before its first block.
pub open spec fn cursor_of(s: Seq<ChainCursor>, chain: Chain) -> u64
    decreases s.len(),
{
    if s.len() == 0 {
        0
    } else if s.last().chain == chain {
        s.last().height
    } else {
        cursor_of(s.drop_last(), chain)
    }
}

/// Cursor-table invariant: one row per chain.
pub open spec fn wf_cursors(s: Seq<ChainCursor>) -> bool {
    forall|i: int, j: int| 0 <= i < j < s.len() ==> s[i].chain != s[j].chain
}

/// Whether an address row belongs to an (account, chain) pair.
pub open spec fn addr_matches(a: PaymentAddress, account: Seq<char>, chain: Chain) -> bool {
    a.account_id@ == account && a.chain == chain
}

/// Whether two address rows belong to the same (account, chain) pair.
pub open spec fn addr_key_eq(a: PaymentAddress, b: PaymentAddress) -> bool {
    a.account_id@ == b.account_id@ && a.chain == b.chain
}

/// The subsequence of rows for an (account, chain) pair, in table order.
pub open spec fn rows_for(s: Seq<PaymentAddress>, account: Seq<char>, chain: Chain) -> Seq<
    PaymentAddress,
>
    decreases s.len(),
{
    if s.len() == 0 {
        Seq::empty()
    } else {
        let rest = rows_for(s.drop_last(), account, chain);
        if addr_matches(s.last(), account, chain) {
            rest.push(s.last())
        } else {
            rest
        }
    }
}

/// How many rows an (account, chain) pair has.
pub open spec fn count_for(s: Seq<PaymentAddress>, account: Seq<char>, chain: Chain) -> nat {
    rows_for(s, account, chain).len()
}

/// A row is the newest of its (account, chain) pair.
pub open spec fn is_last_of_key(s: Seq<PaymentAddress>, i: int) -> bool {
    forall|j: int| i < j < s.len() ==> !addr_key_eq(s[i], s[j])
}

/// Derivation indices strictly increase per (account, chain), so an index is
/// never reused, even across rotations.
pub open spec fn idx_increasing(s: Seq<PaymentAddress>) -> bool {
    forall|i: int, j: int|
        0 <= i < j < s.len() && addr_key_eq(s[i], s[j]) ==> s[i].derivation_index
            < s[j].derivation_index
}

/// A row is active exactly when it is the newest of its (account, chain)
/// pair, so a pair with any rows has exactly one active row.
pub open spec fn active_last(s: Seq<PaymentAddress>) -> bool {
    forall|i: int| 0 <= i < s.len() ==> (s[i].is_active <==> is_last_of_key(s, i))
}

/// Address-table invariant.
pub open spec fn wf_addresses(s: Seq<PaymentAddress>) -> bool {
    idx_increasing(s) && active_last(s)
}

/// Whether some deposit carries a transaction hash.
pub open spec fn tx_exists(d: Seq<Deposit>, tx: Seq<char>) -> bool {
    exists|i: int| 0 <= i < d.len() && d[i].tx_hash@ == tx
}

/// Whether some deposit carries an id.
pub open spec fn has_deposit(d: Seq<Deposit>, id: u64) -> bool {
    exists|i: int| 0 <= i < d.len() && d[i].id == id
}

/// Deposit-table invariant: ids strictly increase and stay below the
/// allocator's next id; hashes are unique across all rows; amounts fit the
/// signed balance width.
pub open spec fn wf_deposits(d: Seq<Deposit>, next_id: u64) -> bool {
    &&& forall|i: int, j: int| 0 <= i < j < d.len() ==> d[i].id < d[j].id
    &&& forall|i: int| 0 <= i < d.len() ==> d[i].id < next_id
    &&& forall|i: int, j: int| 0 <= i < j < d.len() ==> d[i].tx_hash@ != d[j].tx_hash@
    &&& forall|i: int| 0 <= i < d.len() ==> d[i].amount <= i64::MAX
}

/// Sum of an account's ledger entries.
pub open spec fn sum_for(l: Seq<LedgerEntry>, account: Seq<char>) -> int
    decreases l.len(),
{
    if l.len() == 0 {
        0
    } else {
        sum_for(l.drop_last(), account) + if l.last().account_id@ == account {
            l.last().amount as int
        } else {
            0
        }
    }
}

/// How many ledger entries reference a deposit.
pub open spec fn entry_count(l: Seq<LedgerEntry>, id: u64) -> int
    decreases l.len(),
{
    if l.len() == 0 {
        0
    } else {
        entry_count(l.drop_last(), id) + if l.last().deposit_id == Some(id) {
            1int
        } else {
            0
        }
    }
}

/// The balance recorded for an account; 0 when the account has no row.
pub open spec fn bal_of(s: Seq<AccountBalance>, account: Seq<char>) -> int
    decreases s.len(),
{
    if s.len() == 0 {
        0
    } else if s.last().account_id@ == account {
        s.last().balance as int
    } else {
        bal_of(s.drop_last(), account)
    }
}

/// Whether an account has a balance row.
pub open spec fn has_bal_row(s: Seq<AccountBalance>, account: Seq<char>) -> bool {
    exists|i: int| 0 <= i < s.len() && s[i].account_id@ == account
}

/// Ledger invariant: balance keys are unique, every balance equals the
/// account's ledger sum, and every entry's account has a balance row.
pub open spec fn wf_ledger(
    l: Seq<LedgerEntry>,
    b: Seq<AccountBalance>,
) -> bool {
    &&& forall|i: int, j: int| 0 <= i < j < b.len() ==> b[i].account_id@ != b[j].account_id@
    &&& forall|i: int| 0 <= i < b.len() ==> b[i].balance == sum_for(l, b[i].account_id@)
    &&& forall|i: int| 0 <= i < l.len() ==> has_bal_row(b, l[i].account_id@)
}

/// Cross-table invariant: a deposit has exactly one ledger entry exactly
/// when it is credited.
pub open spec fn wf_credits(d: Seq<Deposit>, l: Seq<LedgerEntry>) -> bool {
    forall|i: int|
        0 <= i < d.len() ==> entry_count(l, d[i].id) == if d[i].status is Credited {
            1int
        } else {
            0
        }
}

/// Cross-table invariant: a ledger entry's back-reference points at a
/// recorded deposit.
pub open spec fn wf_refs(d: Seq<Deposit>, l: Seq<LedgerEntry>) -> bool {
    forall|i: int|
        0 <= i < l.len() ==> (#[trigger] l[i].deposit_id is Some ==> has_deposit(
            d,
            l[i].deposit_id->0,
        ))
}

/// The persisted state: three tables and the balance cache.
pub struct Store {
    pub addresses: Vec<PaymentAddress>,
    pub deposits: Vec<Deposit>,
    pub ledger: Vec<LedgerEntry>,
    pub balances: Vec<AccountBalance>,
    pub cursors: Vec<ChainCursor>,
    pub next_deposit_id: u64,
}

impl Store {
    /// All table invariants together.
    pub open spec fn wf(&self) -> bool {
        &&& wf_addresses(self.addresses@)
        &&& wf_deposits(self.deposits@, self.next_deposit_id)
        &&& wf_ledger(self.ledger@, self.balances@)
        &&& wf_credits(self.deposits@, self.ledger@)
        &&& wf_refs(self.deposits@, self.ledger@)
        &&& wf_cursors(self.cursors@)
    }

    /// An empty store.
    pub fn new() -> (r: Store)
        ensures
            r.wf(),
            r.addresses@.len() == 0,
            r.deposits@.len() == 0,
            r.ledger@.len() == 0,
            r.balances@.len() == 0,
            r.cursors@.len() == 0,
            r.next_deposit_id == 0,
    {
        Store {
            addresses: Vec::new(),
            deposits: Vec::new(),
            ledger: Vec::new(),
            balances: Vec::new(),
            cursors: Vec::new(),
            next_deposit_id: 0,
        }
    }

    /// Current balance of an account: its row's value, or 0 without a row.
    pub fn balance_of(&self, account_id: &str) -> (r: i64)
        ensures
            r == bal_of(self.balances@, account_id@),
    {
        let mut i: usize = self.balances.len();
        proof {
            assert(self.balances@.take(i as int) =~= self.balances@);
        }
        while i > 0
            invariant
                i <= self.balances@.len(),
                bal_of(self.balances@, account_id@) == bal_of(
                    self.balances@.take(i as int),
                    account_id@,
                ),
            decreases i,
        {
            i -= 1;
            if crate::crypto::str_eq(self.balances[i].account_id.as_str(), account_id) {
                proof {
                    assert(self.balances@.take(i + 1).last() == self.balances@[i as int]);
                }
                return self.balances[i].balance;
            }
            proof {
                assert(self.balances@.take(i + 1).drop_last() =~= self.balances@.take(i as int));
            }
        }
        proof {
            assert(self.balances@.take(0) =~= Seq::<AccountBalance>::empty());
        }
        0
    }

    /// The chain's recorded poll watermark.
    pub fn cursor_height(&self, chain: Chain) -> (r: u64)
        ensures
            r == cursor_of(self.cursors@, chain),
    {
        let mut i: usize = self.cursors.len();
        proof {
            assert(self.cursors@.take(i as int) =~= self.cursors@);
        }
        while i > 0
            invariant
                i <= self.cursors@.len(),
                cursor_of(self.cursors@, chain) == cursor_of(self.cursors@.take(i as int), chain),
            decreases i,
        {
            i -= 1;
            if self.cursors[i].chain == chain {
                proof {
                    assert(self.cursors@.take(i + 1).last() == self.cursors@[i as int]);
                }
                return self.cursors[i].height;
            }
            proof {
                assert(self.cursors@.take(i + 1).drop_last() =~= self.cursors@.take(i as int));
            }
        }
        proof {
            assert(self.cursors@.take(0) =~= Seq::<ChainCursor>::empty());
        }
        0
    }

    /// Move a chain's poll watermark. Run in the same step as recording the
    /// deposits found in the block range it covers.
    #[verifier::loop_isolation(false)]
    pub fn set_cursor(&mut self, chain: Chain, height: u64)
        requires
            old(self).wf(),
        ensures
            final(self).wf(),
            cursor_of(final(self).cursors@, chain) == height,
            forall|c: Chain|
                c != chain ==> cursor_of(final(self).cursors@, c) == cursor_of(
                    old(self).cursors@,
                    c,
                ),
            final(self).addresses == old(self).addresses,
            final(self).deposits == old(self).deposits,
            final(self).ledger == old(self).ledger,
            final(self).balances == old(self).balances,
            final(self).next_deposit_id == old(self).next_deposit_id,
    {
        let n = self.cursors.len();
        let mut i: usize = 0;
        while i < n
            invariant
                i <= n,
                n == self.cursors@.len(),
                *self == *old(self),
                forall|k: int| 0 <= k < i ==> self.cursors@[k].chain != chain,
            decreases n - i,
        {
            if self.cursors[i].chain == chain {
                let row = ChainCursor { chain, height };
                vstd::pervasive::VecAdditionalExecFns::set(&mut self.cursors, i, row);
                proof {
                    lemma_cursor_of_update(old(self).cursors@, i as int, row);
                }
                return ;
            }
            i += 1;
        }
        self.cursors.push(ChainCursor { chain, height });
        proof {
            assert(self.cursors@.drop_last() =~= old(self).cursors@);
            assert forall|c: Chain| c != chain implies cursor_of(self.cursors@, c) == cursor_of(
                old(self).cursors@,
                c,
            ) by {}
        }
    }
}

/// Replacing one cursor row changes only its own chain's watermark.
proof fn lemma_cursor_of_update(s: Seq<ChainCursor>, i: int, row: ChainCursor)
    requires
        wf_cursors(s),
        0 <= i < s.len(),
        s[i].chain == row.chain,
    ensures
        cursor_of(s.update(i, row), row.chain) == row.height,
        forall|c: Chain| c != row.chain ==> cursor_of(s.update(i, row), c) == cursor_of(s, c),
    decreases s.len(),
{
    let u = s.update(i, row);
    if i + 1 == s.len() {
        assert(u.drop_last() =~= s.drop_last());
        assert(u.last() == row);
        assert forall|c: Chain| c != row.chain implies cursor_of(u, c) == cursor_of(s, c) by {
            assert(s.last().chain == row.chain);
        }
    } else {
        assert(u.drop_last() =~= s.drop_last().update(i, row));
        assert(s.drop_last()[i] == s[i]);
        assert(wf_cursors(s.drop_last())) by {
            assert(forall|k: int| 0 <= k < s.len() - 1 ==> s.drop_last()[k] == s[k]);
        }
        lemma_cursor_of_update(s.drop_last(), i, row);
        assert(u.last() == s.last());
        assert(s.last().chain != s[i].chain);
        assert(cursor_of(u, row.chain) == row.height);
        assert forall|c: Chain| c != row.chain implies cursor_of(u, c) == cursor_of(s, c) by {
            if s.last().chain != c {
                assert(cursor_of(u, c) == cursor_of(s.drop_last().update(i, row), c));
                assert(cursor_of(s, c) == cursor_of(s.drop_last(), c));
            }
        }
    }
}

} // verus!
