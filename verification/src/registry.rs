//! Address lifecycle per (account, chain): get-or-create the active address,
//! rotate under a per-account cap, list the history.
//!
//! Rows are never deleted. Rotation deactivates every current row of the pair
//! and appends the next one in a single step over the owned state, so a
//! failure leaves the previously active address untouched and an account is
//! never left without an active address.

use vstd::prelude::*;

use crate::crypto::str_eq;
use crate::error::ApiError;
use crate::store::Chain;
use crate::store::PaymentAddress;
use crate::store::Store;
use crate::store::addr_key_eq;
use crate::store::addr_matches;
use crate::store::active_last;
use crate::store::count_for;
use crate::store::idx_increasing;
use crate::store::is_last_of_key;
use crate::store::wf_addresses;
use crate::text::dec_str;
use crate::text::u64_to_string;
use crate::wallet::WalletDeriver;
use crate::wallet::penumbra_address_of;
use crate::wallet::penumbra_sub_index_of;
use crate::wallet::polkadot_address_of;
use vstd::string::StringExecFns;

verus! {

/// Default cap on addresses per (account, chain).
pub const DEFAULT_MAX_ADDRESSES: u32 = 5;

/// Address derived for an account and index on a chain.
pub open spec fn chain_address_of(
    seed: Seq<u8>,
    chain: Chain,
    account: Seq<char>,
    index: u32,
) -> Seq<char>
    recommends
        !(chain is Stripe),
{
    if chain is PolkadotAssethub {
        polkadot_address_of(seed, account, index)
    } else {
        penumbra_address_of(seed, account, index)
    }
}

/// Secondary lookup index stored with an address: the shielded chain's
/// sub-index, nothing for the others.
pub open spec fn chain_sub_index_of(
    seed: Seq<u8>,
    chain: Chain,
    account: Seq<char>,
    index: u32,
) -> Option<u64> {
    if chain is Penumbra {
        Some(penumbra_sub_index_of(seed, account, index))
    } else {
        None
    }
}

/// Highest derivation index among a pair's rows, plus one; 0 when the pair
/// has no rows. Under `idx_increasing` the newest row carries the highest
/// index, so this is the index the next row gets.
pub open spec fn max_index_plus1(s: Seq<PaymentAddress>, account: Seq<char>, chain: Chain) -> int
    decreases s.len(),
{
    if s.len() == 0 {
        0
    } else if addr_matches(s.last(), account, chain) {
        s.last().derivation_index + 1
    } else {
        max_index_plus1(s.drop_last(), account, chain)
    }
}

/// `max_index_plus1` bounds every row of the pair from above.
pub proof fn lemma_max_index(s: Seq<PaymentAddress>, account: Seq<char>, chain: Chain)
    requires
        idx_increasing(s),
    ensures
        forall|k: int|
            0 <= k < s.len() && addr_matches(s[k], account, chain) ==> s[k].derivation_index
                < max_index_plus1(s, account, chain),
        max_index_plus1(s, account, chain) >= 0,
    decreases s.len(),
{
    if s.len() > 0 {
        assert(idx_increasing(s.drop_last())) by {
            assert(forall|k: int| 0 <= k < s.len() - 1 ==> s.drop_last()[k] == s[k]);
        }
        lemma_max_index(s.drop_last(), account, chain);
        if addr_matches(s.last(), account, chain) {
            assert forall|k: int|
                0 <= k < s.len() && addr_matches(s[k], account, chain) implies s[k].derivation_index
                < max_index_plus1(s, account, chain) by {
                if k < s.len() - 1 {
                    assert(addr_key_eq(s[k], s[s.len() - 1]));
                }
            }
        } else {
            assert(forall|k: int| 0 <= k < s.len() - 1 ==> s.drop_last()[k] == s[k]);
        }
    }
}

/// A pair with no rows has `max_index_plus1` 0 — the first index is 0.
pub proof fn lemma_count0_max0(s: Seq<PaymentAddress>, account: Seq<char>, chain: Chain)
    requires
        count_for(s, account, chain) == 0,
    ensures
        max_index_plus1(s, account, chain) == 0,
    decreases s.len(),
{
    if s.len() > 0 {
        lemma_count0_max0(s.drop_last(), account, chain);
    }
}

/// A pair with rows has a newest row.
pub proof fn lemma_last_match(s: Seq<PaymentAddress>, account: Seq<char>, chain: Chain)
    requires
        count_for(s, account, chain) > 0,
    ensures
        exists|i: int|
            0 <= i < s.len() && addr_matches(s[i], account, chain) && is_last_of_key(s, i),
    decreases s.len(),
{
    if addr_matches(s.last(), account, chain) {
        assert(is_last_of_key(s, s.len() - 1));
    } else {
        lemma_last_match(s.drop_last(), account, chain);
        let i = choose|i: int|
            0 <= i < s.len() - 1 && addr_matches(s.drop_last()[i], account, chain)
                && is_last_of_key(s.drop_last(), i);
        assert(s.drop_last()[i] == s[i]);
        assert(is_last_of_key(s, i)) by {
            assert(forall|j: int| i < j < s.len() - 1 ==> s.drop_last()[j] == s[j]);
            assert(!addr_key_eq(s[i], s[s.len() - 1]));
        }
    }
}

/// In a well-formed table, a pair with rows has exactly one active row.
pub proof fn lemma_one_active(s: Seq<PaymentAddress>, account: Seq<char>, chain: Chain)
    requires
        wf_addresses(s),
        count_for(s, account, chain) > 0,
    ensures
        exists|i: int|
            0 <= i < s.len() && addr_matches(s[i], account, chain) && s[i].is_active,
        forall|i: int, j: int|
            0 <= i < s.len() && 0 <= j < s.len() && addr_matches(s[i], account, chain)
                && addr_matches(s[j], account, chain) && s[i].is_active && s[j].is_active ==> i
                == j,
{
    lemma_last_match(s, account, chain);
    let w = choose|i: int|
        0 <= i < s.len() && addr_matches(s[i], account, chain) && is_last_of_key(s, i);
    assert(s[w].is_active);
    assert forall|i: int, j: int|
        0 <= i < s.len() && 0 <= j < s.len() && addr_matches(s[i], account, chain)
            && addr_matches(s[j], account, chain) && s[i].is_active && s[j].is_active implies i
        == j by {
        if i < j {
            assert(addr_key_eq(s[i], s[j]));
            assert(is_last_of_key(s, i));
        }
        if j < i {
            assert(addr_key_eq(s[j], s[i]));
            assert(is_last_of_key(s, j));
        }
    }
}

/// A pair with no active row has no rows at all.
pub proof fn lemma_no_active_no_rows(s: Seq<PaymentAddress>, account: Seq<char>, chain: Chain)
    requires
        wf_addresses(s),
        forall|i: int|
            0 <= i < s.len() ==> !(addr_matches(s[i], account, chain) && s[i].is_active),
    ensures
        count_for(s, account, chain) == 0,
{
    if count_for(s, account, chain) > 0 {
        lemma_one_active(s, account, chain);
    }
}

/// Counts agree between tables whose rows have the same keys position by
/// position.
pub proof fn lemma_count_pointwise(
    s: Seq<PaymentAddress>,
    t: Seq<PaymentAddress>,
    account: Seq<char>,
    chain: Chain,
)
    requires
        s.len() == t.len(),
        forall|k: int|
            0 <= k < s.len() ==> s[k].account_id@ == t[k].account_id@ && s[k].chain == t[k].chain,
    ensures
        count_for(s, account, chain) == count_for(t, account, chain),
    decreases s.len(),
{
    if s.len() > 0 {
        assert(forall|k: int| 0 <= k < s.len() - 1 ==> s.drop_last()[k] == s[k]);
        assert(forall|k: int| 0 <= k < t.len() - 1 ==> t.drop_last()[k] == t[k]);
        lemma_count_pointwise(s.drop_last(), t.drop_last(), account, chain);
        assert(s.last() == s[s.len() - 1]);
        assert(t.last() == t[t.len() - 1]);
    }
}

/// Counts over prefixes never decrease.
pub proof fn lemma_count_take_mono(
    s: Seq<PaymentAddress>,
    account: Seq<char>,
    chain: Chain,
    k1: int,
    k2: int,
)
    requires
        0 <= k1 <= k2 <= s.len(),
    ensures
        count_for(s.take(k1), account, chain) <= count_for(s.take(k2), account, chain),
    decreases k2 - k1,
{
    if k1 < k2 {
        lemma_count_take_mono(s, account, chain, k1, k2 - 1);
        assert(s.take(k2).drop_last() =~= s.take(k2 - 1));
    }
}

/// A match at position j is counted by the prefix ending just after it.
pub proof fn lemma_count_take_match(
    s: Seq<PaymentAddress>,
    account: Seq<char>,
    chain: Chain,
    j: int,
)
    requires
        0 <= j < s.len(),
        addr_matches(s[j], account, chain),
    ensures
        count_for(s.take(j + 1), account, chain) == count_for(s.take(j), account, chain) + 1,
{
    assert(s.take(j + 1).drop_last() =~= s.take(j));
    assert(s.take(j + 1).last() == s[j]);
}

/// Rows after a rotation: every earlier row keeps its fields, with the
/// rotated pair's rows deactivated.
pub open spec fn deactivated_as(
    a: PaymentAddress,
    b: PaymentAddress,
    account: Seq<char>,
    chain: Chain,
) -> bool {
    &&& b.account_id@ == a.account_id@
    &&& b.chain == a.chain
    &&& b.address@ == a.address@
    &&& b.derivation_index == a.derivation_index
    &&& b.chain_sub_index == a.chain_sub_index
    &&& b.is_active == (a.is_active && !addr_matches(a, account, chain))
}

/// A new address row was appended for the pair at the next free index, the
/// pair's earlier rows were deactivated, and nothing else changed.
pub open spec fn new_row_ok(
    pre: Store,
    post: Store,
    seed: Seq<u8>,
    account: Seq<char>,
    chain: Chain,
) -> bool {
    let idx = max_index_plus1(pre.addresses@, account, chain);
    &&& post.addresses@.len() == pre.addresses@.len() + 1
    &&& forall|k: int|
        0 <= k < pre.addresses@.len() ==> deactivated_as(
            pre.addresses@[k],
            post.addresses@[k],
            account,
            chain,
        )
    &&& post.addresses@.last().account_id@ == account
    &&& post.addresses@.last().chain == chain
    &&& post.addresses@.last().derivation_index == idx
    &&& post.addresses@.last().is_active
    &&& post.addresses@.last().address@ == chain_address_of(seed, chain, account, idx as u32)
    &&& post.addresses@.last().chain_sub_index == chain_sub_index_of(
        seed,
        chain,
        account,
        idx as u32,
    )
    &&& post.deposits == pre.deposits
    &&& post.ledger == pre.ledger
    &&& post.balances == pre.balances
    &&& post.cursors == pre.cursors
    &&& post.next_deposit_id == pre.next_deposit_id
}

/// Everything `rotate_address` promises, as one relation between the store
/// before, the store after, and the result.
pub open spec fn rotate_result(
    pre: Store,
    post: Store,
    seed: Seq<u8>,
    cap: u32,
    account: Seq<char>,
    chain: Chain,
    r: Result<String, ApiError>,
) -> bool {
    let count = count_for(pre.addresses@, account, chain);
    let idx = max_index_plus1(pre.addresses@, account, chain);
    if count >= cap {
        &&& r is Err
        &&& r->Err_0 is AddressLimitExceeded
        &&& r->Err_0->AddressLimitExceeded_0@ == "address limit reached ("@ + dec_str(count) + "/"@
            + dec_str(cap as nat) + ")"@
        &&& post == pre
    } else if idx > u32::MAX {
        &&& r is Err
        &&& r->Err_0 is Internal
        &&& post == pre
    } else {
        &&& r is Ok
        &&& r->Ok_0@ == chain_address_of(seed, chain, account, idx as u32)
        &&& new_row_ok(pre, post, seed, account, chain)
    }
}

/// Maps an account to its deposit addresses on each chain, rotating under a
/// per-account cap and deriving through one root deriver.
pub struct AddressRegistry {
    deriver: WalletDeriver,
    max_addresses_per_user: u32,
}

impl AddressRegistry {
    /// The root seed the registry derives from.
    pub closed spec fn seed(&self) -> Seq<u8> {
        self.deriver.seed()
    }

    /// The per-account cap.
    pub closed spec fn cap(&self) -> u32 {
        self.max_addresses_per_user
    }

    /// A registry with the default cap.
    pub fn new(deriver: WalletDeriver) -> (r: Self)
        ensures
            r.seed() == deriver.seed(),
            r.cap() == DEFAULT_MAX_ADDRESSES,
    {
        AddressRegistry { deriver, max_addresses_per_user: DEFAULT_MAX_ADDRESSES }
    }

    /// A registry with an explicit cap.
    pub fn with_max_addresses(deriver: WalletDeriver, max_addresses: u32) -> (r: Self)
        ensures
            r.seed() == deriver.seed(),
            r.cap() == max_addresses,
    {
        AddressRegistry { deriver, max_addresses_per_user: max_addresses }
    }

    /// Change the cap.
    pub fn set_max_addresses(&mut self, max_addresses: u32)
        ensures
            final(self).cap() == max_addresses,
            final(self).seed() == old(self).seed(),
    {
        self.max_addresses_per_user = max_addresses;
    }

    /// How many rows the pair has.
    #[verifier::loop_isolation(false)]
    pub fn count_addresses(&self, store: &Store, account_id: &str, chain: Chain) -> (r: u64)
        ensures
            r == count_for(store.addresses@, account_id@, chain),
    {
        let n = store.addresses.len();
        let mut count: u64 = 0;
        let mut i: usize = 0;
        proof {
            assert(store.addresses@.take(0) =~= Seq::<PaymentAddress>::empty());
        }
        while i < n
            invariant
                i <= n,
                count == count_for(store.addresses@.take(i as int), account_id@, chain),
                count <= i,
            decreases n - i,
        {
            proof {
                assert(store.addresses@.take(i + 1).drop_last() =~= store.addresses@.take(i as int));
                assert(store.addresses@.take(i + 1).last() == store.addresses@[i as int]);
            }
            let row = &store.addresses[i];
            if str_eq(row.account_id.as_str(), account_id) && row.chain == chain {
                count += 1;
            }
            i += 1;
        }
        proof {
            assert(store.addresses@.take(n as int) =~= store.addresses@);
        }
        count
    }

    /// How many address slots the pair still has under the cap.
    pub fn remaining_address_slots(&self, store: &Store, account_id: &str, chain: Chain) -> (r:
        u64)
        ensures
            r == if count_for(store.addresses@, account_id@, chain) >= self.cap() {
                0int
            } else {
                self.cap() - count_for(store.addresses@, account_id@, chain)
            },
    {
        let count = self.count_addresses(store, account_id, chain);
        if count >= self.max_addresses_per_user as u64 {
            0
        } else {
            self.max_addresses_per_user as u64 - count
        }
    }

    /// The pair's newest derivation index plus one, if it has rows.
    #[verifier::loop_isolation(false)]
    fn last_index(&self, store: &Store, account_id: &str, chain: Chain) -> (r: Option<u32>)
        ensures
            r is None ==> max_index_plus1(store.addresses@, account_id@, chain) == 0,
            r is Some ==> max_index_plus1(store.addresses@, account_id@, chain) == r->0 + 1,
    {
        let n = store.addresses.len();
        let mut found: Option<u32> = None;
        let mut i: usize = 0;
        while i < n
            invariant
                i <= n,
                found is None ==> max_index_plus1(
                    store.addresses@.take(i as int),
                    account_id@,
                    chain,
                ) == 0,
                found is Some ==> max_index_plus1(
                    store.addresses@.take(i as int),
                    account_id@,
                    chain,
                ) == found->0 + 1,
            decreases n - i,
        {
            proof {
                assert(store.addresses@.take(i + 1).drop_last() =~= store.addresses@.take(i as int));
                assert(store.addresses@.take(i + 1).last() == store.addresses@[i as int]);
            }
            let row = &store.addresses[i];
            if str_eq(row.account_id.as_str(), account_id) && row.chain == chain {
                found = Some(row.derivation_index);
            }
            i += 1;
        }
        proof {
            assert(store.addresses@.take(n as int) =~= store.addresses@);
        }
        found
    }

    /// Derive and append the pair's next address row, deactivating the
    /// earlier ones. The single mutation step behind get-or-create and
    /// rotation.
    fn derive_and_store(&self, store: &mut Store, account_id: &str, chain: Chain, index: u32) -> (r:
        String)
        requires
            old(store).wf(),
            !(chain is Stripe),
            max_index_plus1(old(store).addresses@, account_id@, chain) == index,
        ensures
            final(store).wf(),
            new_row_ok(*old(store), *final(store), self.seed(), account_id@, chain),
            r@ == chain_address_of(self.seed(), chain, account_id@, index),
    {
        let n = store.addresses.len();
        let mut i: usize = 0;
        while i < n
            invariant
                n == store.addresses@.len(),
                i <= n,
                store.deposits == old(store).deposits,
                store.ledger == old(store).ledger,
                store.balances == old(store).balances,
                store.cursors == old(store).cursors,
                store.next_deposit_id == old(store).next_deposit_id,
                forall|k: int|
                    0 <= k < i ==> deactivated_as(
                        old(store).addresses@[k],
                        store.addresses@[k],
                        account_id@,
                        chain,
                    ),
                forall|k: int| i <= k < n ==> store.addresses@[k] == old(store).addresses@[k],
            decreases n - i,
        {
            let row = &store.addresses[i];
            if str_eq(row.account_id.as_str(), account_id) && row.chain == chain {
                if row.is_active {
                    let newr = PaymentAddress {
                        account_id: row.account_id.clone(),
                        chain: row.chain,
                        address: row.address.clone(),
                        derivation_index: row.derivation_index,
                        chain_sub_index: row.chain_sub_index,
                        is_active: false,
                    };
                    vstd::pervasive::VecAdditionalExecFns::set(&mut store.addresses, i, newr);
                }
            }
            i += 1;
        }
        let (address, sub_index) = match chain {
            Chain::PolkadotAssethub => (self.deriver.derive_polkadot_address(account_id, index),
            None),
            Chain::Penumbra => {
                let (a, s) = self.deriver.derive_penumbra_address(account_id, index);
                (a, Some(s))
            },
            Chain::Stripe => {
                proof {
                    assert(false);
                }
                (String::new(), None)
            },
        };
        let newr = PaymentAddress {
            account_id: account_id.to_owned(),
            chain,
            address: address.clone(),
            derivation_index: index,
            chain_sub_index: sub_index,
            is_active: true,
        };
        store.addresses.push(newr);
        proof {
            let pre = old(store).addresses@;
            let post = store.addresses@;
            lemma_max_index(pre, account_id@, chain);
            assert(idx_increasing(post)) by {
                assert forall|p: int, q: int|
                    0 <= p < q < post.len() && addr_key_eq(post[p], post[q])
                        implies post[p].derivation_index < post[q].derivation_index by {
                    if q < post.len() - 1 {
                        assert(addr_key_eq(pre[p], pre[q]));
                    } else {
                        assert(addr_matches(pre[p], account_id@, chain));
                    }
                }
            }
            assert(active_last(post)) by {
                assert forall|p: int| 0 <= p < post.len() implies (post[p].is_active
                    <==> is_last_of_key(post, p)) by {
                    if p == post.len() - 1 {
                        assert(is_last_of_key(post, p));
                    } else if addr_matches(pre[p], account_id@, chain) {
                        assert(addr_key_eq(post[p], post[post.len() - 1]));
                        assert(!is_last_of_key(post, p));
                    } else {
                        assert(!addr_key_eq(post[p], post[post.len() - 1]));
                        if post[p].is_active {
                            assert(is_last_of_key(pre, p));
                            assert forall|j: int| p < j < post.len() implies !addr_key_eq(
                                post[p],
                                post[j],
                            ) by {
                                if j < post.len() - 1 {
                                    assert(!addr_key_eq(pre[p], pre[j]));
                                }
                            }
                        } else {
                            assert(!is_last_of_key(pre, p));
                            let w = choose|w: int|
                                p < w < pre.len() && addr_key_eq(pre[p], pre[w]);
                            assert(addr_key_eq(post[p], post[w]));
                        }
                    }
                }
            }
        }
        address
    }

    /// Return the pair's active address, deriving and persisting index 0 when
    /// the pair has none yet.
    #[verifier::loop_isolation(false)]
    pub fn get_deposit_address(&self, store: &mut Store, account_id: &str, chain: Chain) -> (r:
        Result<String, ApiError>)
        requires
            old(store).wf(),
            !(chain is Stripe),
        ensures
            final(store).wf(),
            r is Ok,
            count_for(old(store).addresses@, account_id@, chain) > 0 ==> *final(store) == *old(
                store,
            ) && exists|i: int|
                0 <= i < old(store).addresses@.len() && addr_matches(
                    #[trigger] old(store).addresses@[i],
                    account_id@,
                    chain,
                ) && old(store).addresses@[i].is_active && r->Ok_0@ == old(
                    store,
                ).addresses@[i].address@,
            count_for(old(store).addresses@, account_id@, chain) == 0 ==> new_row_ok(
                *old(store),
                *final(store),
                self.seed(),
                account_id@,
                chain,
            ) && r->Ok_0@ == chain_address_of(self.seed(), chain, account_id@, 0),
    {
        let n = store.addresses.len();
        let mut i: usize = 0;
        while i < n
            invariant
                i <= n,
                forall|k: int|
                    0 <= k < i ==> !(addr_matches(#[trigger] store.addresses@[k], account_id@, chain)
                        && store.addresses@[k].is_active),
            decreases n - i,
        {
            let row = &store.addresses[i];
            if str_eq(row.account_id.as_str(), account_id) && row.chain == chain && row.is_active {
                proof {
                    if count_for(store.addresses@, account_id@, chain) == 0 {
                        lemma_match_implies_rows(store.addresses@, account_id@, chain, i as int);
                    }
                }
                return Ok(row.address.clone());
            }
            i += 1;
        }
        proof {
            lemma_no_active_no_rows(store.addresses@, account_id@, chain);
            lemma_count0_max0(store.addresses@, account_id@, chain);
        }
        Ok(self.derive_and_store(store, account_id, chain, 0))
    }

    /// Rotate the pair's address: reject at the cap with "address limit
    /// reached (count/cap)", otherwise deactivate the current rows and derive
    /// the next index.
    pub fn rotate_address(&self, store: &mut Store, account_id: &str, chain: Chain) -> (r: Result<
        String,
        ApiError,
    >)
        requires
            old(store).wf(),
            !(chain is Stripe),
        ensures
            final(store).wf(),
            rotate_result(
                *old(store),
                *final(store),
                self.seed(),
                self.cap(),
                account_id@,
                chain,
                r,
            ),
    {
        let count = self.count_addresses(store, account_id, chain);
        if count >= self.max_addresses_per_user as u64 {
            let mut msg = "address limit reached (".to_owned();
            msg.append(u64_to_string(count).as_str());
            msg.append("/");
            msg.append(u64_to_string(self.max_addresses_per_user as u64).as_str());
            msg.append(")");
            return Err(ApiError::AddressLimitExceeded(msg));
        }
        let next: u32 = match self.last_index(store, account_id, chain) {
            None => 0,
            Some(v) => {
                if v == u32::MAX {
                    return Err(ApiError::Internal("derivation index overflow".to_owned()));
                }
                v + 1
            },
        };
        Ok(self.derive_and_store(store, account_id, chain, next))
    }

    /// The pair's address history, newest first: strictly decreasing
    /// derivation indices, the newest row active and all others inactive.
    #[verifier::loop_isolation(false)]
    pub fn list_addresses(&self, store: &Store, account_id: &str, chain: Chain) -> (r: Vec<
        (String, u32, bool),
    >)
        requires
            store.wf(),
        ensures
            r@.len() == count_for(store.addresses@, account_id@, chain),
            forall|p: int, q: int| 0 <= p < q < r@.len() ==> r@[p].1 > r@[q].1,
            forall|p: int|
                #![trigger r@[p]]
                0 <= p < r@.len() ==> exists|w: int|
                    0 <= w < store.addresses@.len() && addr_matches(
                        #[trigger] store.addresses@[w],
                        account_id@,
                        chain,
                    ) && r@[p].0@ == store.addresses@[w].address@ && r@[p].1
                        == store.addresses@[w].derivation_index && r@[p].2
                        == store.addresses@[w].is_active,
            r@.len() > 0 ==> r@[0].2,
            forall|p: int| 1 <= p < r@.len() ==> !r@[p].2,
    {
        let s = &store.addresses;
        let n = s.len();
        let ghost sv = store.addresses@;
        let mut r: Vec<(String, u32, bool)> = Vec::new();
        let ghost positions: Seq<int> = Seq::empty();
        let mut i: usize = n;
        proof {
            assert(sv.take(n as int) =~= sv);
        }
        while i > 0
            invariant
                i <= n,
                r@.len() + count_for(sv.take(i as int), account_id@, chain) == count_for(
                    sv,
                    account_id@,
                    chain,
                ),
                positions.len() == r@.len(),
                forall|p: int|
                    0 <= p < r@.len() ==> i <= #[trigger] positions[p] < n && addr_matches(
                        sv[positions[p]],
                        account_id@,
                        chain,
                    ) && r@[p].0@ == sv[positions[p]].address@ && r@[p].1
                        == sv[positions[p]].derivation_index && r@[p].2
                        == sv[positions[p]].is_active,
                forall|p: int, q: int| 0 <= p < q < r@.len() ==> positions[p] > positions[q],
                r@.len() > 0 ==> forall|j: int|
                    positions[0] < j < n ==> !addr_matches(#[trigger] sv[j], account_id@, chain),
            decreases i,
        {
            i -= 1;
            let row = &s[i];
            if str_eq(row.account_id.as_str(), account_id) && row.chain == chain {
                proof {
                    lemma_count_take_match(sv, account_id@, chain, i as int);
                    if r@.len() == 0 {
                        assert forall|j: int| i < j < n implies !addr_matches(
                            #[trigger] sv[j],
                            account_id@,
                            chain,
                        ) by {
                            if addr_matches(sv[j], account_id@, chain) {
                                lemma_count_take_match(sv, account_id@, chain, j);
                                lemma_count_take_mono(sv, account_id@, chain, i + 1, j);
                                lemma_count_take_mono(sv, account_id@, chain, j + 1, n as int);
                            }
                        }
                    }
                }
                r.push((row.address.clone(), row.derivation_index, row.is_active));
                proof {
                    positions = positions.push(i as int);
                    assert forall|p: int, q: int| 0 <= p < q < r@.len() implies positions[p]
                        > positions[q] by {
                        if q == r@.len() - 1 && p < q {
                            assert(positions[p] >= i + 1);
                        }
                    }
                }
            } else {
                proof {
                    assert(sv.take(i + 1).drop_last() =~= sv.take(i as int));
                    assert(sv.take(i + 1).last() == sv[i as int]);
                }
            }
        }
        proof {
            assert(sv.take(0) =~= Seq::<PaymentAddress>::empty());
            // newest row is active, later ones are not
            if r@.len() > 0 {
                let w0 = positions[0];
                assert(is_last_of_key(sv, w0)) by {
                    assert forall|j: int| w0 < j < sv.len() implies !addr_key_eq(sv[w0], sv[j]) by {
                        assert(!addr_matches(sv[j], account_id@, chain));
                    }
                }
                assert(sv[w0].is_active);
            }
            assert forall|p: int| 1 <= p < r@.len() implies !r@[p].2 by {
                let wp = positions[p];
                let w0 = positions[0];
                assert(addr_key_eq(sv[wp], sv[w0]));
                assert(!is_last_of_key(sv, wp));
            }
            // strictly decreasing indices
            assert forall|p: int, q: int| 0 <= p < q < r@.len() implies r@[p].1 > r@[q].1 by {
                assert(addr_key_eq(sv[positions[q]], sv[positions[p]]));
            }
            // each returned triple comes from a matching row
            assert forall|p: int| #![trigger r@[p]] 0 <= p < r@.len() implies exists|w: int|
                0 <= w < store.addresses@.len() && addr_matches(
                    #[trigger] store.addresses@[w],
                    account_id@,
                    chain,
                ) && r@[p].0@ == store.addresses@[w].address@ && r@[p].1
                    == store.addresses@[w].derivation_index && r@[p].2
                    == store.addresses@[w].is_active by {
                let w = positions[p];
                assert(0 <= w < store.addresses@.len() && addr_matches(
                    store.addresses@[w],
                    account_id@,
                    chain,
                ) && r@[p].0@ == store.addresses@[w].address@ && r@[p].1
                    == store.addresses@[w].derivation_index && r@[p].2
                    == store.addresses@[w].is_active);
            }
        }
        r
    }
}

/// A matching row makes the pair's count positive.
proof fn lemma_match_implies_rows(
    s: Seq<PaymentAddress>,
    account: Seq<char>,
    chain: Chain,
    i: int,
)
    requires
        0 <= i < s.len(),
        addr_matches(s[i], account, chain),
    ensures
        count_for(s, account, chain) > 0,
{
    lemma_count_take_match(s, account, chain, i);
    lemma_count_take_mono(s, account, chain, i + 1, s.len() as int);
    assert(s.take(s.len() as int) =~= s);
}

/// Cap enforcement: a rotation attempted at or past the cap fails with the
/// "address limit reached" error and the store — in particular the active
/// address — is exactly what it was.
pub proof fn lemma_cap_enforcement(
    pre: Store,
    post: Store,
    seed: Seq<u8>,
    cap: u32,
    account: Seq<char>,
    chain: Chain,
    r: Result<String, ApiError>,
)
    requires
        rotate_result(pre, post, seed, cap, account, chain, r),
        count_for(pre.addresses@, account, chain) >= cap,
    ensures
        r is Err,
        r->Err_0 is AddressLimitExceeded,
        post == pre,
{
}

/// A chain of successful rotations: each store arose from the previous one
/// by one appended row for the pair.
pub open spec fn rotate_chain(ss: Seq<Store>, seed: Seq<u8>, account: Seq<char>, chain: Chain) -> bool {
    forall|i: int|
        0 <= i < ss.len() - 1 ==> new_row_ok(#[trigger] ss[i], ss[i + 1], seed, account, chain)
}

/// Rotation monotonicity: k successful rotations add exactly k rows for the
/// pair. With the table invariants, the pair's history after them shows
/// strictly increasing derivation indices with exactly one active row, which
/// `list_addresses` returns newest-first.
pub proof fn lemma_rotation_monotonicity(
    ss: Seq<Store>,
    seed: Seq<u8>,
    account: Seq<char>,
    chain: Chain,
)
    requires
        ss.len() >= 1,
        rotate_chain(ss, seed, account, chain),
    ensures
        count_for(ss.last().addresses@, account, chain) == count_for(ss[0].addresses@, account, chain)
            + ss.len() - 1,
    decreases ss.len(),
{
    if ss.len() > 1 {
        assert(rotate_chain(ss.drop_last(), seed, account, chain)) by {
            assert(forall|i: int| 0 <= i < ss.len() - 1 ==> ss.drop_last()[i] == ss[i]);
        }
        lemma_rotation_monotonicity(ss.drop_last(), seed, account, chain);
        let pre = ss[ss.len() - 2];
        let post = ss.last();
        assert(new_row_ok(pre, post, seed, account, chain));
        assert(ss.drop_last().last() == pre);
        assert(post.addresses@.drop_last().len() == pre.addresses@.len());
        assert(forall|k: int|
            0 <= k < pre.addresses@.len() ==> post.addresses@.drop_last()[k]
                == post.addresses@[k]);
        lemma_count_pointwise(post.addresses@.drop_last(), pre.addresses@, account, chain);
        assert(addr_matches(post.addresses@.last(), account, chain));
    }
}

} // verus!
