//! Chain-listener decision logic: the connection state machine, the owned
//! watch-list, block-number parsing, and the matching of observed transfers
//! against watched addresses or sub-indices.
//!
//! The listener's outside work — RPC calls, sleeping, reconnecting — happens
//! around these functions; every decision they make is stated here. The
//! watch-list is an owned collection, rebuilt from storage at startup and
//! changed only through `watch` and `unwatch`, so a freshly rotated address
//! becomes watchable without a restart.

use vstd::prelude::*;

use crate::crypto::hex_digit_val;
use crate::crypto::str_eq;
use crate::error::ApiError;
use crate::ledger::record_result;
use crate::store::Chain;
use crate::store::DepositStatus;
use crate::store::Store;
use vstd::string::StrSliceExecFns;

verus! {

/// Connection lifecycle of one listener.
#[derive(Clone, Copy, Debug, PartialEq, Eq, Structural)]
pub enum ListenerState {
    Disconnected,
    Connected,
    Polling { last_seen_height: u64 },
}

/// The two chain families a listener can watch.
#[derive(Clone, Copy, Debug, PartialEq, Eq, Structural)]
pub enum ListenerVariant {
    /// Account-addressed: transfers name their destination address.
    Transparent,
    /// Index-addressed: notes carry a derivation sub-index instead of an
    /// address.
    Shielded,
}

/// One watched address of an account.
pub struct WatchEntry {
    pub address: String,
    pub account_id: String,
    pub derivation_index: u32,
    pub sub_index: Option<u64>,
}

/// The watch-list without any entry for an address.
pub open spec fn without_addr(s: Seq<WatchEntry>, addr: Seq<char>) -> Seq<WatchEntry>
    decreases s.len(),
{
    if s.len() == 0 {
        Seq::empty()
    } else {
        let rest = without_addr(s.drop_last(), addr);
        if s.last().address@ == addr {
            rest
        } else {
            rest.push(s.last())
        }
    }
}

/// Whether some entry watches an address.
pub open spec fn watches_addr(s: Seq<WatchEntry>, addr: Seq<char>) -> bool {
    exists|i: int| 0 <= i < s.len() && s[i].address@ == addr
}

/// Whether some entry watches a sub-index.
pub open spec fn watches_sub(s: Seq<WatchEntry>, sub: u64) -> bool {
    exists|i: int| 0 <= i < s.len() && s[i].sub_index == Some(sub)
}

/// The set of addresses and sub-indices a listener treats as belonging to
/// known accounts.
pub struct WatchList {
    pub entries: Vec<WatchEntry>,
}

impl WatchList {
    /// An empty watch-list.
    pub fn new() -> (r: WatchList)
        ensures
            r.entries@.len() == 0,
    {
        WatchList { entries: Vec::new() }
    }

    /// Stop watching an address: every entry for it is dropped, the rest
    /// keep their order.
    #[verifier::loop_isolation(false)]
    pub fn unwatch(&mut self, address: &str)
        ensures
            final(self).entries@ == without_addr(old(self).entries@, address@),
    {
        let n = self.entries.len();
        let mut out: Vec<WatchEntry> = Vec::new();
        let mut i: usize = 0;
        proof {
            assert(self.entries@.take(0) =~= Seq::<WatchEntry>::empty());
        }
        while i < n
            invariant
                i <= n,
                out@ == without_addr(self.entries@.take(i as int), address@),
            decreases n - i,
        {
            proof {
                assert(self.entries@.take(i + 1).drop_last() =~= self.entries@.take(i as int));
                assert(self.entries@.take(i + 1).last() == self.entries@[i as int]);
            }
            let e = &self.entries[i];
            if !str_eq(e.address.as_str(), address) {
                out.push(
                    WatchEntry {
                        address: e.address.clone(),
                        account_id: e.account_id.clone(),
                        derivation_index: e.derivation_index,
                        sub_index: e.sub_index,
                    },
                );
                proof {
                    assert(out@.drop_last() =~= out@.drop_last());
                    assert(out@.last() == self.entries@[i as int]) by {
                        assert(out@.last().address@ == self.entries@[i as int].address@);
                    }
                }
            }
            i += 1;
        }
        proof {
            assert(self.entries@.take(n as int) =~= self.entries@);
        }
        self.entries = out;
    }

    /// Watch an address for an account, replacing any earlier entry for it.
    pub fn watch(
        &mut self,
        address: &str,
        account_id: &str,
        derivation_index: u32,
        sub_index: Option<u64>,
    )
        ensures
            final(self).entries@.len() == without_addr(old(self).entries@, address@).len() + 1,
            final(self).entries@.drop_last() == without_addr(old(self).entries@, address@),
            final(self).entries@.last().address@ == address@,
            final(self).entries@.last().account_id@ == account_id@,
            final(self).entries@.last().derivation_index == derivation_index,
            final(self).entries@.last().sub_index == sub_index,
    {
        self.unwatch(address);
        self.entries.push(
            WatchEntry {
                address: address.to_owned(),
                account_id: account_id.to_owned(),
                derivation_index,
                sub_index,
            },
        );
        proof {
            assert(self.entries@.drop_last() =~= without_addr(old(self).entries@, address@));
        }
    }

    /// The account and derivation index watching an address, if any.
    #[verifier::loop_isolation(false)]
    pub fn match_address(&self, to_address: &str) -> (r: Option<(String, u32)>)
        ensures
            r is Some <==> watches_addr(self.entries@, to_address@),
            r is Some ==> exists|i: int|
                0 <= i < self.entries@.len() && #[trigger] self.entries@[i].address@ == to_address@
                    && (r->0).0@ == self.entries@[i].account_id@ && (r->0).1
                    == self.entries@[i].derivation_index,
    {
        let n = self.entries.len();
        let mut i: usize = 0;
        while i < n
            invariant
                i <= n,
                forall|k: int| 0 <= k < i ==> self.entries@[k].address@ != to_address@,
            decreases n - i,
        {
            let e = &self.entries[i];
            if str_eq(e.address.as_str(), to_address) {
                return Some((e.account_id.clone(), e.derivation_index));
            }
            i += 1;
        }
        None
    }

    /// The account and derivation index watching a sub-index, if any. On the
    /// shielded chain the address itself never appears on-chain, so this is
    /// the only way back to an account.
    #[verifier::loop_isolation(false)]
    pub fn match_sub_index(&self, sub: u64) -> (r: Option<(String, u32)>)
        ensures
            r is Some <==> watches_sub(self.entries@, sub),
            r is Some ==> exists|i: int|
                0 <= i < self.entries@.len() && #[trigger] self.entries@[i].sub_index == Some(sub)
                    && (r->0).0@ == self.entries@[i].account_id@ && (r->0).1
                    == self.entries@[i].derivation_index,
    {
        let n = self.entries.len();
        let mut i: usize = 0;
        while i < n
            invariant
                i <= n,
                forall|k: int| 0 <= k < i ==> self.entries@[k].sub_index != Some(sub),
            decreases n - i,
        {
            let e = &self.entries[i];
            let hit = match e.sub_index {
                Some(s) => s == sub,
                None => false,
            };
            if hit {
                return Some((e.account_id.clone(), e.derivation_index));
            }
            i += 1;
        }
        None
    }

    /// Rebuild the list from storage: one entry per active address of the
    /// chain. Run at startup, before the listener's loop, so notes arriving
    /// for already-issued addresses are matched.
    #[verifier::loop_isolation(false)]
    pub fn rebuild_from_store(store: &Store, chain: Chain) -> (r: WatchList)
        ensures
            forall|p: int|
                #![trigger r.entries@[p]]
                0 <= p < r.entries@.len() ==> exists|w: int|
                    0 <= w < store.addresses@.len() && (#[trigger] store.addresses@[w]).chain
                        == chain && store.addresses@[w].is_active && r.entries@[p].address@
                        == store.addresses@[w].address@ && r.entries@[p].account_id@
                        == store.addresses@[w].account_id@ && r.entries@[p].derivation_index
                        == store.addresses@[w].derivation_index && r.entries@[p].sub_index
                        == store.addresses@[w].chain_sub_index,
            forall|w: int|
                0 <= w < store.addresses@.len() && (#[trigger] store.addresses@[w]).chain == chain
                    && store.addresses@[w].is_active ==> exists|p: int|
                    0 <= p < r.entries@.len() && (#[trigger] r.entries@[p]).address@
                        == store.addresses@[w].address@ && r.entries@[p].account_id@
                        == store.addresses@[w].account_id@ && r.entries@[p].derivation_index
                        == store.addresses@[w].derivation_index && r.entries@[p].sub_index
                        == store.addresses@[w].chain_sub_index,
    {
        let n = store.addresses.len();
        let mut entries: Vec<WatchEntry> = Vec::new();
        let mut i: usize = 0;
        while i < n
            invariant
                i <= n,
                forall|p: int|
                    #![trigger entries@[p]]
                    0 <= p < entries@.len() ==> exists|w: int|
                        0 <= w < store.addresses@.len() && (#[trigger] store.addresses@[w]).chain
                            == chain && store.addresses@[w].is_active && entries@[p].address@
                            == store.addresses@[w].address@ && entries@[p].account_id@
                            == store.addresses@[w].account_id@ && entries@[p].derivation_index
                            == store.addresses@[w].derivation_index && entries@[p].sub_index
                            == store.addresses@[w].chain_sub_index,
                forall|w: int|
                    0 <= w < i && (#[trigger] store.addresses@[w]).chain == chain
                        && store.addresses@[w].is_active ==> exists|p: int|
                        0 <= p < entries@.len() && (#[trigger] entries@[p]).address@
                            == store.addresses@[w].address@ && entries@[p].account_id@
                            == store.addresses@[w].account_id@ && entries@[p].derivation_index
                            == store.addresses@[w].derivation_index && entries@[p].sub_index
                            == store.addresses@[w].chain_sub_index,
            decreases n - i,
        {
            let row = &store.addresses[i];
            let ghost before = entries@;
            if row.chain == chain && row.is_active {
                entries.push(
                    WatchEntry {
                        address: row.address.clone(),
                        account_id: row.account_id.clone(),
                        derivation_index: row.derivation_index,
                        sub_index: row.chain_sub_index,
                    },
                );
                proof {
                    assert forall|w: int|
                        0 <= w < i + 1 && (#[trigger] store.addresses@[w]).chain == chain
                            && store.addresses@[w].is_active implies exists|p: int|
                        0 <= p < entries@.len() && (#[trigger] entries@[p]).address@
                            == store.addresses@[w].address@ && entries@[p].account_id@
                            == store.addresses@[w].account_id@ && entries@[p].derivation_index
                            == store.addresses@[w].derivation_index && entries@[p].sub_index
                            == store.addresses@[w].chain_sub_index by {
                        if w < i {
                            let q = choose|q: int|
                                0 <= q < before.len() && (#[trigger] before[q]).address@
                                    == store.addresses@[w].address@ && before[q].account_id@
                                    == store.addresses@[w].account_id@
                                    && before[q].derivation_index
                                    == store.addresses@[w].derivation_index && before[q].sub_index
                                    == store.addresses@[w].chain_sub_index;
                            assert(entries@[q] == before[q]);
                        } else {
                            assert(entries@[entries@.len() - 1].address@
                                == store.addresses@[w].address@);
                        }
                    }
                }
            }
            i += 1;
        }
        let ghost es = entries@;
        let r = WatchList { entries };
        proof {
            assert(r.entries@ == es);
            assert forall|w: int|
                0 <= w < store.addresses@.len() && (#[trigger] store.addresses@[w]).chain == chain
                    && store.addresses@[w].is_active implies exists|p: int|
                0 <= p < r.entries@.len() && (#[trigger] r.entries@[p]).address@
                    == store.addresses@[w].address@ && r.entries@[p].account_id@
                    == store.addresses@[w].account_id@ && r.entries@[p].derivation_index
                    == store.addresses@[w].derivation_index && r.entries@[p].sub_index
                    == store.addresses@[w].chain_sub_index by {
                let q = choose|q: int|
                    0 <= q < es.len() && (#[trigger] es[q]).address@
                        == store.addresses@[w].address@ && es[q].account_id@
                        == store.addresses@[w].account_id@ && es[q].derivation_index
                        == store.addresses@[w].derivation_index && es[q].sub_index
                        == store.addresses@[w].chain_sub_index;
                assert(r.entries@[q] == es[q]);
            }
        }
        r
    }
}

/// One listener: a chain variant, its connection state, and its watch-list.
pub struct ChainListener {
    pub variant: ListenerVariant,
    pub state: ListenerState,
    pub watch: WatchList,
}

impl ChainListener {
    /// The chain this listener's deposits belong to.
    pub open spec fn chain(&self) -> Chain {
        match self.variant {
            ListenerVariant::Transparent => Chain::PolkadotAssethub,
            ListenerVariant::Shielded => Chain::Penumbra,
        }
    }

    /// A fresh listener, disconnected with an empty watch-list.
    pub fn new(variant: ListenerVariant) -> (r: ChainListener)
        ensures
            r.variant == variant,
            r.state is Disconnected,
            r.watch.entries@.len() == 0,
    {
        ChainListener { variant, state: ListenerState::Disconnected, watch: WatchList::new() }
    }

    /// The connection came up.
    pub fn on_connected(&mut self)
        ensures
            final(self).state is Connected,
            final(self).variant == old(self).variant,
            final(self).watch == old(self).watch,
    {
        self.state = ListenerState::Connected;
    }

    /// Resume from the chain's durable watermark: polling continues exactly
    /// where the last run left off, instead of from "now".
    pub fn resume(&mut self, store: &crate::store::Store)
        ensures
            final(self).state == (ListenerState::Polling {
                last_seen_height: crate::store::cursor_of(store.cursors@, old(self).chain()),
            }),
            final(self).variant == old(self).variant,
            final(self).watch == old(self).watch,
    {
        let chain = match self.variant {
            ListenerVariant::Transparent => Chain::PolkadotAssethub,
            ListenerVariant::Shielded => Chain::Penumbra,
        };
        let height = store.cursor_height(chain);
        self.state = ListenerState::Polling { last_seen_height: height };
    }

    /// A transient error: fall back to disconnected and let the loop retry
    /// after its delay. The listener never terminates on an error.
    pub fn on_error(&mut self)
        ensures
            final(self).state is Disconnected,
            final(self).variant == old(self).variant,
            final(self).watch == old(self).watch,
    {
        self.state = ListenerState::Disconnected;
    }

    /// A finalized height was observed. Returns whether the block range is
    /// new and must be processed; an unchanged or lower height is a no-op.
    pub fn observe_finalized(&mut self, height: u64) -> (process: bool)
        requires
            !(old(self).state is Disconnected),
        ensures
            final(self).variant == old(self).variant,
            final(self).watch == old(self).watch,
            old(self).state is Connected ==> process && final(self).state == (
            ListenerState::Polling { last_seen_height: height }),
            old(self).state matches ListenerState::Polling { last_seen_height: last } ==> (process
                <==> height > last) && final(self).state == (ListenerState::Polling {
                last_seen_height: if height > last {
                    height
                } else {
                    last
                },
            }),
    {
        match self.state {
            ListenerState::Disconnected => {
                proof {
                    assert(false);
                }
                false
            },
            ListenerState::Connected => {
                self.state = ListenerState::Polling { last_seen_height: height };
                true
            },
            ListenerState::Polling { last_seen_height } => {
                if height > last_seen_height {
                    self.state = ListenerState::Polling { last_seen_height: height };
                    true
                } else {
                    false
                }
            },
        }
    }

    /// A transfer to an address was observed on the transparent chain: when
    /// the address is watched, record a pending deposit for its account;
    /// otherwise leave the store untouched.
    pub fn observe_transfer(
        &self,
        store: &mut Store,
        to_address: &str,
        tx_hash: &str,
        asset: &str,
        amount: u64,
        created_at: i64,
    ) -> (r: Result<Option<u64>, ApiError>)
        requires
            old(store).wf(),
            old(store).next_deposit_id < u64::MAX,
            amount <= i64::MAX,
        ensures
            final(store).wf(),
            !watches_addr(self.watch.entries@, to_address@) ==> r == Result::<
                Option<u64>,
                ApiError,
            >::Ok(None) && *final(store) == *old(store),
            watches_addr(self.watch.entries@, to_address@) ==> exists|i: int|
                0 <= i < self.watch.entries@.len() && #[trigger] self.watch.entries@[i].address@
                    == to_address@ && record_result(
                    *old(store),
                    *final(store),
                    self.watch.entries@[i].account_id@,
                    self.chain(),
                    tx_hash@,
                    asset@,
                    amount,
                    Option::<Seq<char>>::None,
                    Some(to_address@),
                    created_at,
                    DepositStatus::Pending,
                    if r is Ok {
                        Result::<u64, ApiError>::Ok(r->Ok_0->0)
                    } else {
                        Result::<u64, ApiError>::Err(r->Err_0)
                    },
                ),
    {
        let hit = self.watch.match_address(to_address);
        match hit {
            None => Ok(None),
            Some((account_id, _index)) => {
                let chain = match self.variant {
                    ListenerVariant::Transparent => Chain::PolkadotAssethub,
                    ListenerVariant::Shielded => Chain::Penumbra,
                };
                match store.record_deposit(
                    account_id.as_str(),
                    chain,
                    tx_hash,
                    asset,
                    amount,
                    None,
                    Some(to_address),
                    created_at,
                    DepositStatus::Pending,
                ) {
                    Ok(id) => Ok(Some(id)),
                    Err(e) => Err(e),
                }
            },
        }
    }

    /// A note carrying a derivation sub-index was observed on the shielded
    /// chain: when the sub-index is watched, record a pending deposit for
    /// its account; otherwise leave the store untouched.
    pub fn observe_note(
        &self,
        store: &mut Store,
        sub_index: u64,
        tx_hash: &str,
        asset: &str,
        amount: u64,
        created_at: i64,
    ) -> (r: Result<Option<u64>, ApiError>)
        requires
            old(store).wf(),
            old(store).next_deposit_id < u64::MAX,
            amount <= i64::MAX,
        ensures
            final(store).wf(),
            !watches_sub(self.watch.entries@, sub_index) ==> r == Result::<
                Option<u64>,
                ApiError,
            >::Ok(None) && *final(store) == *old(store),
            watches_sub(self.watch.entries@, sub_index) ==> exists|i: int|
                0 <= i < self.watch.entries@.len() && #[trigger] self.watch.entries@[i].sub_index
                    == Some(sub_index) && record_result(
                    *old(store),
                    *final(store),
                    self.watch.entries@[i].account_id@,
                    self.chain(),
                    tx_hash@,
                    asset@,
                    amount,
                    Option::<Seq<char>>::None,
                    Option::<Seq<char>>::None,
                    created_at,
                    DepositStatus::Pending,
                    if r is Ok {
                        Result::<u64, ApiError>::Ok(r->Ok_0->0)
                    } else {
                        Result::<u64, ApiError>::Err(r->Err_0)
                    },
                ),
    {
        let hit = self.watch.match_sub_index(sub_index);
        match hit {
            None => Ok(None),
            Some((account_id, _index)) => {
                let chain = match self.variant {
                    ListenerVariant::Transparent => Chain::PolkadotAssethub,
                    ListenerVariant::Shielded => Chain::Penumbra,
                };
                match store.record_deposit(
                    account_id.as_str(),
                    chain,
                    tx_hash,
                    asset,
                    amount,
                    None,
                    None,
                    created_at,
                    DepositStatus::Pending,
                ) {
                    Ok(id) => Ok(Some(id)),
                    Err(e) => Err(e),
                }
            },
        }
    }
}

/// Numeric value of a hex digit string, most significant digit first.
pub open spec fn hex_seq_val(s: Seq<char>) -> int
    decreases s.len(),
{
    if s.len() == 0 {
        0
    } else {
        hex_seq_val(s.drop_last()) * 16 + hex_digit_val(s.last())
    }
}

/// The value never goes down as digits are appended.
proof fn lemma_hex_val_mono(s: Seq<char>, k: int)
    requires
        0 <= k <= s.len(),
    ensures
        0 <= hex_seq_val(s.take(k)) <= hex_seq_val(s),
    decreases s.len() - k,
{
    if k == s.len() {
        assert(s.take(k) =~= s);
        lemma_hex_val_nonneg(s);
    } else {
        lemma_hex_val_mono(s, k + 1);
        lemma_hex_val_nonneg(s.take(k));
        assert(s.take(k + 1).drop_last() =~= s.take(k));
        assert(hex_seq_val(s.take(k + 1)) == hex_seq_val(s.take(k)) * 16 + hex_digit_val(
            s.take(k + 1).last(),
        ));
    }
}

/// The value of a digit string is never negative.
proof fn lemma_hex_val_nonneg(s: Seq<char>)
    ensures
        hex_seq_val(s) >= 0,
    decreases s.len(),
{
    if s.len() > 0 {
        lemma_hex_val_nonneg(s.drop_last());
    }
}

/// Whether a block-number string is well formed: "0x", then at least one hex
/// digit, with a value that fits 64 bits.
pub open spec fn block_number_ok(s: Seq<char>) -> bool {
    &&& s.len() >= 3
    &&& s[0] == '0'
    &&& s[1] == 'x'
    &&& forall|i: int| 2 <= i < s.len() ==> hex_digit_val(#[trigger] s[i]) < 16
    &&& hex_seq_val(s.skip(2)) <= u64::MAX
}

/// Value of a hex digit, or 16 for any other character.
fn hex_digit_value(c: char) -> (r: u8)
    ensures
        r == hex_digit_val(c),
{
    let v = c as u32;
    if 0x30 <= v && v <= 0x39 {
        (v - 0x30) as u8
    } else if 0x61 <= v && v <= 0x66 {
        (v - 0x57) as u8
    } else if 0x41 <= v && v <= 0x46 {
        (v - 0x37) as u8
    } else {
        16
    }
}

/// Parse a chain's hex block number, "0x" prefix included. Succeeds exactly
/// on well-formed strings and returns the denoted height.
#[verifier::loop_isolation(false)]
pub fn parse_block_number(s: &str) -> (r: Result<u64, ApiError>)
    ensures
        r is Ok <==> block_number_ok(s@),
        r is Ok ==> r->Ok_0 == hex_seq_val(s@.skip(2)),
{
    let n = s.unicode_len();
    if n < 3 {
        return Err(ApiError::InvalidRequest("malformed block number".to_owned()));
    }
    if !(s.get_char(0) == '0' && s.get_char(1) == 'x') {
        return Err(ApiError::InvalidRequest("malformed block number".to_owned()));
    }
    let mut v: u64 = 0;
    let mut i: usize = 2;
    proof {
        assert(s@.subrange(2, 2) =~= Seq::<char>::empty());
    }
    while i < n
        invariant
            2 <= i <= n,
            v == hex_seq_val(s@.subrange(2, i as int)),
            forall|k: int| 2 <= k < i ==> hex_digit_val(#[trigger] s@[k]) < 16,
        decreases n - i,
    {
        let c = s.get_char(i);
        let d = hex_digit_value(c);
        if d >= 16 {
            return Err(ApiError::InvalidRequest("malformed block number".to_owned()));
        }
        proof {
            assert(s@.subrange(2, i + 1).drop_last() =~= s@.subrange(2, i as int));
            assert(s@.subrange(2, i + 1).last() == s@[i as int]);
        }
        if v > (u64::MAX - (d as u64)) / 16 {
            // the digits so far already exceed 64 bits, so the whole string does
            proof {
                let t = s@.skip(2);
                assert(t.take(i - 2) =~= s@.subrange(2, i as int));
                assert(t.take(i - 1) =~= s@.subrange(2, i + 1));
                lemma_hex_val_mono(t, i - 1);
                assert(hex_seq_val(s@.subrange(2, i + 1)) == v * 16 + d);
                assert(v * 16 + d > u64::MAX) by {
                    assert(v >= (u64::MAX - (d as u64)) / 16 + 1);
                    assert(((u64::MAX - (d as u64)) / 16 + 1) * 16 >= u64::MAX - d + 1)
                        by (nonlinear_arith);
                    assert(v * 16 >= ((u64::MAX - (d as u64)) / 16 + 1) * 16) by (nonlinear_arith)
                        requires
                            v >= (u64::MAX - (d as u64)) / 16 + 1,
                    ;
                }
            }
            return Err(ApiError::InvalidRequest("block number out of range".to_owned()));
        }
        proof {
            assert(v * 16 + d <= u64::MAX) by {
                assert(v <= (u64::MAX - (d as u64)) / 16);
                assert(v * 16 <= ((u64::MAX - (d as u64)) / 16) * 16) by (nonlinear_arith)
                    requires
                        v <= (u64::MAX - (d as u64)) / 16,
                ;
                assert(((u64::MAX - (d as u64)) / 16) * 16 <= u64::MAX - d) by (nonlinear_arith);
            }
        }
        v = v * 16 + (d as u64);
        i += 1;
    }
    proof {
        assert(s@.subrange(2, n as int) =~= s@.skip(2));
    }
    Ok(v)
}

} // verus!
