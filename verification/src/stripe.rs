//! The card-payment rail: supported currencies and the webhook settlement
//! path, which funnels into the same crediting pipeline as the chains.

use vstd::prelude::*;

use crate::error::ApiError;
use crate::ledger::credit_result;
use crate::ledger::deposit_pos;
use crate::ledger::lemma_deposit_pos;
use crate::ledger::record_result;
use crate::store::Chain;
use crate::store::DepositStatus;
use crate::store::Store;
use crate::store::has_deposit;
use crate::store::tx_exists;

verus! {

/// Supported checkout currencies.
#[derive(Debug, Clone, Copy, PartialEq, Eq, Structural)]
pub enum Currency {
    Eur,
    Usd,
}

impl Default for Currency {
    /// The house currency.
    fn default() -> (r: Self)
        ensures
            r == Currency::Eur,
    {
        Currency::Eur
    }
}

impl Currency {
    /// The currency's lowercase code.
    pub fn as_str(&self) -> (r: &'static str)
        ensures
            self is Eur ==> r@ == "eur"@,
            self is Usd ==> r@ == "usd"@,
    {
        match self {
            Currency::Eur => "eur",
            Currency::Usd => "usd",
        }
    }

    /// The currency's symbol.
    pub fn symbol(&self) -> (r: &'static str)
        ensures
            self is Eur ==> r@ == "\u{20ac}"@,
            self is Usd ==> r@ == "$"@,
    {
        match self {
            Currency::Eur => "\u{20ac}",
            Currency::Usd => "$",
        }
    }
}

/// Everything `settle_card_payment` promises: a known payment id is a no-op,
/// a new one is recorded as a confirmed deposit and credited in the same
/// call.
pub open spec fn settle_result(
    pre: Store,
    post: Store,
    account: Seq<char>,
    payment_id: Seq<char>,
    asset: Seq<char>,
    amount: u64,
    now: i64,
    r: Result<Option<u64>, ApiError>,
) -> bool {
    if tx_exists(pre.deposits@, payment_id) {
        &&& r == Result::<Option<u64>, ApiError>::Ok(None)
        &&& post == pre
    } else {
        exists|mid: Store|
            {
                &&& #[trigger] record_result(
                    pre,
                    mid,
                    account,
                    Chain::Stripe,
                    payment_id,
                    asset,
                    amount,
                    Option::<Seq<char>>::None,
                    Option::<Seq<char>>::None,
                    now,
                    DepositStatus::Confirmed,
                    Result::<u64, ApiError>::Ok(pre.next_deposit_id),
                )
                &&& match r {
                    Ok(opt) => opt == Some(pre.next_deposit_id) && credit_result(
                        mid,
                        post,
                        pre.next_deposit_id,
                        now,
                        Result::<(), ApiError>::Ok(()),
                    ),
                    Err(e) => credit_result(
                        mid,
                        post,
                        pre.next_deposit_id,
                        now,
                        Result::<(), ApiError>::Err(e),
                    ),
                }
            }
    }
}

impl Store {
    /// Settle one card payment reported by the payment processor's webhook.
    /// The processor's payment id fills the transaction-hash role, so a
    /// replayed webhook is a no-op; a fresh payment is recorded confirmed
    /// and credited at once.
    pub fn settle_card_payment(
        &mut self,
        account_id: &str,
        payment_id: &str,
        asset: &str,
        amount: u64,
        now: i64,
    ) -> (r: Result<Option<u64>, ApiError>)
        requires
            old(self).wf(),
            old(self).next_deposit_id < u64::MAX,
            amount <= i64::MAX,
        ensures
            final(self).wf(),
            settle_result(
                *old(self),
                *final(self),
                account_id@,
                payment_id@,
                asset@,
                amount,
                now,
                r,
            ),
    {
        let id = match self.record_deposit(
            account_id,
            Chain::Stripe,
            payment_id,
            asset,
            amount,
            None,
            None,
            now,
            DepositStatus::Confirmed,
        ) {
            Ok(id) => id,
            Err(_) => {
                return Ok(None);
            },
        };
        let ghost mid = *self;
        let cr = self.credit_deposit(id, now);
        proof {
            assert(mid.deposits@[mid.deposits@.len() - 1].id == id);
            assert(has_deposit(mid.deposits@, id));
            lemma_deposit_pos(mid.deposits@, id);
            let p = deposit_pos(mid.deposits@, id);
            if p < mid.deposits@.len() - 1 {
                assert(mid.deposits@[p].id < id);
            }
            assert(p == mid.deposits@.len() - 1);
        }
        match cr {
            Ok(()) => Ok(Some(id)),
            Err(e) => Err(e),
        }
    }
}

} // verus!
