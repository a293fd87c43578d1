//! The payment attached to a call: what counts as a donation, and the coins of
//! a transfer.

use crate::error::{PaymentError, PaymentErrorView};
use crate::host::{coin_views, Coin, CoinView, MessageInfo};
use vstd::prelude::*;

verus! {

/// What `funds` pay in `denom`: the amount, where they are a single coin of
/// that denomination with a non-zero amount, and else what is wrong with them.
pub open spec fn paid(funds: Seq<CoinView>, denom: Seq<char>) -> Result<u128, PaymentErrorView> {
    if funds.len() == 0 {
        Err(PaymentErrorView::NoFunds)
    } else if funds.len() > 1 {
        Err(PaymentErrorView::MultipleDenoms)
    } else if funds[0].amount == 0 {
        Err(PaymentErrorView::NoFunds)
    } else if funds[0].denom != denom {
        Err(PaymentErrorView::MissingDenom(denom))
    } else {
        Ok(funds[0].amount)
    }
}

/// The view of what a payment was found to pay.
pub open spec fn paid_view(r: Result<u128, PaymentError>) -> Result<u128, PaymentErrorView> {
    match r {
        Ok(amount) => Ok(amount),
        Err(e) => Err(e@),
    }
}

/// Calls `cw_utils::must_pay` on the funds of `info`. The contract is that
/// function as its source has it: exactly one coin must be attached, its amount
/// must not be zero and its denomination must be `denom`; the amount is then
/// returned. No coin, or one of amount zero, is `NoFunds`; two or more coins are
/// `MultipleDenoms`; one coin of another denomination is `MissingDenom` with
/// the denomination that was asked for.
#[verifier::external_body]
pub(crate) fn must_pay(info: &MessageInfo, denom: &str) -> (r: Result<u128, PaymentError>)
    ensures
        paid_view(r) == paid(info@.funds, denom@),
{
    let sender = cosmwasm_std::Addr::unchecked(info.sender.as_str());
    let funds = info.funds.iter().map(|c| cosmwasm_std::Coin::new(c.amount, c.denom.as_str()));
    let outside = cosmwasm_std::MessageInfo { sender, funds: funds.collect() };
    match cw_utils::must_pay(&outside, denom) {
        Ok(amount) => Ok(amount.u128()),
        Err(cw_utils::PaymentError::MissingDenom(d)) => Err(PaymentError::MissingDenom(d)),
        Err(cw_utils::PaymentError::ExtraDenom(d)) => Err(PaymentError::ExtraDenom(d)),
        Err(cw_utils::PaymentError::MultipleDenoms {}) => Err(PaymentError::MultipleDenoms),
        Err(cw_utils::PaymentError::NoFunds {}) => Err(PaymentError::NoFunds),
        Err(cw_utils::PaymentError::NonPayable {}) => Err(PaymentError::NonPayable),
    }
}

/// Calls `cosmwasm_std::coins`, which makes the list that holds one coin of
/// `amount` in `denom` and nothing else.
#[verifier::external_body]
pub(crate) fn coins(amount: u128, denom: &str) -> (r: Vec<Coin>)
    ensures
        coin_views(r@) == seq![CoinView { denom: denom@, amount }],
{
    let outside = cosmwasm_std::coins(amount, denom);
    outside.into_iter().map(|c| Coin { denom: c.denom, amount: c.amount.u128() }).collect()
}

} // verus!
