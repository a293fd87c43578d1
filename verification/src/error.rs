//! The ways in which a call fails.

use crate::host::Addr;
use vstd::prelude::*;

verus! {

/// Why an attached payment is not the one asked for.
#[derive(Debug, PartialEq, Eq)]
pub enum PaymentError {
    /// One denomination was sent, and it is not the one named here.
    MissingDenom(String),
    /// A denomination was sent that is not accepted: the one named here.
    ExtraDenom(String),
    /// More than one denomination was sent.
    MultipleDenoms,
    /// Nothing was sent, or an amount of zero.
    NoFunds,
    /// Funds were sent to a call that takes none.
    NonPayable,
}

pub enum PaymentErrorView {
    MissingDenom(Seq<char>),
    ExtraDenom(Seq<char>),
    MultipleDenoms,
    NoFunds,
    NonPayable,
}

impl View for PaymentError {
    type V = PaymentErrorView;

    open spec fn view(&self) -> PaymentErrorView {
        match self {
            PaymentError::MissingDenom(d) => PaymentErrorView::MissingDenom(d@),
            PaymentError::ExtraDenom(d) => PaymentErrorView::ExtraDenom(d@),
            PaymentError::MultipleDenoms => PaymentErrorView::MultipleDenoms,
            PaymentError::NoFunds => PaymentErrorView::NoFunds,
            PaymentError::NonPayable => PaymentErrorView::NonPayable,
        }
    }
}

/// Why a call was turned down.
#[derive(Debug, PartialEq, Eq)]
pub enum ContractError {
    /// The host does not take `address` for a well-formed address; `reason` is
    /// what it said.
    Validation { address: String, reason: String },
    /// `sender` asked for a change that only an admin may make, and is none.
    Unauthorized { sender: Addr },
    /// The attached payment is not a single non-zero amount of the donation
    /// denomination.
    Payment(PaymentError),
    /// There is no admin to share a donation.
    EmptyRegistry,
    /// `address` is not an admin.
    NotFound { address: String },
}

pub enum ContractErrorView {
    Validation { address: Seq<char>, reason: Seq<char> },
    Unauthorized { sender: Seq<char> },
    Payment(PaymentErrorView),
    EmptyRegistry,
    NotFound { address: Seq<char> },
}

impl View for ContractError {
    type V = ContractErrorView;

    open spec fn view(&self) -> ContractErrorView {
        match self {
            ContractError::Validation { address, reason } => ContractErrorView::Validation {
                address: address@,
                reason: reason@,
            },
            ContractError::Unauthorized { sender } => ContractErrorView::Unauthorized {
                sender: sender@,
            },
            ContractError::Payment(e) => ContractErrorView::Payment(e@),
            ContractError::EmptyRegistry => ContractErrorView::EmptyRegistry,
            ContractError::NotFound { address } => ContractErrorView::NotFound {
                address: address@,
            },
        }
    }
}

} // verus!
