//! The values that the ledger host hands to every call: the caller's address,
//! the attached payment and the time of the call.

use vstd::prelude::*;

verus! {

/// An address in the form the host has validated: an opaque string.
#[derive(Debug, PartialEq, Eq)]
pub struct Addr {
    text: String,
}

impl View for Addr {
    type V = Seq<char>;

    closed spec fn view(&self) -> Seq<char> {
        self.text@
    }
}

impl Addr {
    /// Takes `input` as an address without asking anyone whether it is one.
    pub fn unchecked(input: &str) -> (a: Addr)
        ensures
            a@ == input@,
    {
        Addr { text: input.to_owned() }
    }

    /// The address as text.
    pub fn as_str(&self) -> (s: &str)
        ensures
            s@ == self@,
    {
        self.text.as_str()
    }

    /// The address as an owned string.
    pub fn into_string(self) -> (s: String)
        ensures
            s@ == self@,
    {
        self.text
    }
}

impl Clone for Addr {
    fn clone(&self) -> (a: Addr)
        ensures
            a@ == self@,
    {
        Addr { text: self.text.clone() }
    }
}

/// A point in time, in nanoseconds since the epoch of the host's clock.
#[derive(Debug, Clone, Copy, PartialEq, Eq, Structural)]
pub struct Timestamp {
    pub nanos: u64,
}

impl Timestamp {
    pub fn from_nanos(nanos: u64) -> (t: Timestamp)
        ensures
            t.nanos == nanos,
    {
        Timestamp { nanos }
    }

    pub fn nanos(&self) -> (n: u64)
        ensures
            n == self.nanos,
    {
        self.nanos
    }
}

/// An amount of one denomination.
#[derive(Debug, PartialEq, Eq)]
pub struct Coin {
    pub denom: String,
    pub amount: u128,
}

pub struct CoinView {
    pub denom: Seq<char>,
    pub amount: u128,
}

impl View for Coin {
    type V = CoinView;

    open spec fn view(&self) -> CoinView {
        CoinView { denom: self.denom@, amount: self.amount }
    }
}

impl Coin {
    pub fn new(amount: u128, denom: &str) -> (c: Coin)
        ensures
            c@ == (CoinView { denom: denom@, amount }),
    {
        Coin { denom: denom.to_owned(), amount }
    }
}

impl Clone for Coin {
    fn clone(&self) -> (c: Coin)
        ensures
            c@ == self@,
    {
        Coin { denom: self.denom.clone(), amount: self.amount }
    }
}

/// The views of a sequence of coins.
pub open spec fn coin_views(coins: Seq<Coin>) -> Seq<CoinView> {
    coins.map_values(|c: Coin| c@)
}

/// Who makes the call, and what payment is attached to it.
#[derive(Debug, PartialEq, Eq)]
pub struct MessageInfo {
    pub sender: Addr,
    pub funds: Vec<Coin>,
}

pub struct MessageInfoView {
    pub sender: Seq<char>,
    pub funds: Seq<CoinView>,
}

impl View for MessageInfo {
    type V = MessageInfoView;

    open spec fn view(&self) -> MessageInfoView {
        MessageInfoView { sender: self.sender@, funds: coin_views(self.funds@) }
    }
}

/// When the call is made.
#[derive(Debug, Clone, Copy, PartialEq, Eq, Structural)]
pub struct Env {
    pub time: Timestamp,
}

} // verus!
