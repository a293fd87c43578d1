//! A registry of privileged addresses ("admins") on a ledger, and the calls
//! that a ledger host makes on it: creation, adding members, leaving, splitting
//! a donation equally among the admins, and two queries.
//!
//! One call is carried out after the other. Each takes the state as it is
//! kept between calls, the sender and the payment of the call and the time of
//! the call, and hands back what it emits; what it changes, it changes in the
//! state it was given. Whether a string is a well-formed address is the
//! host's to say: a call that needs to know is handed the host's validation as
//! a function.
//!
//! - `order`, `listing`: the order of the keys, byte-lexicographic, and the
//!   ascending list of a finite set of keys.
//! - `ordered_map`: a map that keeps its string keys in that order.
//! - `host`: addresses, times, coins, and what the host tells of a call.
//! - `state`: the registry of admins and the donation denomination.
//! - `validation`: the host's validation of addresses.
//! - `payment`: what counts as a donation.
//! - `decimal`: numbers in attribute values.
//! - `response`, `error`: what a call emits, and how it fails.
//! - `exec`, `msg`, `contract`: the calls, the messages and the ways in.
//! - `laws`: what holds of the calls whatever they are asked.

pub mod order;
pub mod listing;
pub mod ordered_map;
pub mod host;
pub mod state;
pub mod validation;
pub mod payment;
pub mod decimal;
pub mod response;
pub mod error;
pub mod exec;
pub mod msg;
pub mod contract;
pub mod laws;
