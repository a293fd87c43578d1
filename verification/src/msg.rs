//! The messages that the contract takes, the answers to its queries, and the
//! queries themselves.

use crate::error::{ContractError, ContractErrorView};
use crate::host::{Addr, Timestamp};
use crate::listing::ascending;
use crate::state::{addr_views, State, StateView};
use crate::validation::{accepts, answers_all, rejects};
use vstd::prelude::*;

verus! {

/// What the contract is created with.
#[derive(Debug, Clone, PartialEq, Eq)]
pub struct InstantiateMsg {
    /// The first admins.
    pub admins: Vec<String>,
    /// The denomination in which donations are taken.
    pub donation_denom: String,
}

impl InstantiateMsg {
    pub fn new(admins: Vec<String>, donation_denom: &str) -> (msg: InstantiateMsg)
        ensures
            msg.admins == admins,
            msg.donation_denom@ == donation_denom@,
    {
        InstantiateMsg { admins, donation_denom: donation_denom.to_owned() }
    }
}

impl Default for InstantiateMsg {
    /// No admins, and the empty denomination.
    fn default() -> (msg: InstantiateMsg)
        ensures
            msg.admins@ == Seq::<String>::empty(),
            msg.donation_denom@ == Seq::<char>::empty(),
    {
        InstantiateMsg { admins: Vec::new(), donation_denom: String::new() }
    }
}

/// What may be asked of the contract.
#[derive(Debug, Clone, PartialEq, Eq)]
pub enum QueryMsg {
    /// A greeting.
    Greet {},
    /// Who the admins are.
    AdminsList {},
    /// When `admin` joined.
    JoinTime { admin: String },
}

/// The answer to `QueryMsg::AdminsList`.
#[derive(Debug, Clone, PartialEq, Eq)]
pub struct AdminsListResp {
    pub admins: Vec<Addr>,
}

impl AdminsListResp {
    pub fn new(admins: Vec<Addr>) -> (resp: AdminsListResp)
        ensures
            resp.admins == admins,
    {
        AdminsListResp { admins }
    }
}

impl Default for AdminsListResp {
    /// The answer that lists nobody.
    fn default() -> (resp: AdminsListResp)
        ensures
            resp.admins@ == Seq::<Addr>::empty(),
    {
        AdminsListResp { admins: Vec::new() }
    }
}

/// The answer to `QueryMsg::JoinTime`.
#[derive(Debug, Clone, Copy, PartialEq, Eq, Structural)]
pub struct JoinTimeResp {
    pub joined: Timestamp,
}

/// A greeting.
#[derive(Debug, Clone, PartialEq, Eq)]
pub struct GreetResp {
    pub message: String,
}

impl GreetResp {
    pub fn new(message: &str) -> (resp: GreetResp)
        ensures
            resp.message@ == message@,
    {
        GreetResp { message: message.to_owned() }
    }
}

/// What the contract may be told to do.
#[derive(Debug, Clone, PartialEq, Eq)]
pub enum ExecuteMsg {
    /// Make these addresses admins.
    AddMemebers { admins: Vec<String> },
    /// Take the sender out of the admins.
    Leave {},
    /// Split the attached payment among the admins.
    Donate {},
}

/// The admins in ascending order.
pub fn admins_list(state: &State) -> (r: Result<AdminsListResp, ContractError>)
    ensures
        r matches Ok(resp) && addr_views(resp.admins@) == ascending(state@.admins.dom()),
{
    Ok(AdminsListResp { admins: state.admins().list_ascending() })
}

/// The view of the outcome of a lookup of a join time.
pub open spec fn join_time_view(r: Result<JoinTimeResp, ContractError>) -> Result<
    JoinTimeResp,
    ContractErrorView,
> {
    match r {
        Ok(resp) => Ok(resp),
        Err(e) => Err(e@),
    }
}

/// When `admin` joined, where it is an admin; else that it was not found.
pub open spec fn joined_at(state: StateView, admin: Seq<char>) -> Result<
    JoinTimeResp,
    ContractErrorView,
> {
    if state.admins.contains_key(admin) {
        Ok(JoinTimeResp { joined: state.admins[admin] })
    } else {
        Err(ContractErrorView::NotFound { address: admin })
    }
}

/// Looks up when `admin` joined.
pub fn lookup_join_time(state: &State, admin: &Addr) -> (r: Result<JoinTimeResp, ContractError>)
    ensures
        join_time_view(r) == joined_at(state@, admin@),
{
    match state.admins().get(admin) {
        Some(joined) => Ok(JoinTimeResp { joined }),
        None => Err(ContractError::NotFound { address: admin.clone().into_string() }),
    }
}

/// What holds of the outcome `r` of asking when `admin` joined, where
/// `validate` is the host's validation: a string that the host rejects is no
/// address; one that it accepts is looked up.
pub open spec fn join_time_result<V: Fn(&String) -> Result<(), String>>(
    state: StateView,
    admin: Seq<char>,
    validate: V,
    r: Result<JoinTimeResp, ContractErrorView>,
) -> bool {
    match r {
        Err(ContractErrorView::Validation { address, reason }) => {
            address == admin && rejects(validate, admin, reason)
        },
        _ => accepts(validate, admin) && r == joined_at(state, admin),
    }
}

/// When the admin with the address `admin` joined.
pub fn join_time<V: Fn(&String) -> Result<(), String>>(
    state: &State,
    admin: String,
    validate: V,
) -> (r: Result<JoinTimeResp, ContractError>)
    requires
        answers_all(validate),
    ensures
        join_time_result(state@, admin@, validate, join_time_view(r)),
{
    let verdict = validate(&admin);
    assert(call_ensures(validate, (&admin,), verdict));
    match verdict {
        Ok(unit) => {
            assert(verdict == Ok::<(), String>(unit));
            assert(call_ensures(validate, (&admin,), Ok::<(), String>(())));
            lookup_join_time(state, &Addr::unchecked(admin.as_str()))
        },
        Err(reason) => {
            assert(call_ensures(validate, (&admin,), Err::<(), String>(reason)));
            Err(ContractError::Validation { address: admin, reason })
        },
    }
}

/// The greeting.
pub fn greet() -> (r: Result<GreetResp, ContractError>)
    ensures
        r matches Ok(resp) && resp.message@ == "hello world!"@,
{
    Ok(GreetResp::new("hello world!"))
}

} // verus!
