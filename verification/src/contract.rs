//! The three ways into the contract: creation, execution and query.

use crate::error::{ContractError, ContractErrorView};
use crate::exec::{
    add_members, add_members_result, donate, donation, enroll_members, leave, leave_response, left,
    outcome_view,
};
use crate::host::{Env, MessageInfo, MessageInfoView, Timestamp};
use crate::msg::{
    admins_list, greet, join_time, join_time_result, AdminsListResp, ExecuteMsg, GreetResp,
    InstantiateMsg, JoinTimeResp, QueryMsg,
};
use crate::listing::ascending;
use crate::ordered_map::views_of;
use crate::response::{empty_response, Response, ResponseView};
use crate::state::{addr_views, AddressSet, AdminRegistry, State, StateView};
use crate::validation::{all_accepted, answers_all, refused, validate_all};
use vstd::prelude::*;

verus! {

/// The state that a contract is created in: each address of `admins` is an
/// admin that joined at `time`, and there is no other.
pub open spec fn created(
    admins: Set<Seq<char>>,
    time: Timestamp,
    donation_denom: Seq<char>,
) -> StateView {
    StateView {
        admins: Map::new(|a: Seq<char>| admins.contains(a), |a: Seq<char>| time),
        donation_denom,
    }
}

/// Makes the state of a new contract with the admins `admins`, all of which
/// join at `time`.
pub fn create(admins: &AddressSet, time: Timestamp, donation_denom: String) -> (state: State)
    ensures
        state@ == created(admins@, time, donation_denom@),
{
    let mut state = State::new(AdminRegistry::new(), donation_denom);
    let _ = enroll_members(&mut state, admins, time);
    assert(state@.admins =~= created(admins@, time, donation_denom@).admins);
    state
}

/// The view of the outcome of a creation.
pub open spec fn creation_view(r: Result<(State, Response), ContractError>) -> Result<
    (StateView, ResponseView),
    ContractErrorView,
> {
    match r {
        Ok((state, response)) => Ok((state@, response@)),
        Err(e) => Err(e@),
    }
}

/// What holds of the outcome `r` of creating a contract with the admins
/// `admins` at `time`, where `validate` is the host's validation: the creation
/// succeeds if the host accepts every address, and emits nothing; it fails on
/// the first address, in ascending order, that the host rejects.
pub open spec fn instantiate_result<V: Fn(&String) -> Result<(), String>>(
    admins: Set<Seq<char>>,
    time: Timestamp,
    donation_denom: Seq<char>,
    validate: V,
    r: Result<(StateView, ResponseView), ContractErrorView>,
) -> bool {
    match r {
        Ok((state, response)) => {
            &&& all_accepted(admins, validate)
            &&& state == created(admins, time, donation_denom)
            &&& response == empty_response()
        },
        Err(e) => refused(admins, validate, e),
    }
}

/// Creates the contract: its admins are the addresses of `msg.admins`, which
/// all join at the time of the call, and it takes donations in
/// `msg.donation_denom`. Nobody is asked whether the sender may do this.
pub fn instantiate<V: Fn(&String) -> Result<(), String>>(
    env: Env,
    info: MessageInfo,
    msg: InstantiateMsg,
    validate: V,
) -> (r: Result<(State, Response), ContractError>)
    requires
        answers_all(validate),
    ensures
        instantiate_result(
            views_of(msg.admins@).to_set(),
            env.time,
            msg.donation_denom@,
            validate,
            creation_view(r),
        ),
{
    let admins = AddressSet::collect(&msg.admins);
    match validate_all(&admins, &validate) {
        Some(e) => Err(e),
        None => Ok((create(&admins, env.time, msg.donation_denom), Response::new())),
    }
}

/// The answer to a query.
#[derive(Debug, Clone, PartialEq, Eq)]
pub enum QueryResponse {
    Greet(GreetResp),
    AdminsList(AdminsListResp),
    JoinTime(JoinTimeResp),
}

/// The outcome of a query as the outcome of a lookup of a join time, where it
/// is one.
pub open spec fn as_join_time(r: Result<QueryResponse, ContractError>) -> Option<
    Result<JoinTimeResp, ContractErrorView>,
> {
    match r {
        Ok(QueryResponse::JoinTime(resp)) => Some(Ok(resp)),
        Ok(_) => None,
        Err(e) => Some(Err(e@)),
    }
}

/// What holds of the outcome `r` of the query `msg` in `state`, where
/// `validate` is the host's validation: each query is answered as the function
/// of its name answers.
pub open spec fn query_result<V: Fn(&String) -> Result<(), String>>(
    state: StateView,
    msg: QueryMsg,
    validate: V,
    r: Result<QueryResponse, ContractError>,
) -> bool {
    match msg {
        QueryMsg::Greet {} => {
            &&& r matches Ok(QueryResponse::Greet(resp))
            &&& resp.message@ == "hello world!"@
        },
        QueryMsg::AdminsList {} => {
            &&& r matches Ok(QueryResponse::AdminsList(resp))
            &&& addr_views(resp.admins@) == ascending(state.admins.dom())
        },
        QueryMsg::JoinTime { admin } => {
            &&& as_join_time(r) matches Some(outcome)
            &&& join_time_result(state, admin@, validate, outcome)
        },
    }
}

/// Answers a query. A query changes nothing and emits nothing.
pub fn query<V: Fn(&String) -> Result<(), String>>(
    state: &State,
    env: Env,
    msg: QueryMsg,
    validate: V,
) -> (r: Result<QueryResponse, ContractError>)
    requires
        answers_all(validate),
    ensures
        query_result(state@, msg, validate, r),
{
    match msg {
        QueryMsg::Greet {} => {
            match greet() {
                Ok(resp) => Ok(QueryResponse::Greet(resp)),
                Err(e) => Err(e),
            }
        },
        QueryMsg::AdminsList {} => {
            match admins_list(state) {
                Ok(resp) => Ok(QueryResponse::AdminsList(resp)),
                Err(e) => Err(e),
            }
        },
        QueryMsg::JoinTime { admin } => {
            match join_time(state, admin, validate) {
                Ok(resp) => Ok(QueryResponse::JoinTime(resp)),
                Err(e) => Err(e),
            }
        },
    }
}

/// What holds of carrying out `msg` for the sender and with the payment of
/// `info` at `time`, where `before` and `after` are the states before and after
/// it, `r` is its outcome and `validate` the host's validation: each message is
/// carried out as the function of its name does. A donation changes nothing.
pub open spec fn execute_result<V: Fn(&String) -> Result<(), String>>(
    before: StateView,
    after: StateView,
    time: Timestamp,
    info: MessageInfoView,
    msg: ExecuteMsg,
    validate: V,
    r: Result<ResponseView, ContractErrorView>,
) -> bool {
    match msg {
        ExecuteMsg::AddMemebers { admins } => add_members_result(
            before,
            after,
            info.sender,
            views_of(admins@).to_set(),
            time,
            validate,
            r,
        ),
        ExecuteMsg::Leave {} => {
            &&& after == left(before, info.sender)
            &&& r == Ok::<ResponseView, ContractErrorView>(leave_response(info.sender))
        },
        ExecuteMsg::Donate {} => {
            &&& after == before
            &&& r == donation(before, info)
        },
    }
}

/// Carries out what `msg` tells the contract to do, for the sender and with
/// the payment of `info`, at the time of `env`.
pub fn execute<V: Fn(&String) -> Result<(), String>>(
    state: &mut State,
    env: Env,
    info: MessageInfo,
    msg: ExecuteMsg,
    validate: V,
) -> (r: Result<Response, ContractError>)
    requires
        answers_all(validate),
    ensures
        execute_result(
            old(state)@,
            final(state)@,
            env.time,
            info@,
            msg,
            validate,
            outcome_view(r),
        ),
{
    match msg {
        ExecuteMsg::AddMemebers { admins } => add_members(state, info, admins, env.time, validate),
        ExecuteMsg::Leave {} => leave(state, info),
        ExecuteMsg::Donate {} => donate(state, info),
    }
}

} // verus!
