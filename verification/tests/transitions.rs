use admin_registry::contract::{create, execute, instantiate, query, QueryResponse};
use admin_registry::error::{ContractError, PaymentError};
use admin_registry::exec::{add_members, authorize, donate, enroll_members, leave};
use admin_registry::host::{Addr, Coin, Env, MessageInfo, Timestamp};
use admin_registry::msg::{
    admins_list, join_time, lookup_join_time, ExecuteMsg, InstantiateMsg, JoinTimeResp, QueryMsg,
};
use admin_registry::response::{Attribute, BankMsg, Event, Response};
use admin_registry::state::{AddressSet, AdminRegistry, State};
use admin_registry::validation::{first_rejected, validate_all};
use cosmwasm_std::testing::MockApi;
use cosmwasm_std::Api;

fn host(raw: &String) -> Result<(), String> {
    match MockApi::default().addr_validate(raw) {
        Ok(_) => Ok(()),
        Err(e) => Err(e.to_string()),
    }
}

fn any(_raw: &String) -> Result<(), String> {
    Ok(())
}

fn at(nanos: u64) -> Timestamp {
    Timestamp::from_nanos(nanos)
}

fn from(sender: &str) -> MessageInfo {
    MessageInfo { sender: Addr::unchecked(sender), funds: vec![] }
}

fn paying(sender: &str, funds: Vec<Coin>) -> MessageInfo {
    MessageInfo { sender: Addr::unchecked(sender), funds }
}

fn strings(items: &[&str]) -> Vec<String> {
    items.iter().map(|s| s.to_string()).collect()
}

fn state_of(admins: &[&str], time: u64, denom: &str) -> State {
    create(&AddressSet::collect(&strings(admins)), at(time), denom.to_string())
}

fn names(state: &State) -> Vec<String> {
    state.admins().list_ascending().into_iter().map(|a| a.into_string()).collect()
}

fn joined(state: &State, addr: &str) -> Option<u64> {
    state.admins().get(&Addr::unchecked(addr)).map(|t| t.nanos())
}

fn attr(key: &str, value: &str) -> Attribute {
    Attribute::new(key, value)
}

fn send(to: &str, amount: u128, denom: &str) -> BankMsg {
    BankMsg::Send { to_address: to.to_string(), amount: vec![Coin::new(amount, denom)] }
}

#[test]
fn creation_gives_each_admin_the_creation_time() {
    let msg = InstantiateMsg::new(strings(&["carol", "alice", "bob"]), "eth");
    let (state, resp) = instantiate(Env { time: at(77) }, from("anyone"), msg, host).unwrap();
    assert_eq!(resp, Response::new());
    assert_eq!(state.admins().len(), 3);
    assert_eq!(names(&state), strings(&["alice", "bob", "carol"]));
    for name in ["alice", "bob", "carol"] {
        assert_eq!(joined(&state, name), Some(77));
    }
    assert_eq!(state.donation_denom(), "eth");
}

#[test]
fn creation_with_the_empty_list_gives_an_empty_registry() {
    let msg = InstantiateMsg::new(vec![], "eth");
    let (state, _) = instantiate(Env { time: at(77) }, from("anyone"), msg, host).unwrap();
    assert_eq!(state.admins().len(), 0);
    assert!(names(&state).is_empty());
}

#[test]
fn creation_counts_a_repeated_address_once() {
    let msg = InstantiateMsg::new(strings(&["alice", "alice"]), "eth");
    let (state, _) = instantiate(Env { time: at(1) }, from("anyone"), msg, host).unwrap();
    assert_eq!(names(&state), strings(&["alice"]));
}

#[test]
fn creation_fails_on_a_malformed_address() {
    let msg = InstantiateMsg::new(strings(&["alice", "x", "bob"]), "eth");
    let err = instantiate(Env { time: at(1) }, from("anyone"), msg, host).unwrap_err();
    match err {
        ContractError::Validation { address, reason } => {
            assert_eq!(address, "x");
            assert!(reason.contains("too short"));
        },
        other => panic!("unexpected error {:?}", other),
    }
}

#[test]
fn add_members_by_a_stranger_changes_nothing() {
    let mut state = state_of(&["alice", "bob"], 5, "eth");
    let err = add_members(&mut state, from("mallory"), strings(&["mallory", "x"]), at(9), host)
        .unwrap_err();
    assert_eq!(err, ContractError::Unauthorized { sender: Addr::unchecked("mallory") });
    assert_eq!(names(&state), strings(&["alice", "bob"]));
    assert_eq!(joined(&state, "alice"), Some(5));
    assert_eq!(joined(&state, "bob"), Some(5));
    assert_eq!(joined(&state, "mallory"), None);
}

#[test]
fn add_members_takes_the_list_as_a_set() {
    let mut state = state_of(&["owner"], 5, "eth");
    let resp = add_members(&mut state, from("owner"), strings(&["a", "a", "b"]), at(9), any)
        .unwrap();
    assert_eq!(names(&state), strings(&["a", "b", "owner"]));
    assert_eq!(state.admins().len(), 3);
    assert_eq!(joined(&state, "a"), Some(9));
    assert_eq!(joined(&state, "b"), Some(9));
    assert_eq!(resp.attributes, vec![attr("action", "add_members"), attr("added_count", "2")]);
    assert_eq!(
        resp.events,
        vec![
            Event::new("admin_added").add_attribute("addr", "a"),
            Event::new("admin_added").add_attribute("addr", "b"),
        ]
    );
    assert!(resp.messages.is_empty());
}

#[test]
fn add_members_does_not_depend_on_order_or_repetition() {
    let mut one = state_of(&["owner"], 5, "eth");
    let mut two = state_of(&["owner"], 5, "eth");
    let first =
        add_members(&mut one, from("owner"), strings(&["bob", "alice", "bob"]), at(9), host)
            .unwrap();
    let second =
        add_members(&mut two, from("owner"), strings(&["alice", "bob"]), at(9), host).unwrap();
    assert_eq!(first, second);
    assert_eq!(names(&one), names(&two));
}

#[test]
fn add_members_keeps_the_time_of_an_admin() {
    let mut state = state_of(&["alice", "owner"], 5, "eth");
    let resp = add_members(&mut state, from("owner"), strings(&["alice", "bob"]), at(9), host)
        .unwrap();
    assert_eq!(joined(&state, "alice"), Some(5));
    assert_eq!(joined(&state, "owner"), Some(5));
    assert_eq!(joined(&state, "bob"), Some(9));
    // the events tell of the request, not of who is new
    assert_eq!(resp.events.len(), 2);
    assert_eq!(resp.attributes[1], attr("added_count", "2"));
}

#[test]
fn add_members_with_nothing_to_add_succeeds() {
    let mut state = state_of(&["owner"], 5, "eth");
    let resp = add_members(&mut state, from("owner"), vec![], at(9), host).unwrap();
    assert_eq!(names(&state), strings(&["owner"]));
    assert_eq!(resp.attributes, vec![attr("action", "add_members"), attr("added_count", "0")]);
    assert!(resp.events.is_empty());
}

#[test]
fn add_members_admits_nobody_when_one_address_is_malformed() {
    let mut state = state_of(&["owner"], 5, "eth");
    let err = add_members(&mut state, from("owner"), strings(&["alice", "zz", "bob"]), at(9), host)
        .unwrap_err();
    match err {
        ContractError::Validation { address, .. } => assert_eq!(address, "zz"),
        other => panic!("unexpected error {:?}", other),
    }
    assert_eq!(names(&state), strings(&["owner"]));
}

#[test]
fn add_members_reports_the_first_malformed_address_in_ascending_order() {
    let mut state = state_of(&["owner"], 5, "eth");
    let err = add_members(&mut state, from("owner"), strings(&["zz", "Upper", "b"]), at(9), host)
        .unwrap_err();
    match err {
        ContractError::Validation { address, reason } => {
            assert_eq!(address, "Upper");
            assert!(reason.contains("not normalized"));
        },
        other => panic!("unexpected error {:?}", other),
    }
}

#[test]
fn enroll_members_emits_one_event_for_each_address() {
    let mut state = state_of(&["bob"], 5, "eth");
    let resp = enroll_members(&mut state, &AddressSet::collect(&strings(&["carl", "bob"])), at(6));
    assert_eq!(names(&state), strings(&["bob", "carl"]));
    assert_eq!(joined(&state, "bob"), Some(5));
    assert_eq!(joined(&state, "carl"), Some(6));
    assert_eq!(resp.events.len(), 2);
    assert_eq!(resp.attributes[1].value, "2");
}

#[test]
fn leave_takes_the_sender_out() {
    let mut state = state_of(&["alice", "bob"], 5, "eth");
    let resp = leave(&mut state, from("alice")).unwrap();
    assert_eq!(names(&state), strings(&["bob"]));
    assert_eq!(resp.attributes, vec![attr("action", "leave"), attr("sender", "alice")]);
    assert!(resp.events.is_empty());
    assert!(resp.messages.is_empty());
    assert_eq!(state.donation_denom(), "eth");
}

#[test]
fn leave_by_a_stranger_changes_nothing() {
    let mut state = state_of(&["alice", "bob"], 5, "eth");
    let resp = leave(&mut state, from("mallory")).unwrap();
    assert_eq!(names(&state), strings(&["alice", "bob"]));
    assert_eq!(joined(&state, "alice"), Some(5));
    assert_eq!(resp.attributes, vec![attr("action", "leave"), attr("sender", "mallory")]);
}

#[test]
fn leave_twice_is_leave_once() {
    let mut once = state_of(&["alice", "bob"], 5, "eth");
    let mut twice = state_of(&["alice", "bob"], 5, "eth");
    let first = leave(&mut once, from("alice")).unwrap();
    let _ = leave(&mut twice, from("alice")).unwrap();
    let second = leave(&mut twice, from("alice")).unwrap();
    assert_eq!(first, second);
    assert_eq!(names(&once), names(&twice));
    assert_eq!(names(&twice), strings(&["bob"]));
}

#[test]
fn the_last_admin_may_leave() {
    let mut state = state_of(&["alice"], 5, "eth");
    leave(&mut state, from("alice")).unwrap();
    assert_eq!(state.admins().len(), 0);
    let err = add_members(&mut state, from("alice"), strings(&["alice"]), at(6), host).unwrap_err();
    assert_eq!(err, ContractError::Unauthorized { sender: Addr::unchecked("alice") });
}

#[test]
fn donate_ten_among_three() {
    let state = state_of(&["carol", "alice", "bob"], 5, "eth");
    let resp = donate(&state, paying("donor", vec![Coin::new(10, "eth")])).unwrap();
    assert_eq!(
        resp.messages,
        vec![send("alice", 3, "eth"), send("bob", 3, "eth"), send("carol", 3, "eth")]
    );
    assert_eq!(
        resp.attributes,
        vec![
            attr("action", "donate"),
            attr("donated_amount", "10"),
            attr("donation_per_admin", "3"),
        ]
    );
    assert!(resp.events.is_empty());
    let sent: u128 = resp
        .messages
        .iter()
        .map(|m| {
            let BankMsg::Send { amount, .. } = m;
            amount[0].amount
        })
        .sum();
    assert_eq!(10 - sent, 1);
}

#[test]
fn donate_less_than_one_each_still_sends() {
    let state = state_of(&["alice", "bob", "carol"], 5, "eth");
    let resp = donate(&state, paying("donor", vec![Coin::new(2, "eth")])).unwrap();
    assert_eq!(
        resp.messages,
        vec![send("alice", 0, "eth"), send("bob", 0, "eth"), send("carol", 0, "eth")]
    );
    assert_eq!(resp.attributes[1], attr("donated_amount", "2"));
    assert_eq!(resp.attributes[2], attr("donation_per_admin", "0"));
}

#[test]
fn donate_the_largest_amount() {
    let state = state_of(&["alice", "bob"], 5, "eth");
    let resp = donate(&state, paying("donor", vec![Coin::new(u128::MAX, "eth")])).unwrap();
    let each = u128::MAX / 2;
    assert_eq!(resp.messages, vec![send("alice", each, "eth"), send("bob", each, "eth")]);
    assert_eq!(resp.attributes[1].value, "340282366920938463463374607431768211455");
    assert_eq!(resp.attributes[2].value, "170141183460469231731687303715884105727");
}

#[test]
fn donate_to_nobody_fails() {
    let state = state_of(&[], 5, "eth");
    let err = donate(&state, paying("donor", vec![Coin::new(10, "eth")])).unwrap_err();
    assert_eq!(err, ContractError::EmptyRegistry);
}

#[test]
fn donate_in_another_denomination_fails() {
    let mut state = state_of(&["alice"], 5, "eth");
    let err = execute(
        &mut state,
        Env { time: at(6) },
        paying("donor", vec![Coin::new(10, "btc")]),
        ExecuteMsg::Donate {},
        host,
    )
    .unwrap_err();
    assert_eq!(err, ContractError::Payment(PaymentError::MissingDenom("eth".to_string())));
    assert_eq!(names(&state), strings(&["alice"]));
    assert_eq!(joined(&state, "alice"), Some(5));
    assert_eq!(state.donation_denom(), "eth");
}

#[test]
fn donate_without_payment_fails() {
    let state = state_of(&["alice"], 5, "eth");
    let err = donate(&state, paying("donor", vec![])).unwrap_err();
    assert_eq!(err, ContractError::Payment(PaymentError::NoFunds));
    let err = donate(&state, paying("donor", vec![Coin::new(0, "eth")])).unwrap_err();
    assert_eq!(err, ContractError::Payment(PaymentError::NoFunds));
}

#[test]
fn donate_with_two_coins_fails() {
    let state = state_of(&["alice"], 5, "eth");
    let funds = vec![Coin::new(1, "eth"), Coin::new(1, "btc")];
    let err = donate(&state, paying("donor", funds)).unwrap_err();
    assert_eq!(err, ContractError::Payment(PaymentError::MultipleDenoms));
    let funds = vec![Coin::new(1, "eth"), Coin::new(1, "eth")];
    let err = donate(&state, paying("donor", funds)).unwrap_err();
    assert_eq!(err, ContractError::Payment(PaymentError::MultipleDenoms));
}

#[test]
fn a_bad_payment_is_reported_before_an_empty_registry() {
    let state = state_of(&[], 5, "eth");
    let err = donate(&state, paying("donor", vec![Coin::new(10, "btc")])).unwrap_err();
    assert_eq!(err, ContractError::Payment(PaymentError::MissingDenom("eth".to_string())));
}

#[test]
fn the_list_follows_every_change() {
    let mut state = state_of(&["mike"], 1, "eth");
    let msg = |names: &[&str]| ExecuteMsg::AddMemebers { admins: strings(names) };
    execute(&mut state, Env { time: at(2) }, from("mike"), msg(&["zoe", "adam"]), host).unwrap();
    assert_eq!(names(&state), strings(&["adam", "mike", "zoe"]));
    execute(&mut state, Env { time: at(3) }, from("mike"), ExecuteMsg::Leave {}, host).unwrap();
    assert_eq!(names(&state), strings(&["adam", "zoe"]));
    execute(&mut state, Env { time: at(4) }, from("zoe"), msg(&["mike", "bea", "zoe"]), host)
        .unwrap();
    assert_eq!(names(&state), strings(&["adam", "bea", "mike", "zoe"]));
    execute(&mut state, Env { time: at(5) }, from("nobody"), ExecuteMsg::Leave {}, host).unwrap();
    assert_eq!(names(&state), strings(&["adam", "bea", "mike", "zoe"]));
    assert_eq!(joined(&state, "mike"), Some(4));
    assert_eq!(joined(&state, "zoe"), Some(2));
    let listed = admins_list(&state).unwrap();
    let listed: Vec<&str> = listed.admins.iter().map(|a| a.as_str()).collect();
    assert_eq!(listed, vec!["adam", "bea", "mike", "zoe"]);
}

#[test]
fn the_list_is_in_byte_order() {
    let state = state_of(&["b", "a", "B", "ab", "", "\u{e9}", "z", "a\u{0}"], 1, "eth");
    let mut want = strings(&["b", "a", "B", "ab", "", "\u{e9}", "z", "a\u{0}"]);
    want.sort_by(|x, y| x.as_bytes().cmp(y.as_bytes()));
    assert_eq!(names(&state), want);
    assert_eq!(names(&state), strings(&["", "B", "a", "a\u{0}", "ab", "b", "z", "\u{e9}"]));
}

#[test]
fn join_time_of_an_admin() {
    let state = state_of(&["alice"], 5, "eth");
    let resp = join_time(&state, "alice".to_string(), host).unwrap();
    assert_eq!(resp, JoinTimeResp { joined: at(5) });
    let resp = lookup_join_time(&state, &Addr::unchecked("alice")).unwrap();
    assert_eq!(resp.joined.nanos(), 5);
}

#[test]
fn join_time_of_a_stranger_is_not_found() {
    let mut state = state_of(&["alice"], 5, "eth");
    let err = join_time(&state, "bob".to_string(), host).unwrap_err();
    assert_eq!(err, ContractError::NotFound { address: "bob".to_string() });
    leave(&mut state, from("alice")).unwrap();
    let err = query(&state, Env { time: at(6) }, QueryMsg::JoinTime { admin: "alice".into() }, host)
        .unwrap_err();
    assert_eq!(err, ContractError::NotFound { address: "alice".to_string() });
}

#[test]
fn join_time_of_a_malformed_address_is_a_validation_error() {
    let state = state_of(&["alice"], 5, "eth");
    let err = join_time(&state, "al".to_string(), host).unwrap_err();
    match err {
        ContractError::Validation { address, reason } => {
            assert_eq!(address, "al");
            assert!(reason.contains("too short"));
        },
        other => panic!("unexpected error {:?}", other),
    }
}

#[test]
fn queries_change_nothing() {
    let state = state_of(&["alice", "bob"], 5, "eth");
    let before = names(&state);
    let _ = query(&state, Env { time: at(6) }, QueryMsg::AdminsList {}, host).unwrap();
    let _ = query(&state, Env { time: at(6) }, QueryMsg::JoinTime { admin: "bob".into() }, host)
        .unwrap();
    assert_eq!(names(&state), before);
    match query(&state, Env { time: at(6) }, QueryMsg::AdminsList {}, host).unwrap() {
        QueryResponse::AdminsList(resp) => {
            assert_eq!(resp.admins, vec![Addr::unchecked("alice"), Addr::unchecked("bob")])
        },
        other => panic!("unexpected answer {:?}", other),
    }
}

#[test]
fn a_state_can_be_put_together_from_its_parts() {
    let mut admins = AdminRegistry::new();
    assert!(admins.put(Addr::unchecked("bob"), at(2)));
    assert!(admins.put(Addr::unchecked("alice"), at(3)));
    assert!(!admins.put(Addr::unchecked("bob"), at(4)));
    let state = State::new(admins, "eth".to_string());
    assert_eq!(names(&state), strings(&["alice", "bob"]));
    assert_eq!(joined(&state, "bob"), Some(2));
    assert_eq!(state.donation_denom(), "eth");
}

#[test]
fn only_an_admin_is_authorized() {
    let state = state_of(&["alice"], 5, "eth");
    assert_eq!(authorize(state.admins(), &Addr::unchecked("alice")), Ok(()));
    assert_eq!(
        authorize(state.admins(), &Addr::unchecked("bob")),
        Err(ContractError::Unauthorized { sender: Addr::unchecked("bob") })
    );
    assert_eq!(
        authorize(&AdminRegistry::new(), &Addr::unchecked("alice")),
        Err(ContractError::Unauthorized { sender: Addr::unchecked("alice") })
    );
}

#[test]
fn the_first_rejected_address_is_found() {
    let list = strings(&["alice", "no", "bob", "x"]);
    match first_rejected(&list, &host) {
        Some((i, reason)) => {
            assert_eq!(i, 1);
            assert!(reason.contains("too short"));
        },
        None => panic!("nothing rejected"),
    }
    assert_eq!(first_rejected(&strings(&["alice", "bob"]), &host), None);
    assert_eq!(first_rejected(&vec![], &host), None);
    assert_eq!(first_rejected(&list, &any), None);
}

#[test]
fn a_set_is_validated_in_ascending_order() {
    let set = AddressSet::collect(&strings(&["zz", "alice", "yy", "bob"]));
    match validate_all(&set, &host) {
        Some(ContractError::Validation { address, reason }) => {
            assert_eq!(address, "yy");
            assert!(reason.contains("too short"));
        },
        other => panic!("unexpected outcome {:?}", other),
    }
    assert_eq!(validate_all(&set, &any), None);
    assert_eq!(validate_all(&AddressSet::collect(&strings(&["alice", "bob"])), &host), None);
}
