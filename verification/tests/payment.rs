use admin_registry::contract::create;
use admin_registry::error::{ContractError, PaymentError};
use admin_registry::exec::donate;
use admin_registry::host::{Addr, Coin, MessageInfo, Timestamp};
use admin_registry::response::BankMsg;
use admin_registry::state::{AddressSet, State};

fn state(admins: &[&str], denom: &str) -> State {
    let list: Vec<String> = admins.iter().map(|s| s.to_string()).collect();
    create(&AddressSet::collect(&list), Timestamp::from_nanos(1), denom.to_string())
}

fn outside_funds(funds: &[(u128, &str)]) -> cosmwasm_std::MessageInfo {
    cosmwasm_std::MessageInfo {
        sender: cosmwasm_std::Addr::unchecked("donor"),
        funds: funds.iter().map(|(a, d)| cosmwasm_std::coin(*a, *d)).collect(),
    }
}

fn funds(funds: &[(u128, &str)]) -> MessageInfo {
    MessageInfo {
        sender: Addr::unchecked("donor"),
        funds: funds.iter().map(|(a, d)| Coin::new(*a, d)).collect(),
    }
}

fn same_error(ours: &PaymentError, theirs: &cw_utils::PaymentError) -> bool {
    match (ours, theirs) {
        (PaymentError::MissingDenom(a), cw_utils::PaymentError::MissingDenom(b)) => a == b,
        (PaymentError::ExtraDenom(a), cw_utils::PaymentError::ExtraDenom(b)) => a == b,
        (PaymentError::MultipleDenoms, cw_utils::PaymentError::MultipleDenoms {}) => true,
        (PaymentError::NoFunds, cw_utils::PaymentError::NoFunds {}) => true,
        (PaymentError::NonPayable, cw_utils::PaymentError::NonPayable {}) => true,
        _ => false,
    }
}

#[test]
fn donate_judges_a_payment_as_must_pay_does() {
    let cases: Vec<Vec<(u128, &str)>> = vec![
        vec![],
        vec![(0, "eth")],
        vec![(0, "btc")],
        vec![(7, "eth")],
        vec![(7, "btc")],
        vec![(7, "ETH")],
        vec![(7, "")],
        vec![(7, "eth"), (1, "btc")],
        vec![(7, "eth"), (1, "eth")],
        vec![(0, "eth"), (0, "eth"), (0, "eth")],
        vec![(u128::MAX, "eth")],
    ];
    for denom in ["eth", "btc", ""] {
        let state = state(&["only"], denom);
        for case in &cases {
            let theirs = cw_utils::must_pay(&outside_funds(case), denom);
            let ours = donate(&state, funds(case));
            match (ours, theirs) {
                (Ok(resp), Ok(amount)) => {
                    assert_eq!(resp.attributes[1].value, amount.u128().to_string());
                    let BankMsg::Send { amount: sent, .. } = &resp.messages[0];
                    assert_eq!(sent[0].amount, amount.u128());
                },
                (Err(ContractError::Payment(ours)), Err(theirs)) => {
                    assert!(same_error(&ours, &theirs), "{:?} {:?}", ours, theirs)
                },
                (ours, theirs) => panic!("{:?} against {:?}", ours, theirs),
            }
        }
    }
}

#[test]
fn a_payment_in_the_donation_denomination_is_taken() {
    let state = state(&["only"], "uatom");
    let resp = donate(&state, funds(&[(100, "uatom")])).unwrap();
    assert_eq!(resp.attributes[1].value, "100");
}

#[test]
fn a_payment_names_the_denomination_that_was_asked_for() {
    let state = state(&["only"], "uatom");
    let err = donate(&state, funds(&[(100, "wei")])).unwrap_err();
    assert_eq!(err, ContractError::Payment(PaymentError::MissingDenom("uatom".to_string())));
}

#[test]
fn a_transfer_holds_one_coin_as_coins_makes_it() {
    let state = state(&["alice", "bob"], "eth");
    let resp = donate(&state, funds(&[(9, "eth")])).unwrap();
    let theirs = cosmwasm_std::coins(4, "eth");
    assert_eq!(resp.messages.len(), 2);
    for (message, to) in resp.messages.iter().zip(["alice", "bob"]) {
        let BankMsg::Send { to_address, amount } = message;
        assert_eq!(to_address, to);
        assert_eq!(amount.len(), theirs.len());
        assert_eq!(amount[0].denom, theirs[0].denom);
        assert_eq!(amount[0].amount, theirs[0].amount.u128());
        assert_eq!(amount, &vec![Coin::new(4, "eth")]);
    }
}
