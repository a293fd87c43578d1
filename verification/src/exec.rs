//! The calls that change the registry or pay out of a donation.

use crate::decimal::{decimal, decimal_string};
use crate::error::{ContractError, ContractErrorView};
use crate::host::{Addr, CoinView, MessageInfo, MessageInfoView, Timestamp};
use crate::listing::{ascending, lemma_ascending_lists, lemma_prefix_keys};
use crate::ordered_map::views_of;
use crate::payment::{coins, must_pay, paid};
use crate::response::{
    empty_response, AttributeView, BankMsg, BankMsgView, Event, EventView, Response, ResponseView,
};
use crate::state::{addr_views, AddressSet, AdminRegistry, State, StateView};
use crate::validation::{all_accepted, answers_all, refused, validate_all};
use vstd::prelude::*;

verus! {

/// The view of the outcome of a call.
pub open spec fn outcome_view(r: Result<Response, ContractError>) -> Result<
    ResponseView,
    ContractErrorView,
> {
    match r {
        Ok(response) => Ok(response@),
        Err(e) => Err(e@),
    }
}

/// Whether `caller` may change who the admins are: it may if and only if it is
/// an admin itself.
pub fn authorize(admins: &AdminRegistry, caller: &Addr) -> (r: Result<(), ContractError>)
    ensures
        r is Ok <==> admins@.contains_key(caller@),
        r is Err ==> r->Err_0@ == (ContractErrorView::Unauthorized { sender: caller@ }),
{
    if admins.has(caller) {
        Ok(())
    } else {
        Err(ContractError::Unauthorized { sender: caller.clone() })
    }
}

/// The attribute that names the call a response comes from.
pub open spec fn action(name: Seq<char>) -> AttributeView {
    AttributeView { key: "action"@, value: name }
}

/// The admins after each address of `requested` that was none has been made
/// one at `time`. Who was an admin before keeps the time it joined at.
pub open spec fn enrolled_admins(
    admins: Map<Seq<char>, Timestamp>,
    requested: Set<Seq<char>>,
    time: Timestamp,
) -> Map<Seq<char>, Timestamp> {
    Map::new(
        |a: Seq<char>| admins.contains_key(a) || requested.contains(a),
        |a: Seq<char>|
            if admins.contains_key(a) {
                admins[a]
            } else {
                time
            },
    )
}

/// The state after the addresses of `requested` have been made admins at `time`.
pub open spec fn enrolled(
    state: StateView,
    requested: Set<Seq<char>>,
    time: Timestamp,
) -> StateView {
    StateView { admins: enrolled_admins(state.admins, requested, time), ..state }
}

/// The event that tells of one requested address.
pub open spec fn admin_added(address: Seq<char>) -> EventView {
    EventView {
        ty: "admin_added"@,
        attributes: seq![AttributeView { key: "addr"@, value: address }],
    }
}

/// The events that tell of the addresses in `addresses`, in their order.
pub open spec fn admin_added_events(addresses: Seq<Seq<char>>) -> Seq<EventView> {
    addresses.map_values(|a: Seq<char>| admin_added(a))
}

/// What a request to add the addresses of `requested` emits: one event for each
/// of them in ascending order, whether it was an admin before or not, and their
/// number.
pub open spec fn add_members_response(requested: Set<Seq<char>>) -> ResponseView {
    ResponseView {
        messages: Seq::empty(),
        attributes: seq![
            action("add_members"@),
            AttributeView { key: "added_count"@, value: decimal(requested.len()) },
        ],
        events: admin_added_events(ascending(requested)),
    }
}

/// Enrolling one more address after a set of them is enrolling the set with
/// that address in it.
proof fn lemma_enroll_step(
    admins: Map<Seq<char>, Timestamp>,
    done: Set<Seq<char>>,
    a: Seq<char>,
    time: Timestamp,
)
    ensures
        enrolled_admins(admins, done.insert(a), time) == (if enrolled_admins(
            admins,
            done,
            time,
        ).contains_key(a) {
            enrolled_admins(admins, done, time)
        } else {
            enrolled_admins(admins, done, time).insert(a, time)
        }),
{
    let cur = enrolled_admins(admins, done, time);
    let want = if cur.contains_key(a) {
        cur
    } else {
        cur.insert(a, time)
    };
    assert(enrolled_admins(admins, done.insert(a), time) =~= want);
}

/// Makes each address of `requested` that is no admin yet an admin that joined
/// at `time`, and leaves those that are admins as they are. Returns what the
/// request emits. Nobody is asked here whether this may be done, or whether
/// the addresses are well-formed: `add_members` asks both before it comes here.
pub fn enroll_members(state: &mut State, requested: &AddressSet, time: Timestamp) -> (response:
    Response)
    ensures
        final(state)@ == enrolled(old(state)@, requested@, time),
        response@ == add_members_response(requested@),
{
    let list = requested.list();
    let ghost before = state@;
    let ghost all = views_of(list@);
    proof {
        requested.lemma_finite();
        lemma_ascending_lists(requested@);
        assert(enrolled_admins(before.admins, all.subrange(0, 0).to_set(), time) =~= before.admins);
        assert(admin_added_events(all.subrange(0, 0)) =~= Seq::empty());
    }
    let mut response = Response::new();
    let mut i: usize = 0;
    while i < list.len()
        invariant
            i <= list.len(),
            all == views_of(list@),
            all.len() == list.len(),
            state@.donation_denom == before.donation_denom,
            state@.admins == enrolled_admins(
                before.admins,
                all.subrange(0, i as int).to_set(),
                time,
            ),
            response@ == (ResponseView {
                events: admin_added_events(all.subrange(0, i as int)),
                ..empty_response()
            }),
        decreases list.len() - i,
    {
        let address = list[i].as_str();
        let _ = state.enroll(Addr::unchecked(address), time);
        response = response.add_event(Event::new("admin_added").add_attribute("addr", address));
        proof {
            assert(all[i as int] == address@);
            lemma_prefix_keys(all, i as int);
            lemma_enroll_step(before.admins, all.subrange(0, i as int).to_set(), address@, time);
            assert(all.subrange(0, i as int + 1) =~= all.subrange(0, i as int).push(address@));
            assert(admin_added_events(all.subrange(0, i as int + 1)) =~= admin_added_events(
                all.subrange(0, i as int),
            ).push(admin_added(address@)));
            assert(response@.events == admin_added_events(all.subrange(0, i as int + 1)));
        }
        i += 1;
    }
    proof {
        assert(all.subrange(0, i as int) =~= all);
        assert(all.to_set() =~= requested@);
    }
    let count = decimal_string(list.len() as u128);
    let response = response.add_attribute("action", "add_members").add_attribute(
        "added_count",
        count.as_str(),
    );
    proof {
        assert(response@.attributes =~= add_members_response(requested@).attributes);
        assert(state@ == enrolled(before, requested@, time));
    }
    response
}

/// What holds of a request by `sender` to add the addresses of `requested` at
/// `time`, where `before` and `after` are the states before and after it, `r`
/// is its outcome and `validate` the host's validation.
///
/// A sender that is no admin is turned down, whatever it asks for. Else the
/// request succeeds if the host accepts every address, and then each address
/// that was no admin has joined at `time`; it fails on the first address, in
/// ascending order, that the host rejects. A request that fails changes
/// nothing.
pub open spec fn add_members_result<V: Fn(&String) -> Result<(), String>>(
    before: StateView,
    after: StateView,
    sender: Seq<char>,
    requested: Set<Seq<char>>,
    time: Timestamp,
    validate: V,
    r: Result<ResponseView, ContractErrorView>,
) -> bool {
    if !before.admins.contains_key(sender) {
        &&& after == before
        &&& r == Err::<ResponseView, ContractErrorView>(ContractErrorView::Unauthorized { sender })
    } else {
        match r {
            Ok(response) => {
                &&& all_accepted(requested, validate)
                &&& after == enrolled(before, requested, time)
                &&& response == add_members_response(requested)
            },
            Err(e) => {
                &&& after == before
                &&& refused(requested, validate, e)
            },
        }
    }
}

/// Adds admins at the request of `info.sender`, who must be an admin.
///
/// The addresses asked for are taken as a set: their order in `admins` and how
/// often each occurs make no difference. `validate` is asked about each of
/// them in ascending order, up to the first it rejects. Only if it accepts all
/// of them does anything change, and then every address that was no admin
/// joins at `time`.
pub fn add_members<V: Fn(&String) -> Result<(), String>>(
    state: &mut State,
    info: MessageInfo,
    admins: Vec<String>,
    time: Timestamp,
    validate: V,
) -> (r: Result<Response, ContractError>)
    requires
        answers_all(validate),
    ensures
        add_members_result(
            old(state)@,
            final(state)@,
            info.sender@,
            views_of(admins@).to_set(),
            time,
            validate,
            outcome_view(r),
        ),
{
    match authorize(state.admins(), &info.sender) {
        Ok(_) => {},
        Err(e) => {
            return Err(e);
        },
    }
    let requested = AddressSet::collect(&admins);
    match validate_all(&requested, &validate) {
        Some(e) => Err(e),
        None => Ok(enroll_members(state, &requested, time)),
    }
}

/// What `leave` emits for `sender`.
pub open spec fn leave_response(sender: Seq<char>) -> ResponseView {
    ResponseView {
        messages: Seq::empty(),
        attributes: seq![action("leave"@), AttributeView { key: "sender"@, value: sender }],
        events: Seq::empty(),
    }
}

/// The state after `sender` has left: without `sender` among the admins, and
/// the same if it was none.
pub open spec fn left(state: StateView, sender: Seq<char>) -> StateView {
    StateView { admins: state.admins.remove(sender), ..state }
}

/// Takes `info.sender` out of the admins. Whoever calls this is no admin
/// afterwards; that it was none before is no error.
pub fn leave(state: &mut State, info: MessageInfo) -> (r: Result<Response, ContractError>)
    ensures
        final(state)@ == left(old(state)@, info.sender@),
        outcome_view(r) == Ok::<ResponseView, ContractErrorView>(leave_response(info.sender@)),
{
    let _ = state.dismiss(&info.sender);
    let response = Response::new().add_attribute("action", "leave").add_attribute(
        "sender",
        info.sender.as_str(),
    );
    assert(response@.attributes =~= leave_response(info.sender@).attributes);
    Ok(response)
}

/// The share of each of `admins` admins in `total`: the quotient, rounded down.
pub open spec fn share(total: u128, admins: nat) -> u128
    recommends
        admins > 0,
{
    (total as nat / admins) as u128
}

/// What is left of `total` once each of `admins` admins has had its share.
pub open spec fn remainder(total: u128, admins: nat) -> nat
    recommends
        admins > 0,
{
    (total as nat - share(total, admins) as nat * admins) as nat
}

/// The transfer of `amount` in `denom` to `to_address`.
pub open spec fn transfer(to_address: Seq<char>, denom: Seq<char>, amount: u128) -> BankMsgView {
    BankMsgView::Send { to_address, amount: seq![CoinView { denom, amount }] }
}

/// One transfer of `amount` in `denom` to each of `recipients`, in their order.
pub open spec fn transfers(recipients: Seq<Seq<char>>, denom: Seq<char>, amount: u128) -> Seq<
    BankMsgView,
> {
    recipients.map_values(|a: Seq<char>| transfer(a, denom, amount))
}

/// What a donation comes to. The payment must be a single non-zero amount in
/// the donation denomination, and there must be an admin. Each admin is then
/// sent the same share, in ascending order of the admins; what the shares
/// leave over is sent to nobody.
pub open spec fn donation(state: StateView, info: MessageInfoView) -> Result<
    ResponseView,
    ContractErrorView,
> {
    match paid(info.funds, state.donation_denom) {
        Err(e) => Err(ContractErrorView::Payment(e)),
        Ok(total) => if state.admins.dom().len() == 0 {
            Err(ContractErrorView::EmptyRegistry)
        } else {
            let each = share(total, state.admins.dom().len());
            Ok(
                ResponseView {
                    messages: transfers(ascending(state.admins.dom()), state.donation_denom, each),
                    attributes: seq![
                        action("donate"@),
                        AttributeView { key: "donated_amount"@, value: decimal(total as nat) },
                        AttributeView { key: "donation_per_admin"@, value: decimal(each as nat) },
                    ],
                    events: Seq::empty(),
                },
            )
        },
    }
}

/// Splits the payment attached to the call equally among the admins.
pub fn donate(state: &State, info: MessageInfo) -> (r: Result<Response, ContractError>)
    ensures
        outcome_view(r) == donation(state@, info@),
{
    let denom = state.donation_denom();
    let total = match must_pay(&info, denom) {
        Ok(total) => total,
        Err(e) => {
            return Err(ContractError::Payment(e));
        },
    };
    let admins = state.admins().list_ascending();
    if admins.len() == 0 {
        return Err(ContractError::EmptyRegistry);
    }
    let each = total / (admins.len() as u128);
    let ghost recipients = ascending(state@.admins.dom());
    let mut response = Response::new();
    assert(transfers(recipients.subrange(0, 0), denom@, each) =~= Seq::empty());
    let mut i: usize = 0;
    while i < admins.len()
        invariant
            i <= admins.len(),
            denom@ == state@.donation_denom,
            recipients == addr_views(admins@),
            recipients.len() == admins.len(),
            response@ == (ResponseView {
                messages: transfers(recipients.subrange(0, i as int), denom@, each),
                ..empty_response()
            }),
        decreases admins.len() - i,
    {
        let to_address = admins[i].clone().into_string();
        let message = BankMsg::Send { to_address, amount: coins(each, denom) };
        response = response.add_message(message);
        proof {
            assert(recipients[i as int] == admins[i as int]@);
            assert(message@ == transfer(recipients[i as int], denom@, each));
            assert(recipients.subrange(0, i as int + 1) =~= recipients.subrange(0, i as int).push(
                recipients[i as int],
            ));
            assert(transfers(recipients.subrange(0, i as int + 1), denom@, each) =~= transfers(
                recipients.subrange(0, i as int),
                denom@,
                each,
            ).push(transfer(recipients[i as int], denom@, each)));
        }
        i += 1;
    }
    proof {
        assert(recipients.subrange(0, i as int) =~= recipients);
    }
    let total_text = decimal_string(total);
    let each_text = decimal_string(each);
    let response = response.add_attribute("action", "donate").add_attribute(
        "donated_amount",
        total_text.as_str(),
    ).add_attribute("donation_per_admin", each_text.as_str());
    proof {
        assert(response@.attributes =~= donation(state@, info@)->Ok_0.attributes);
    }
    Ok(response)
}

} // verus!
