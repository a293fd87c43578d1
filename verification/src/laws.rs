//! What holds of the contract whatever it is asked: statements over the states
//! and outcomes that the calls are specified with, each with its proof.

use crate::contract::created;
use crate::decimal::decimal;
use crate::error::{ContractErrorView, PaymentErrorView};
use crate::exec::{
    add_members_response, add_members_result, donation, enrolled, left, remainder, share, transfer,
};
use crate::host::{MessageInfoView, Timestamp};
use crate::listing::{ascending, lemma_ascending_lists, lists_ascending};
use crate::payment::paid;
use crate::response::ResponseView;
use crate::state::StateView;
use crate::validation::{accepts, rejects};
use vstd::prelude::*;

verus! {

/// A contract created with a list of addresses none of which occurs twice has
/// as many admins as the list is long: the addresses of the list, each of which
/// joined at the time of creation. Created with the empty list it has no admin.
pub proof fn law_creation(admins: Seq<Seq<char>>, time: Timestamp, donation_denom: Seq<char>)
    requires
        admins.no_duplicates(),
    ensures
        created(admins.to_set(), time, donation_denom).admins.dom().finite(),
        created(admins.to_set(), time, donation_denom).admins.dom().len() == admins.len(),
        forall|i: int|
            0 <= i < admins.len() ==> created(
                admins.to_set(),
                time,
                donation_denom,
            ).admins.contains_key(#[trigger] admins[i]),
        forall|a: Seq<char>|
            created(admins.to_set(), time, donation_denom).admins.contains_key(a) ==> created(
                admins.to_set(),
                time,
                donation_denom,
            ).admins[a] == time,
        admins.len() == 0 ==> created(admins.to_set(), time, donation_denom).admins
            == Map::<Seq<char>, Timestamp>::empty(),
{
    let state = created(admins.to_set(), time, donation_denom);
    assert(state.admins.dom() =~= admins.to_set());
    admins.unique_seq_to_set();
    vstd::seq_lib::seq_to_set_is_finite(admins);
    assert forall|i: int| 0 <= i < admins.len() implies state.admins.contains_key(
        #[trigger] admins[i],
    ) by {
        assert(admins.contains(admins[i]));
    }
    if admins.len() == 0 {
        assert(state.admins =~= Map::<Seq<char>, Timestamp>::empty());
    }
}

/// A request to add members that comes from someone who is no admin fails as
/// unauthorized, and changes nothing.
pub proof fn law_unauthorized<V: Fn(&String) -> Result<(), String>>(
    before: StateView,
    after: StateView,
    sender: Seq<char>,
    requested: Set<Seq<char>>,
    time: Timestamp,
    validate: V,
    r: Result<ResponseView, ContractErrorView>,
)
    requires
        add_members_result(before, after, sender, requested, time, validate, r),
        !before.admins.contains_key(sender),
    ensures
        r == Err::<ResponseView, ContractErrorView>(ContractErrorView::Unauthorized { sender }),
        after == before,
{
}

/// A request to add members that comes from an admin is granted where the host
/// rejects none of the addresses asked for.
pub proof fn law_granted<V: Fn(&String) -> Result<(), String>>(
    before: StateView,
    after: StateView,
    sender: Seq<char>,
    requested: Set<Seq<char>>,
    time: Timestamp,
    validate: V,
    r: Result<ResponseView, ContractErrorView>,
)
    requires
        add_members_result(before, after, sender, requested, time, validate, r),
        before.admins.contains_key(sender),
        forall|a: Seq<char>, reason: Seq<char>|
            requested.contains(a) ==> !rejects(validate, a, reason),
    ensures
        r == Ok::<ResponseView, ContractErrorView>(add_members_response(requested)),
        after == enrolled(before, requested, time),
{
}

/// A request to add members fails, and changes nothing, where the host
/// accepts not all of the addresses asked for.
pub proof fn law_refused<V: Fn(&String) -> Result<(), String>>(
    before: StateView,
    after: StateView,
    sender: Seq<char>,
    requested: Set<Seq<char>>,
    time: Timestamp,
    validate: V,
    r: Result<ResponseView, ContractErrorView>,
    address: Seq<char>,
)
    requires
        add_members_result(before, after, sender, requested, time, validate, r),
        requested.contains(address),
        !accepts(validate, address),
    ensures
        r is Err,
        after == before,
{
}

/// A request to add members emits as many events as it names distinct
/// addresses, and that number is what it gives as `added_count`.
pub proof fn law_added_count(requested: Set<Seq<char>>)
    requires
        requested.finite(),
    ensures
        add_members_response(requested).events.len() == requested.len(),
        add_members_response(requested).attributes.len() == 2,
        add_members_response(requested).attributes[1].key == "added_count"@,
        add_members_response(requested).attributes[1].value == decimal(
            add_members_response(requested).events.len(),
        ),
{
    lemma_ascending_lists(requested);
}

/// Adding members leaves every admin an admin, with the time it joined at;
/// each address asked for that was none is an admin afterwards, and joined at
/// the time of the request; nobody else becomes one.
pub proof fn law_join_time_kept(state: StateView, requested: Set<Seq<char>>, time: Timestamp)
    ensures
        forall|a: Seq<char>|
            state.admins.contains_key(a) ==> enrolled(state, requested, time).admins.contains_key(a)
                && enrolled(state, requested, time).admins[a] == state.admins[a],
        forall|a: Seq<char>|
            requested.contains(a) && !state.admins.contains_key(a) ==> enrolled(
                state,
                requested,
                time,
            ).admins.contains_key(a) && enrolled(state, requested, time).admins[a] == time,
        forall|a: Seq<char>|
            enrolled(state, requested, time).admins.contains_key(a) ==> state.admins.contains_key(a)
                || requested.contains(a),
        enrolled(state, requested, time).donation_denom == state.donation_denom,
{
}

/// Adding members that are all admins already changes nothing.
pub proof fn law_add_present(state: StateView, requested: Set<Seq<char>>, time: Timestamp)
    requires
        forall|a: Seq<char>| requested.contains(a) ==> state.admins.contains_key(a),
    ensures
        enrolled(state, requested, time) == state,
{
    assert(enrolled(state, requested, time).admins =~= state.admins);
}

/// Leaving changes nothing where the one who leaves is no admin.
pub proof fn law_leave_absent(state: StateView, sender: Seq<char>)
    requires
        !state.admins.contains_key(sender),
    ensures
        left(state, sender) == state,
{
    assert(left(state, sender).admins =~= state.admins);
}

/// Leaving a second time comes to the same as leaving once: who has left is no
/// admin, and the state after leaving twice is the state after leaving once.
pub proof fn law_leave_twice(state: StateView, sender: Seq<char>)
    ensures
        left(left(state, sender), sender) == left(state, sender),
        !left(state, sender).admins.contains_key(sender),
{
    assert(left(left(state, sender), sender).admins =~= left(state, sender).admins);
}

/// The shares of a donation and what they leave over make up the donation,
/// and what is left over is less than one unit for each admin.
pub proof fn law_share(total: u128, admins: nat)
    requires
        admins > 0,
    ensures
        share(total, admins) as nat * admins + remainder(total, admins) == total,
        remainder(total, admins) < admins,
        share(total, admins) as nat == total as nat / admins,
{
    let t = total as nat;
    assert(t / admins <= t && t == (t / admins) * admins + t % admins && t % admins < admins)
        by (nonlinear_arith)
        requires
            admins > 0,
    ;
}

/// A donation of a single non-zero amount in the donation denomination to a
/// contract with admins succeeds: every admin is sent one transfer of the same
/// share, in ascending order of the admins, and nothing else is sent.
pub proof fn law_donation_split(state: StateView, info: MessageInfoView, total: u128)
    requires
        state.admins.dom().finite(),
        state.admins.dom().len() > 0,
        paid(info.funds, state.donation_denom) == Ok::<u128, PaymentErrorView>(total),
    ensures
        donation(state, info) is Ok,
        donation(state, info)->Ok_0.messages.len() == state.admins.dom().len(),
        lists_ascending(ascending(state.admins.dom()), state.admins.dom()),
        forall|i: int|
            0 <= i < state.admins.dom().len() ==> #[trigger] donation(
                state,
                info,
            )->Ok_0.messages[i] == transfer(
                ascending(state.admins.dom())[i],
                state.donation_denom,
                share(total, state.admins.dom().len()),
            ),
        donation(state, info)->Ok_0.attributes.len() == 3,
        donation(state, info)->Ok_0.attributes[1].value == decimal(total as nat),
        donation(state, info)->Ok_0.attributes[2].value == decimal(
            share(total, state.admins.dom().len()) as nat,
        ),
        donation(state, info)->Ok_0.events.len() == 0,
{
    lemma_ascending_lists(state.admins.dom());
}

/// A donation to a contract without admins fails, where the payment itself is
/// in order, because the registry is empty; nothing is sent.
pub proof fn law_donation_without_admins(state: StateView, info: MessageInfoView)
    requires
        state.admins.dom() == Set::<Seq<char>>::empty(),
        paid(info.funds, state.donation_denom) is Ok,
    ensures
        donation(state, info) == Err::<ResponseView, ContractErrorView>(
            ContractErrorView::EmptyRegistry,
        ),
{
}

/// A donation whose payment is not in order fails with what is wrong with the
/// payment, whoever the admins are.
pub proof fn law_donation_payment(state: StateView, info: MessageInfoView)
    requires
        paid(info.funds, state.donation_denom) is Err,
    ensures
        donation(state, info) == Err::<ResponseView, ContractErrorView>(
            ContractErrorView::Payment(paid(info.funds, state.donation_denom)->Err_0),
        ),
{
}

/// A payment of one coin in another denomination than the one asked for is
/// not in order.
pub proof fn law_wrong_denomination(info: MessageInfoView, denom: Seq<char>)
    requires
        info.funds.len() == 1,
        info.funds[0].denom != denom,
    ensures
        paid(info.funds, denom) == (if info.funds[0].amount == 0 {
            Err::<u128, PaymentErrorView>(PaymentErrorView::NoFunds)
        } else {
            Err::<u128, PaymentErrorView>(PaymentErrorView::MissingDenom(denom))
        }),
{
}

/// A change of the membership: a request to add members that was granted, or
/// somebody leaving.
pub enum Change {
    Add { requested: Set<Seq<char>>, time: Timestamp },
    Leave { sender: Seq<char> },
}

/// The state after one change.
pub open spec fn changed(state: StateView, change: Change) -> StateView {
    match change {
        Change::Add { requested, time } => enrolled(state, requested, time),
        Change::Leave { sender } => left(state, sender),
    }
}

/// The state after a sequence of changes, the first of them first.
pub open spec fn changed_by(state: StateView, changes: Seq<Change>) -> StateView
    decreases changes.len(),
{
    if changes.len() == 0 {
        state
    } else {
        changed(changed_by(state, changes.drop_last()), changes.last())
    }
}

/// Every request to add members in `changes` names finitely many addresses.
pub open spec fn finitely_many(changes: Seq<Change>) -> bool {
    forall|i: int|
        0 <= i < changes.len() ==> (#[trigger] changes[i] matches Change::Add { requested, .. }
            ==> requested.finite())
}

/// After any sequence of additions and leavings the list of admins, which is
/// `ascending` of the admins, holds exactly the addresses that are admins then,
/// each once and in ascending order; and the denomination is what it was.
pub proof fn law_listing(state: StateView, changes: Seq<Change>)
    requires
        state.admins.dom().finite(),
        finitely_many(changes),
    ensures
        changed_by(state, changes).admins.dom().finite(),
        lists_ascending(
            ascending(changed_by(state, changes).admins.dom()),
            changed_by(state, changes).admins.dom(),
        ),
        ascending(changed_by(state, changes).admins.dom()).len() == changed_by(
            state,
            changes,
        ).admins.dom().len(),
        changed_by(state, changes).donation_denom == state.donation_denom,
    decreases changes.len(),
{
    if changes.len() > 0 {
        let earlier = changes.drop_last();
        assert forall|i: int| 0 <= i < earlier.len() implies (
        #[trigger] earlier[i] matches Change::Add { requested, .. } ==> requested.finite()) by {
            assert(earlier[i] == changes[i]);
        }
        law_listing(state, earlier);
        let mid = changed_by(state, earlier);
        match changes.last() {
            Change::Add { requested, time } => {
                assert(changes[changes.len() - 1] == changes.last());
                assert(enrolled(mid, requested, time).admins.dom() =~= mid.admins.dom().union(
                    requested,
                ));
            },
            Change::Leave { sender } => {
                assert(left(mid, sender).admins.dom() =~= mid.admins.dom().remove(sender));
            },
        }
    }
    lemma_ascending_lists(changed_by(state, changes).admins.dom());
}

} // verus!
