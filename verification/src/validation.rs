//! Whether a string is a well-formed address is for the host to say. A call
//! that needs to know is handed the host's validation as a function from a
//! string to `Ok`, or to `Err` with the host's reason.

use crate::error::{ContractError, ContractErrorView};
use crate::listing::lemma_ascending_lists;
use crate::order::{key_lt, lemma_key_lt_trichotomy};
use crate::ordered_map::views_of;
use crate::state::AddressSet;
use vstd::prelude::*;

verus! {

/// `validate` can be asked about every string.
pub open spec fn answers_all<V: Fn(&String) -> Result<(), String>>(validate: V) -> bool {
    forall|s: &String| call_requires(validate, (s,))
}

/// `validate` was, or may be, answered `Ok` for `address`.
pub open spec fn accepts<V: Fn(&String) -> Result<(), String>>(
    validate: V,
    address: Seq<char>,
) -> bool {
    exists|s: &String| s@ == address && call_ensures(validate, (s,), Ok::<(), String>(()))
}

/// `validate` was, or may be, answered `Err` with `reason` for `address`.
pub open spec fn rejects<V: Fn(&String) -> Result<(), String>>(
    validate: V,
    address: Seq<char>,
    reason: Seq<char>,
) -> bool {
    exists|s: &String, why: String|
        s@ == address && why@ == reason && call_ensures(validate, (s,), Err::<(), String>(why))
}

/// Asks `validate` about each of `addresses` in turn, up to the first that it
/// rejects. Returns the index of that one with the reason given, or `None`
/// where it accepted them all.
pub fn first_rejected<V: Fn(&String) -> Result<(), String>>(
    addresses: &Vec<String>,
    validate: &V,
) -> (r: Option<(usize, String)>)
    requires
        answers_all(*validate),
    ensures
        r is None ==> forall|j: int|
            0 <= j < addresses.len() ==> accepts(*validate, #[trigger] addresses[j]@),
        r matches Some((i, why)) ==> i < addresses.len() && rejects(
            *validate,
            addresses[i as int]@,
            why@,
        ) && forall|j: int| 0 <= j < i ==> accepts(*validate, #[trigger] addresses[j]@),
{
    let mut i: usize = 0;
    while i < addresses.len()
        invariant
            i <= addresses.len(),
            answers_all(*validate),
            forall|j: int| 0 <= j < i ==> accepts(*validate, #[trigger] addresses[j]@),
        decreases addresses.len() - i,
    {
        let verdict = validate(&addresses[i]);
        assert(call_ensures(*validate, (&addresses[i as int],), verdict));
        match verdict {
            Ok(unit) => {
                assert(verdict == Ok::<(), String>(unit));
                assert(call_ensures(*validate, (&addresses[i as int],), Ok::<(), String>(())));
            },
            Err(why) => {
                assert(call_ensures(*validate, (&addresses[i as int],), Err::<(), String>(why)));
                return Some((i, why));
            },
        }
        i += 1;
    }
    None
}

/// `validate` was, or may be, answered `Ok` for each address of `requested`.
pub open spec fn all_accepted<V: Fn(&String) -> Result<(), String>>(
    requested: Set<Seq<char>>,
    validate: V,
) -> bool {
    forall|a: Seq<char>| requested.contains(a) ==> accepts(validate, a)
}

/// `e` says that `validate` rejected an address of `requested`, with the
/// reason it gave, and that address is the first, in ascending order, that it
/// did not accept.
pub open spec fn refused<V: Fn(&String) -> Result<(), String>>(
    requested: Set<Seq<char>>,
    validate: V,
    e: ContractErrorView,
) -> bool {
    &&& e matches ContractErrorView::Validation { address, reason }
    &&& requested.contains(address)
    &&& rejects(validate, address, reason)
    &&& forall|a: Seq<char>| requested.contains(a) && key_lt(a, address) ==> accepts(validate, a)
}

/// Asks `validate` about the addresses of `requested` in ascending order, up
/// to the first that it rejects. Returns the error that tells of that one, or
/// `None` where it accepted them all.
pub fn validate_all<V: Fn(&String) -> Result<(), String>>(
    requested: &AddressSet,
    validate: &V,
) -> (r: Option<ContractError>)
    requires
        answers_all(*validate),
    ensures
        r is None ==> all_accepted(requested@, *validate),
        r is Some ==> refused(requested@, *validate, r->Some_0@),
{
    let list = requested.list();
    proof {
        requested.lemma_finite();
        lemma_ascending_lists(requested@);
    }
    let ghost all = views_of(list@);
    match first_rejected(&list, validate) {
        Some((i, reason)) => {
            let address = list[i].clone();
            proof {
                assert(all[i as int] == list[i as int]@);
                assert(all.contains(all[i as int]));
                assert forall|a: Seq<char>| requested@.contains(a) && key_lt(
                    a,
                    address@,
                ) implies accepts(*validate, a) by {
                    assert(all.contains(a));
                    let j = choose|j: int| 0 <= j < all.len() && all[j] == a;
                    assert(all[j] == list[j]@);
                    if j >= i {
                        if j > i {
                            assert(key_lt(all[i as int], all[j]));
                        }
                        lemma_key_lt_trichotomy(a, address@);
                    }
                }
            }
            Some(ContractError::Validation { address, reason })
        },
        None => {
            proof {
                assert forall|a: Seq<char>| requested@.contains(a) implies accepts(
                    *validate,
                    a,
                ) by {
                    assert(all.contains(a));
                    let j = choose|j: int| 0 <= j < all.len() && all[j] == a;
                    assert(all[j] == list[j]@);
                }
            }
            None
        },
    }
}

} // verus!
