//! What is kept between calls: the registry of admins and the donation
//! denomination.

use crate::host::{Addr, Timestamp};
use crate::listing::{ascending, lemma_prefix_keys};
use crate::ordered_map::{views_of, OrderedMap};
use vstd::prelude::*;

verus! {

/// The views of a sequence of addresses.
pub open spec fn addr_views(addrs: Seq<Addr>) -> Seq<Seq<char>> {
    addrs.map_values(|a: Addr| a@)
}

/// A set of address strings: what a list of them comes to once order and
/// repetition are taken away.
#[derive(Debug)]
pub struct AddressSet {
    members: OrderedMap<()>,
}

impl View for AddressSet {
    type V = Set<Seq<char>>;

    closed spec fn view(&self) -> Set<Seq<char>> {
        self.members@.dom()
    }
}

impl AddressSet {
    /// A set of address strings is finite.
    pub proof fn lemma_finite(&self)
        ensures
            self@.finite(),
    {
        self.members.lemma_finite();
    }

    /// The set of the strings that occur in `list`.
    pub fn collect(list: &Vec<String>) -> (s: AddressSet)
        ensures
            s@ == views_of(list@).to_set(),
    {
        let mut members: OrderedMap<()> = OrderedMap::new();
        let mut i: usize = 0;
        while i < list.len()
            invariant
                i <= list.len(),
                members@.dom() == views_of(list@).subrange(0, i as int).to_set(),
            decreases list.len() - i,
        {
            let ghost before = members@.dom();
            let _ = members.insert_absent(list[i].clone(), ());
            proof {
                let all = views_of(list@);
                assert(all[i as int] == list@[i as int]@);
                lemma_prefix_keys(all, i as int);
                assert(members@.dom() =~= before.insert(all[i as int]));
            }
            i += 1;
        }
        assert(views_of(list@).subrange(0, i as int) =~= views_of(list@));
        AddressSet { members }
    }

    /// The number of strings in the set.
    pub fn len(&self) -> (n: usize)
        ensures
            n == self@.len(),
            self@.finite(),
    {
        self.members.len()
    }

    /// Whether `address` is in the set.
    pub fn contains(&self, address: &str) -> (r: bool)
        ensures
            r == self@.contains(address@),
    {
        self.members.contains_key(address)
    }

    /// The strings of the set in ascending order.
    pub fn list(&self) -> (l: Vec<String>)
        ensures
            views_of(l@) == ascending(self@),
            l.len() == self@.len(),
    {
        self.members.keys()
    }
}

/// The admins, each with the time at which it joined. An address is an admin
/// if and only if it has an entry; the time of an entry never changes.
#[derive(Debug)]
pub struct AdminRegistry {
    joined: OrderedMap<Timestamp>,
}

impl View for AdminRegistry {
    type V = Map<Seq<char>, Timestamp>;

    closed spec fn view(&self) -> Map<Seq<char>, Timestamp> {
        self.joined@
    }
}

impl AdminRegistry {
    /// A registry has finitely many admins.
    pub proof fn lemma_finite(&self)
        ensures
            self@.dom().finite(),
    {
        self.joined.lemma_finite();
    }

    /// The registry without admins.
    pub fn new() -> (r: AdminRegistry)
        ensures
            r@ == Map::<Seq<char>, Timestamp>::empty(),
    {
        AdminRegistry { joined: OrderedMap::new() }
    }

    /// The number of admins.
    pub fn len(&self) -> (n: usize)
        ensures
            n == self@.dom().len(),
            self@.dom().finite(),
    {
        self.joined.len()
    }

    /// Whether `addr` is an admin.
    pub fn has(&self, addr: &Addr) -> (r: bool)
        ensures
            r == self@.contains_key(addr@),
    {
        self.joined.contains_key(addr.as_str())
    }

    /// The time at which `addr` joined, if it is an admin.
    pub fn get(&self, addr: &Addr) -> (r: Option<Timestamp>)
        ensures
            r == (if self@.contains_key(addr@) {
                Some(self@[addr@])
            } else {
                None
            }),
    {
        self.joined.get(addr.as_str())
    }

    /// Makes `addr` an admin that joined at `time`, unless it is one already:
    /// then nothing changes. Returns whether `addr` was added.
    pub fn put(&mut self, addr: Addr, time: Timestamp) -> (added: bool)
        ensures
            added == !old(self)@.contains_key(addr@),
            final(self)@ == (if added {
                old(self)@.insert(addr@, time)
            } else {
                old(self)@
            }),
    {
        self.joined.insert_absent(addr.into_string(), time)
    }

    /// Takes `addr` out of the registry. Returns whether it was an admin.
    pub fn remove(&mut self, addr: &Addr) -> (removed: bool)
        ensures
            removed == old(self)@.contains_key(addr@),
            final(self)@ == old(self)@.remove(addr@),
    {
        self.joined.remove(addr.as_str())
    }

    /// The admins in ascending order.
    pub fn list_ascending(&self) -> (l: Vec<Addr>)
        ensures
            addr_views(l@) == ascending(self@.dom()),
            l.len() == self@.dom().len(),
    {
        let keys = self.joined.keys();
        let mut l: Vec<Addr> = Vec::new();
        let mut i: usize = 0;
        while i < keys.len()
            invariant
                i <= keys.len(),
                l.len() == i,
                addr_views(l@) == views_of(keys@).subrange(0, i as int),
            decreases keys.len() - i,
        {
            let ghost before = l@;
            l.push(Addr::unchecked(keys[i].as_str()));
            proof {
                let now = addr_views(l@);
                let want = views_of(keys@).subrange(0, i as int + 1);
                assert forall|j: int| 0 <= j < now.len() implies now[j] == want[j] by {
                    if j < i {
                        assert(addr_views(before)[j] == views_of(keys@).subrange(0, i as int)[j]);
                        assert(l@[j] == before[j]);
                    }
                }
                assert(now =~= want);
            }
            i += 1;
        }
        assert(views_of(keys@).subrange(0, i as int) =~= views_of(keys@));
        l
    }
}

/// The state of the contract: its admins, and the denomination in which it
/// takes donations. The denomination is set when the state is made and never
/// changes.
#[derive(Debug)]
pub struct State {
    admins: AdminRegistry,
    donation_denom: String,
}

pub struct StateView {
    pub admins: Map<Seq<char>, Timestamp>,
    pub donation_denom: Seq<char>,
}

impl View for State {
    type V = StateView;

    closed spec fn view(&self) -> StateView {
        StateView { admins: self.admins@, donation_denom: self.donation_denom@ }
    }
}

impl State {
    /// A state has finitely many admins.
    pub proof fn lemma_finite(&self)
        ensures
            self@.admins.dom().finite(),
    {
        self.admins.lemma_finite();
    }

    /// The state with these admins and this denomination.
    pub fn new(admins: AdminRegistry, donation_denom: String) -> (s: State)
        ensures
            s@ == (StateView { admins: admins@, donation_denom: donation_denom@ }),
    {
        State { admins, donation_denom }
    }

    /// The registry of admins.
    pub fn admins(&self) -> (r: &AdminRegistry)
        ensures
            r@ == self@.admins,
    {
        &self.admins
    }

    /// The denomination in which donations are taken.
    pub fn donation_denom(&self) -> (d: &str)
        ensures
            d@ == self@.donation_denom,
    {
        self.donation_denom.as_str()
    }

    /// Makes `addr` an admin that joined at `time`, unless it is one already.
    pub(crate) fn enroll(&mut self, addr: Addr, time: Timestamp) -> (added: bool)
        ensures
            added == !old(self)@.admins.contains_key(addr@),
            final(self)@.donation_denom == old(self)@.donation_denom,
            final(self)@.admins == (if added {
                old(self)@.admins.insert(addr@, time)
            } else {
                old(self)@.admins
            }),
    {
        self.admins.put(addr, time)
    }

    /// Takes `addr` out of the admins.
    pub(crate) fn dismiss(&mut self, addr: &Addr) -> (removed: bool)
        ensures
            removed == old(self)@.admins.contains_key(addr@),
            final(self)@.donation_denom == old(self)@.donation_denom,
            final(self)@.admins == old(self)@.admins.remove(addr@),
    {
        self.admins.remove(addr)
    }
}

} // verus!
