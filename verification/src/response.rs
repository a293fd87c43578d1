//! What a call hands back to the host beside the new state: attributes,
//! events and outbound transfers.

use crate::host::{coin_views, Coin, CoinView};
use vstd::prelude::*;

verus! {

/// A key and a value.
#[derive(Debug, PartialEq, Eq)]
pub struct Attribute {
    pub key: String,
    pub value: String,
}

pub struct AttributeView {
    pub key: Seq<char>,
    pub value: Seq<char>,
}

impl View for Attribute {
    type V = AttributeView;

    open spec fn view(&self) -> AttributeView {
        AttributeView { key: self.key@, value: self.value@ }
    }
}

impl Attribute {
    pub fn new(key: &str, value: &str) -> (a: Attribute)
        ensures
            a@ == (AttributeView { key: key@, value: value@ }),
    {
        Attribute { key: key.to_owned(), value: value.to_owned() }
    }
}

/// The views of a sequence of attributes.
pub open spec fn attribute_views(attributes: Seq<Attribute>) -> Seq<AttributeView> {
    attributes.map_values(|a: Attribute| a@)
}

/// A named event with its attributes.
#[derive(Debug, PartialEq, Eq)]
pub struct Event {
    pub ty: String,
    pub attributes: Vec<Attribute>,
}

pub struct EventView {
    pub ty: Seq<char>,
    pub attributes: Seq<AttributeView>,
}

impl View for Event {
    type V = EventView;

    open spec fn view(&self) -> EventView {
        EventView { ty: self.ty@, attributes: attribute_views(self.attributes@) }
    }
}

impl Event {
    /// An event of type `ty` without attributes.
    pub fn new(ty: &str) -> (e: Event)
        ensures
            e@ == (EventView { ty: ty@, attributes: Seq::empty() }),
    {
        let e = Event { ty: ty.to_owned(), attributes: Vec::new() };
        assert(e@.attributes =~= Seq::empty());
        e
    }

    /// The event with one more attribute at its end.
    pub fn add_attribute(self, key: &str, value: &str) -> (e: Event)
        ensures
            e@ == (EventView {
                ty: self@.ty,
                attributes: self@.attributes.push(AttributeView { key: key@, value: value@ }),
            }),
    {
        let mut e = self;
        e.attributes.push(Attribute::new(key, value));
        assert(e@.attributes =~= self@.attributes.push(
            AttributeView { key: key@, value: value@ },
        ));
        e
    }
}

/// The views of a sequence of events.
pub open spec fn event_views(events: Seq<Event>) -> Seq<EventView> {
    events.map_values(|e: Event| e@)
}

/// An instruction to the host's bank.
#[derive(Debug, PartialEq, Eq)]
pub enum BankMsg {
    /// Transfer `amount` from the contract's own balance to `to_address`.
    Send { to_address: String, amount: Vec<Coin> },
}

pub enum BankMsgView {
    Send { to_address: Seq<char>, amount: Seq<CoinView> },
}

impl View for BankMsg {
    type V = BankMsgView;

    open spec fn view(&self) -> BankMsgView {
        match self {
            BankMsg::Send { to_address, amount } => BankMsgView::Send {
                to_address: to_address@,
                amount: coin_views(amount@),
            },
        }
    }
}

/// The views of a sequence of bank messages.
pub open spec fn message_views(messages: Seq<BankMsg>) -> Seq<BankMsgView> {
    messages.map_values(|m: BankMsg| m@)
}

/// What a successful call emits.
#[derive(Debug, PartialEq, Eq)]
pub struct Response {
    pub messages: Vec<BankMsg>,
    pub attributes: Vec<Attribute>,
    pub events: Vec<Event>,
}

pub struct ResponseView {
    pub messages: Seq<BankMsgView>,
    pub attributes: Seq<AttributeView>,
    pub events: Seq<EventView>,
}

impl View for Response {
    type V = ResponseView;

    open spec fn view(&self) -> ResponseView {
        ResponseView {
            messages: message_views(self.messages@),
            attributes: attribute_views(self.attributes@),
            events: event_views(self.events@),
        }
    }
}

/// The response that emits nothing.
pub open spec fn empty_response() -> ResponseView {
    ResponseView { messages: Seq::empty(), attributes: Seq::empty(), events: Seq::empty() }
}

impl Response {
    /// A response that emits nothing.
    pub fn new() -> (r: Response)
        ensures
            r@ == empty_response(),
    {
        let r = Response { messages: Vec::new(), attributes: Vec::new(), events: Vec::new() };
        assert(r@.messages =~= Seq::empty());
        assert(r@.attributes =~= Seq::empty());
        assert(r@.events =~= Seq::empty());
        r
    }

    /// The response with one more attribute at the end of its attributes.
    pub fn add_attribute(self, key: &str, value: &str) -> (r: Response)
        ensures
            r@ == (ResponseView {
                attributes: self@.attributes.push(AttributeView { key: key@, value: value@ }),
                ..self@
            }),
    {
        let mut r = self;
        r.attributes.push(Attribute::new(key, value));
        assert(r@.attributes =~= self@.attributes.push(
            AttributeView { key: key@, value: value@ },
        ));
        r
    }

    /// The response with one more event at the end of its events.
    pub fn add_event(self, event: Event) -> (r: Response)
        ensures
            r@ == (ResponseView { events: self@.events.push(event@), ..self@ }),
    {
        let mut r = self;
        r.events.push(event);
        assert(r@.events =~= self@.events.push(event@));
        r
    }

    /// The response with one more message at the end of its messages.
    pub fn add_message(self, message: BankMsg) -> (r: Response)
        ensures
            r@ == (ResponseView { messages: self@.messages.push(message@), ..self@ }),
    {
        let mut r = self;
        r.messages.push(message);
        assert(r@.messages =~= self@.messages.push(message@));
        r
    }
}

} // verus!
