//! What a contract sees of the world around it: who is calling, what time it
//! is, and where its events go.

use vstd::prelude::*;

verus! {

/// Why an operation was refused. A refused operation changes nothing.
#[derive(Clone, Copy, Debug, PartialEq, Eq, Structural)]
pub enum Error {
    /// The contract already has an administrator.
    AlreadyInitialized,
    /// The contract has no administrator yet.
    NotInitialized,
    /// The principal did not authorize the call, or is not the one the record names.
    Unauthorized,
    /// No record is stored under the given id.
    NotFound,
    /// The record is not in the state the operation starts from.
    InvalidState,
    /// The voucher's lifetime is over.
    Expired,
    /// The token contract rejected the transfer.
    TransferFailed,
}

/// An identity that can authorize operations: a buyer, an owner or an administrator.
#[derive(Debug)]
pub struct Principal {
    pub key: String,
}

impl View for Principal {
    type V = Seq<char>;

    open spec fn view(&self) -> Seq<char> {
        self.key@
    }
}

impl Principal {
    pub fn new(key: String) -> (p: Principal)
        ensures
            p@ == key@,
    {
        Principal { key }
    }

    /// Whether both values name the same identity.
    pub fn same_as(&self, other: &Principal) -> (same: bool)
        ensures
            same == (self@ == other@),
    {
        self.key == other.key
    }
}

impl Clone for Principal {
    fn clone(&self) -> (copy: Principal)
        ensures
            copy == *self,
    {
        Principal { key: self.key.clone() }
    }
}

/// The identity behind an optional principal.
pub open spec fn key_of(who: Option<Principal>) -> Option<Seq<char>> {
    match who {
        Some(p) => Some(p@),
        None => None,
    }
}

/// What a contract publishes after a change, for those who follow it from outside.
#[derive(Debug)]
pub enum Event {
    PaymentCreated { plan_id: String, buyer: Principal, amount: i128 },
    PaymentCompleted { payment_id: u64, buyer: Principal },
    PaymentRefunded { payment_id: u64, buyer: Principal },
    VoucherMinted { voucher_id: u64, owner: Principal, plan_id: String, code: String },
    VoucherActivated { voucher_id: u64, owner: Principal },
    VoucherTransferred { voucher_id: u64, from: Principal, to: Principal },
}

/// An event as a mathematical value.
pub enum EventView {
    PaymentCreated { plan_id: Seq<char>, buyer: Seq<char>, amount: i128 },
    PaymentCompleted { payment_id: u64, buyer: Seq<char> },
    PaymentRefunded { payment_id: u64, buyer: Seq<char> },
    VoucherMinted { voucher_id: u64, owner: Seq<char>, plan_id: Seq<char>, code: Seq<char> },
    VoucherActivated { voucher_id: u64, owner: Seq<char> },
    VoucherTransferred { voucher_id: u64, from: Seq<char>, to: Seq<char> },
}

impl EventView {
    /// The name under which the event is published.
    pub open spec fn topic(self) -> Seq<char> {
        match self {
            EventView::PaymentCreated { .. } => "payment_created"@,
            EventView::PaymentCompleted { .. } => "payment_completed"@,
            EventView::PaymentRefunded { .. } => "payment_refunded"@,
            EventView::VoucherMinted { .. } => "voucher_minted"@,
            EventView::VoucherActivated { .. } => "voucher_activated"@,
            EventView::VoucherTransferred { .. } => "voucher_transferred"@,
        }
    }
}

impl View for Event {
    type V = EventView;

    open spec fn view(&self) -> EventView {
        match *self {
            Event::PaymentCreated { plan_id, buyer, amount } => EventView::PaymentCreated {
                plan_id: plan_id@,
                buyer: buyer@,
                amount,
            },
            Event::PaymentCompleted { payment_id, buyer } => EventView::PaymentCompleted {
                payment_id,
                buyer: buyer@,
            },
            Event::PaymentRefunded { payment_id, buyer } => EventView::PaymentRefunded {
                payment_id,
                buyer: buyer@,
            },
            Event::VoucherMinted { voucher_id, owner, plan_id, code } => EventView::VoucherMinted {
                voucher_id,
                owner: owner@,
                plan_id: plan_id@,
                code: code@,
            },
            Event::VoucherActivated { voucher_id, owner } => EventView::VoucherActivated {
                voucher_id,
                owner: owner@,
            },
            Event::VoucherTransferred { voucher_id, from, to } => EventView::VoucherTransferred {
                voucher_id,
                from: from@,
                to: to@,
            },
        }
    }
}

impl Event {
    /// The name under which the event is published.
    pub fn topic(&self) -> (name: &'static str)
        ensures
            name@ == self@.topic(),
    {
        match self {
            Event::PaymentCreated { .. } => "payment_created",
            Event::PaymentCompleted { .. } => "payment_completed",
            Event::PaymentRefunded { .. } => "payment_refunded",
            Event::VoucherMinted { .. } => "voucher_minted",
            Event::VoucherActivated { .. } => "voucher_activated",
            Event::VoucherTransferred { .. } => "voucher_transferred",
        }
    }
}

/// One call into a contract: who authorized it, what the clock and the era
/// counter read, and the events published so far.
#[derive(Debug)]
pub struct Invocation {
    pub authorized: Vec<Principal>,
    pub timestamp: u64,
    pub sequence: u64,
    pub events: Vec<Event>,
}

/// An invocation as a mathematical value.
pub struct InvocationView {
    pub authorized: Seq<Seq<char>>,
    pub timestamp: u64,
    pub sequence: u64,
    pub events: Seq<EventView>,
}

impl InvocationView {
    /// Whether `who` authorized the call.
    pub open spec fn authorizes(self, who: Seq<char>) -> bool {
        self.authorized.contains(who)
    }

    /// Whether `admin` may act as administrator in this call, for a contract
    /// whose administrator on record is `stored`: it must have authorized
    /// the call and be that administrator.
    pub open spec fn admin_check(self, stored: Option<Seq<char>>, admin: Seq<char>) -> Result<
        (),
        Error,
    > {
        if !self.authorizes(admin) {
            Err(Error::Unauthorized)
        } else if stored is None {
            Err(Error::NotInitialized)
        } else if stored != Some(admin) {
            Err(Error::Unauthorized)
        } else {
            Ok(())
        }
    }

    /// The same call with one more event published.
    pub open spec fn emitting(self, event: EventView) -> InvocationView {
        InvocationView { events: self.events.push(event), ..self }
    }
}

impl View for Invocation {
    type V = InvocationView;

    open spec fn view(&self) -> InvocationView {
        InvocationView {
            authorized: self.authorized@.map_values(|p: Principal| p@),
            timestamp: self.timestamp,
            sequence: self.sequence,
            events: self.events@.map_values(|e: Event| e@),
        }
    }
}

impl Invocation {
    /// A call that nobody has authorized yet, at the given clock and era readings.
    pub fn new(timestamp: u64, sequence: u64) -> (call: Invocation)
        ensures
            call@ == (InvocationView {
                authorized: Seq::empty(),
                timestamp,
                sequence,
                events: Seq::empty(),
            }),
    {
        let call = Invocation { authorized: Vec::new(), timestamp, sequence, events: Vec::new() };
        assert(call@.authorized =~= Seq::empty());
        assert(call@.events =~= Seq::empty());
        call
    }

    /// Records that `who` authorized the call.
    pub fn authorize(&mut self, who: Principal)
        ensures
            final(self)@ == (InvocationView {
                authorized: old(self)@.authorized.push(who@),
                ..old(self)@
            }),
    {
        self.authorized.push(who);
        assert(self@.authorized =~= old(self)@.authorized.push(who@));
    }

    /// Succeeds exactly when `who` authorized the call.
    pub fn require_auth(&self, who: &Principal) -> (checked: Result<(), Error>)
        ensures
            checked == (if self@.authorizes(who@) {
                Ok::<(), Error>(())
            } else {
                Err::<(), Error>(Error::Unauthorized)
            }),
    {
        let mut i: usize = 0;
        while i < self.authorized.len()
            invariant
                i <= self.authorized.len(),
                forall|j: int| 0 <= j < i ==> self@.authorized[j] != who@,
            decreases self.authorized.len() - i,
        {
            if self.authorized[i].same_as(who) {
                assert(self@.authorized[i as int] == who@);
                return Ok(());
            }
            i += 1;
        }
        Err(Error::Unauthorized)
    }

    /// Succeeds exactly when `admin` authorized the call and is the
    /// administrator on record.
    pub fn require_admin(&self, stored: &Option<Principal>, admin: &Principal) -> (checked: Result<
        (),
        Error,
    >)
        ensures
            checked == self@.admin_check(key_of(*stored), admin@),
    {
        match self.require_auth(admin) {
            Err(e) => Err(e),
            Ok(()) => match stored {
                None => Err(Error::NotInitialized),
                Some(on_record) => if on_record.same_as(admin) {
                    Ok(())
                } else {
                    Err(Error::Unauthorized)
                },
            },
        }
    }

    /// Publishes `event`.
    pub fn emit(&mut self, event: Event)
        ensures
            final(self)@ == old(self)@.emitting(event@),
    {
        self.events.push(event);
        assert(self@.events =~= old(self)@.events.push(event@));
    }
}

} // verus!
