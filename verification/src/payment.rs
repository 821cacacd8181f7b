//! The payment escrow: a buyer's funds are held against a plan until an
//! administrator completes the payment or refunds it.

use crate::host::{key_of, Error, Event, EventView, Invocation, InvocationView, Principal};
use std::collections::HashMap;
use vstd::prelude::*;

verus! {

broadcast use vstd::std_specs::hash::group_hash_axioms;

/// The keys under which an escrow keeps its durable state.
#[derive(Clone, Copy, Debug, PartialEq, Eq, Structural)]
pub enum DataKey {
    Admin,
    Payment(u64),
}

/// Where a payment stands. `Completed` and `Refunded` are terminal.
#[derive(Clone, Copy, Debug, PartialEq, Eq, Structural)]
pub enum PaymentStatus {
    Pending,
    Completed,
    Refunded,
}

impl PaymentStatus {
    /// The word by which the status is stored and shown.
    pub open spec fn spec_name(self) -> Seq<char> {
        match self {
            PaymentStatus::Pending => "pending"@,
            PaymentStatus::Completed => "completed"@,
            PaymentStatus::Refunded => "refunded"@,
        }
    }

    /// The word by which the status is stored and shown.
    pub fn name(&self) -> (word: &'static str)
        ensures
            word@ == self.spec_name(),
    {
        match self {
            PaymentStatus::Pending => "pending",
            PaymentStatus::Completed => "completed",
            PaymentStatus::Refunded => "refunded",
        }
    }
}

/// One escrowed purchase.
#[derive(Debug)]
pub struct Payment {
    pub id: u64,
    pub buyer: Principal,
    pub plan_id: String,
    pub amount: i128,
    pub status: PaymentStatus,
    pub created_at: u64,
}

/// A payment as a mathematical value.
pub struct PaymentView {
    pub id: u64,
    pub buyer: Seq<char>,
    pub plan_id: Seq<char>,
    pub amount: i128,
    pub status: PaymentStatus,
    pub created_at: u64,
}

impl View for Payment {
    type V = PaymentView;

    open spec fn view(&self) -> PaymentView {
        PaymentView {
            id: self.id,
            buyer: self.buyer@,
            plan_id: self.plan_id@,
            amount: self.amount,
            status: self.status,
            created_at: self.created_at,
        }
    }
}

/// The durable state of one escrow: its administrator, once set, and every
/// payment by id.
pub struct PaymentLedger {
    pub admin: Option<Seq<char>>,
    pub payments: Map<u64, PaymentView>,
}

impl PaymentLedger {
    /// Every payment is stored under its own id.
    pub open spec fn wf(self) -> bool {
        forall|id: u64| #[trigger] self.payments.contains_key(id) ==> self.payments[id].id == id
    }

    /// What `initialize` answers: it succeeds where no administrator is set.
    pub open spec fn initialize_outcome(self) -> Result<(), Error> {
        if self.admin is None {
            Ok(())
        } else {
            Err(Error::AlreadyInitialized)
        }
    }

    /// Whether anything is stored under `key`.
    pub open spec fn has(self, key: DataKey) -> bool {
        match key {
            DataKey::Admin => self.admin is Some,
            DataKey::Payment(id) => self.payments.contains_key(id),
        }
    }

    /// Whether `admin` may settle the payment `payment_id` in `call`: on top
    /// of the administrator's check, the payment must exist and be pending.
    pub open spec fn settle_check(
        self,
        call: InvocationView,
        payment_id: u64,
        admin: Seq<char>,
    ) -> Result<(), Error> {
        if call.admin_check(self.admin, admin) is Err {
            call.admin_check(self.admin, admin)
        } else if !self.payments.contains_key(payment_id) {
            Err(Error::NotFound)
        } else if self.payments[payment_id].status != PaymentStatus::Pending {
            Err(Error::InvalidState)
        } else {
            Ok(())
        }
    }

    /// The ledger with `payment` stored under its id, in place of what was there.
    pub open spec fn with_payment(self, payment: PaymentView) -> PaymentLedger {
        PaymentLedger { payments: self.payments.insert(payment.id, payment), ..self }
    }

    /// The ledger in which the payment `payment_id` has the given status and
    /// nothing else differs.
    pub open spec fn with_status(self, payment_id: u64, status: PaymentStatus) -> PaymentLedger {
        PaymentLedger {
            payments: self.payments.insert(
                payment_id,
                PaymentView { status, ..self.payments[payment_id] },
            ),
            ..self
        }
    }
}

/// A change that an escrow can go through.
pub enum PaymentStep {
    /// The administrator is set.
    Initialize { admin: Seq<char> },
    /// A payment is recorded under its id.
    Create { payment: PaymentView },
    /// A payment leaves the pending state for `status`.
    Settle { payment_id: u64, status: PaymentStatus },
}

impl PaymentLedger {
    /// Whether the ledger can take `step`: the administrator is set once, a
    /// payment starts out pending, and only a pending payment is settled.
    pub open spec fn enabled(self, step: PaymentStep) -> bool {
        match step {
            PaymentStep::Initialize { .. } => self.admin is None,
            PaymentStep::Create { payment } => payment.status == PaymentStatus::Pending,
            PaymentStep::Settle { payment_id, status } => {
                &&& self.payments.contains_key(payment_id)
                &&& self.payments[payment_id].status == PaymentStatus::Pending
                &&& status != PaymentStatus::Pending
            },
        }
    }

    /// The ledger after `step`.
    pub open spec fn apply(self, step: PaymentStep) -> PaymentLedger {
        match step {
            PaymentStep::Initialize { admin } => PaymentLedger { admin: Some(admin), ..self },
            PaymentStep::Create { payment } => self.with_payment(payment),
            PaymentStep::Settle { payment_id, status } => self.with_status(payment_id, status),
        }
    }

    /// Whether the ledger can take `steps` one after the other.
    pub open spec fn admits(self, steps: Seq<PaymentStep>) -> bool
        decreases steps.len(),
    {
        steps.len() > 0 ==> self.admits(steps.drop_last()) && self.after(
            steps.drop_last(),
        ).enabled(steps.last())
    }

    /// The ledger after `steps`, taken one after the other.
    pub open spec fn after(self, steps: Seq<PaymentStep>) -> PaymentLedger
        decreases steps.len(),
    {
        if steps.len() == 0 {
            self
        } else {
            self.after(steps.drop_last()).apply(steps.last())
        }
    }
}

impl PaymentStep {
    /// Whether the step records a payment under `payment_id`.
    pub open spec fn records(self, payment_id: u64) -> bool {
        self matches PaymentStep::Create { payment } && payment.id == payment_id
    }
}

/// Taking steps keeps every payment under its own id.
pub proof fn lemma_steps_keep_ids(ledger: PaymentLedger, steps: Seq<PaymentStep>)
    requires
        ledger.wf(),
        ledger.admits(steps),
    ensures
        ledger.after(steps).wf(),
    decreases steps.len(),
{
    if steps.len() > 0 {
        lemma_steps_keep_ids(ledger, steps.drop_last());
    }
}

/// The administrator is set once: whatever steps an escrow with an
/// administrator takes, it keeps that administrator and cannot be
/// initialized again.
pub proof fn lemma_admin_is_set_once(ledger: PaymentLedger, steps: Seq<PaymentStep>)
    requires
        ledger.admin is Some,
        ledger.admits(steps),
    ensures
        ledger.after(steps).admin == ledger.admin,
        ledger.after(steps).initialize_outcome() == Err::<(), Error>(Error::AlreadyInitialized),
        forall|admin: Seq<char>| !ledger.after(steps).enabled(PaymentStep::Initialize { admin }),
        forall|i: int| 0 <= i < steps.len() ==> !(#[trigger] steps[i] is Initialize),
    decreases steps.len(),
{
    if steps.len() > 0 {
        lemma_admin_is_set_once(ledger, steps.drop_last());
        assert forall|i: int| 0 <= i < steps.len() implies !(#[trigger] steps[i] is Initialize) by {
            if i < steps.len() - 1 {
                assert(steps[i] == steps.drop_last()[i]);
            }
        }
    }
}

/// A payment keeps its id, buyer, plan, amount and time of creation through
/// every step that does not record a payment anew under its id; only its
/// status may change, and only away from pending.
pub proof fn lemma_payment_keeps_its_terms(
    ledger: PaymentLedger,
    steps: Seq<PaymentStep>,
    payment_id: u64,
)
    requires
        ledger.admits(steps),
        ledger.payments.contains_key(payment_id),
        forall|i: int| 0 <= i < steps.len() ==> !(#[trigger] steps[i]).records(payment_id),
    ensures
        ledger.after(steps).payments.contains_key(payment_id),
        ledger.after(steps).payments[payment_id] == (PaymentView {
            status: ledger.after(steps).payments[payment_id].status,
            ..ledger.payments[payment_id]
        }),
        ledger.payments[payment_id].status != PaymentStatus::Pending ==> ledger.after(
            steps,
        ).payments[payment_id].status == ledger.payments[payment_id].status,
    decreases steps.len(),
{
    if steps.len() > 0 {
        let before = steps.drop_last();
        assert forall|i: int| 0 <= i < before.len() implies !(#[trigger] before[i]).records(
            payment_id,
        ) by {
            assert(before[i] == steps[i]);
        }
        lemma_payment_keeps_its_terms(ledger, before, payment_id);
        assert(!steps[steps.len() - 1].records(payment_id));
    }
}

/// A payment that is completed or refunded stays exactly as it is through
/// every step that does not record a payment anew under its id.
pub proof fn lemma_settled_payment_is_final(
    ledger: PaymentLedger,
    steps: Seq<PaymentStep>,
    payment_id: u64,
)
    requires
        ledger.admits(steps),
        ledger.payments.contains_key(payment_id),
        ledger.payments[payment_id].status != PaymentStatus::Pending,
        forall|i: int| 0 <= i < steps.len() ==> !(#[trigger] steps[i]).records(payment_id),
    ensures
        ledger.after(steps).payments.contains_key(payment_id),
        ledger.after(steps).payments[payment_id] == ledger.payments[payment_id],
        forall|i: int|
            0 <= i < steps.len() ==> !(#[trigger] steps[i] matches PaymentStep::Settle {
                payment_id: settled,
                ..
            } && settled == payment_id),
    decreases steps.len(),
{
    lemma_payment_keeps_its_terms(ledger, steps, payment_id);
    if steps.len() > 0 {
        let before = steps.drop_last();
        assert forall|i: int| 0 <= i < before.len() implies !(#[trigger] before[i]).records(
            payment_id,
        ) by {
            assert(before[i] == steps[i]);
        }
        lemma_settled_payment_is_final(ledger, before, payment_id);
        assert forall|i: int| 0 <= i < steps.len() implies !(
        #[trigger] steps[i] matches PaymentStep::Settle { payment_id: settled, .. } && settled
            == payment_id) by {
            if i < steps.len() - 1 {
                assert(steps[i] == before[i]);
            }
        }
    }
}

/// What a refund returns is what was deposited: a payment recorded for
/// `payment.amount` from `payment.buyer` still names that buyer and that
/// amount, which are what its refund order carries, after every step that
/// does not record a payment anew under its id.
pub proof fn lemma_refund_returns_the_deposit(
    ledger: PaymentLedger,
    payment: PaymentView,
    steps: Seq<PaymentStep>,
)
    requires
        ledger.enabled(PaymentStep::Create { payment }),
        ledger.apply(PaymentStep::Create { payment }).admits(steps),
        forall|i: int| 0 <= i < steps.len() ==> !(#[trigger] steps[i]).records(payment.id),
    ensures
        ledger.apply(PaymentStep::Create { payment }).after(steps).payments.contains_key(
            payment.id,
        ),
        ledger.apply(PaymentStep::Create { payment }).after(steps).payments[payment.id].buyer
            == payment.buyer,
        ledger.apply(PaymentStep::Create { payment }).after(steps).payments[payment.id].amount
            == payment.amount,
{
    lemma_payment_keeps_its_terms(ledger.apply(PaymentStep::Create { payment }), steps, payment.id);
}

/// A movement of funds that the escrow asks the token contract to make.
#[derive(Debug)]
pub enum TransferOrder {
    /// From the buyer into escrow.
    Deposit { from: Principal, amount: i128 },
    /// Out of escrow, back to the buyer.
    Refund { to: Principal, amount: i128 },
}

/// A transfer order as a mathematical value.
pub enum TransferOrderView {
    Deposit { from: Seq<char>, amount: i128 },
    Refund { to: Seq<char>, amount: i128 },
}

impl View for TransferOrder {
    type V = TransferOrderView;

    open spec fn view(&self) -> TransferOrderView {
        match *self {
            TransferOrder::Deposit { from, amount } => TransferOrderView::Deposit {
                from: from@,
                amount,
            },
            TransferOrder::Refund { to, amount } => TransferOrderView::Refund { to: to@, amount },
        }
    }
}

/// What the token contract answered to a transfer order.
#[derive(Clone, Copy, Debug, PartialEq, Eq, Structural)]
pub enum TransferOutcome {
    Done,
    Rejected,
}

/// What `create_payment` answers: the buyer must have authorized the call and
/// the deposit must have gone through; the id is the era counter's reading.
pub open spec fn creation_outcome(
    call: InvocationView,
    buyer: Seq<char>,
    moved: TransferOutcome,
) -> Result<u64, Error> {
    if !call.authorizes(buyer) {
        Err(Error::Unauthorized)
    } else if moved == TransferOutcome::Rejected {
        Err(Error::TransferFailed)
    } else {
        Ok(call.sequence)
    }
}

/// What `refund_payment` answers.
pub open spec fn refund_outcome(
    ledger: PaymentLedger,
    call: InvocationView,
    payment_id: u64,
    admin: Seq<char>,
    moved: TransferOutcome,
) -> Result<(), Error> {
    if ledger.settle_check(call, payment_id, admin) is Err {
        ledger.settle_check(call, payment_id, admin)
    } else if moved == TransferOutcome::Rejected {
        Err(Error::TransferFailed)
    } else {
        Ok(())
    }
}

/// One escrow instance.
pub struct PaymentContract {
    admin: Option<Principal>,
    payments: HashMap<u64, Payment>,
}

impl View for PaymentContract {
    type V = PaymentLedger;

    closed spec fn view(&self) -> PaymentLedger {
        PaymentLedger {
            admin: key_of(self.admin),
            payments: Map::new(
                |id: u64| self.payments@.contains_key(id),
                |id: u64| self.payments@[id]@,
            ),
        }
    }
}

impl PaymentContract {
    #[verifier::type_invariant]
    spec fn inv(self) -> bool {
        forall|id: u64| #[trigger] self.payments@.contains_key(id) ==> self.payments@[id].id == id
    }

    /// An escrow with no administrator and no payments.
    pub fn new() -> (escrow: PaymentContract)
        ensures
            escrow@ == (PaymentLedger { admin: None, payments: Map::empty() }),
    {
        let escrow = PaymentContract { admin: None, payments: HashMap::new() };
        assert(escrow@.payments =~= Map::empty());
        escrow
    }

    /// An escrow holding the given administrator and at most one payment,
    /// stored under its own id.
    pub fn restore(admin: Option<Principal>, record: Option<Payment>) -> (escrow: PaymentContract)
        ensures
            escrow@.admin == key_of(admin),
            escrow@.payments == (match record {
                Some(p) => Map::<u64, PaymentView>::empty().insert(p.id, p@),
                None => Map::<u64, PaymentView>::empty(),
            }),
    {
        let mut payments: HashMap<u64, Payment> = HashMap::new();
        if let Some(p) = record {
            payments.insert(p.id, p);
        }
        let escrow = PaymentContract { admin, payments };
        assert(escrow@.payments =~= (match record {
            Some(p) => Map::<u64, PaymentView>::empty().insert(p.id, p@),
            None => Map::<u64, PaymentView>::empty(),
        }));
        escrow
    }

    /// Whether anything is stored under `key`.
    pub fn has(&self, key: &DataKey) -> (present: bool)
        ensures
            present == self@.has(*key),
    {
        match key {
            DataKey::Admin => self.admin.is_some(),
            DataKey::Payment(id) => self.payments.contains_key(id),
        }
    }

    /// The administrator, once set.
    pub fn admin(&self) -> (admin: Option<&Principal>)
        ensures
            self@.wf(),
            match admin {
                Some(a) => self@.admin == Some(a@),
                None => self@.admin is None,
            },
    {
        proof {
            use_type_invariant(self);
        }
        self.admin.as_ref()
    }

    /// Makes `admin` the administrator of an escrow that has none.
    pub fn initialize(&mut self, admin: Principal) -> (done: Result<(), Error>)
        ensures
            done == old(self)@.initialize_outcome(),
            final(self)@ == (if done is Ok {
                old(self)@.apply(PaymentStep::Initialize { admin: admin@ })
            } else {
                old(self)@
            }),
            done is Ok ==> old(self)@.enabled(PaymentStep::Initialize { admin: admin@ }),
            final(self)@.wf(),
    {
        proof {
            use_type_invariant(&*self);
        }
        if self.admin.is_some() {
            return Err(Error::AlreadyInitialized);
        }
        self.admin = Some(admin);
        Ok(())
    }

    fn check_settle(&self, call: &Invocation, payment_id: u64, admin: &Principal) -> (checked:
        Result<(), Error>)
        ensures
            checked == self@.settle_check(call@, payment_id, admin@),
    {
        match call.require_admin(&self.admin, admin) {
            Err(e) => Err(e),
            Ok(()) => match self.payments.get(&payment_id) {
                None => Err(Error::NotFound),
                Some(p) => match p.status {
                    PaymentStatus::Pending => Ok(()),
                    _ => Err(Error::InvalidState),
                },
            },
        }
    }

    fn set_status(&mut self, payment_id: u64, status: PaymentStatus) -> (buyer: Principal)
        requires
            old(self)@.payments.contains_key(payment_id),
        ensures
            final(self)@ == old(self)@.with_status(payment_id, status),
            buyer@ == old(self)@.payments[payment_id].buyer,
    {
        proof {
            use_type_invariant(&*self);
        }
        let mut payments: HashMap<u64, Payment> = HashMap::new();
        std::mem::swap(&mut payments, &mut self.payments);
        let mut p = payments.remove(&payment_id).unwrap();
        p.status = status;
        let buyer = p.buyer.clone();
        payments.insert(payment_id, p);
        self.payments = payments;
        assert(self@.payments =~= old(self)@.with_status(payment_id, status).payments);
        buyer
    }

    /// The deposit that `create_payment` expects to have been made: `amount`
    /// from `buyer` into escrow, if `buyer` authorized the call.
    pub fn deposit_order(call: &Invocation, buyer: &Principal, amount: i128) -> (order: Result<
        TransferOrder,
        Error,
    >)
        ensures
            match order {
                Ok(o) => call@.authorizes(buyer@) && o@ == (TransferOrderView::Deposit {
                    from: buyer@,
                    amount,
                }),
                Err(e) => !call@.authorizes(buyer@) && e == Error::Unauthorized,
            },
    {
        match call.require_auth(buyer) {
            Err(e) => Err(e),
            Ok(()) => Ok(TransferOrder::Deposit { from: buyer.clone(), amount }),
        }
    }

    /// Records a pending payment of `amount` by `buyer` for `plan_id`, once
    /// the deposit into escrow has been made, and returns its id.
    ///
    /// The id is the era counter's reading: a payment already stored under
    /// it is replaced. Nothing is recorded when the deposit was rejected.
    pub fn create_payment(
        &mut self,
        call: &mut Invocation,
        buyer: Principal,
        plan_id: String,
        amount: i128,
        moved: TransferOutcome,
    ) -> (created: Result<u64, Error>)
        ensures
            created == creation_outcome(old(call)@, buyer@, moved),
            created is Ok ==> final(self)@ == old(self)@.apply(
                PaymentStep::Create {
                    payment: PaymentView {
                        id: old(call)@.sequence,
                        buyer: buyer@,
                        plan_id: plan_id@,
                        amount,
                        status: PaymentStatus::Pending,
                        created_at: old(call)@.timestamp,
                    },
                },
            ) && final(call)@ == old(call)@.emitting(
                EventView::PaymentCreated { plan_id: plan_id@, buyer: buyer@, amount },
            ),
            created is Err ==> final(self)@ == old(self)@ && final(call)@ == old(call)@,
            final(self)@.wf(),
    {
        proof {
            use_type_invariant(&*self);
        }
        match call.require_auth(&buyer) {
            Err(e) => {
                return Err(e);
            },
            Ok(()) => {},
        }
        match moved {
            TransferOutcome::Rejected => {
                return Err(Error::TransferFailed);
            },
            TransferOutcome::Done => {},
        }
        let id = call.sequence;
        let payment = Payment {
            id,
            buyer: buyer.clone(),
            plan_id: plan_id.clone(),
            amount,
            status: PaymentStatus::Pending,
            created_at: call.timestamp,
        };
        let mut payments: HashMap<u64, Payment> = HashMap::new();
        std::mem::swap(&mut payments, &mut self.payments);
        payments.insert(id, payment);
        self.payments = payments;
        assert(self@.payments =~= old(self)@.with_payment(payment@).payments);
        call.emit(Event::PaymentCreated { plan_id, buyer, amount });
        Ok(id)
    }

    /// Marks a pending payment as completed. The escrowed funds stay where
    /// they are: paying them out is left to the caller.
    pub fn complete_payment(&mut self, call: &mut Invocation, payment_id: u64, admin: &Principal) -> (done:
        Result<(), Error>)
        ensures
            done == old(self)@.settle_check(old(call)@, payment_id, admin@),
            done is Ok ==> old(self)@.enabled(
                PaymentStep::Settle { payment_id, status: PaymentStatus::Completed },
            ),
            done is Ok ==> final(self)@ == old(self)@.apply(
                PaymentStep::Settle { payment_id, status: PaymentStatus::Completed },
            ) && final(call)@ == old(call)@.emitting(
                EventView::PaymentCompleted {
                    payment_id,
                    buyer: old(self)@.payments[payment_id].buyer,
                },
            ),
            done is Err ==> final(self)@ == old(self)@ && final(call)@ == old(call)@,
            final(self)@.wf(),
    {
        proof {
            use_type_invariant(&*self);
        }
        match self.check_settle(call, payment_id, admin) {
            Err(e) => {
                return Err(e);
            },
            Ok(()) => {},
        }
        let buyer = self.set_status(payment_id, PaymentStatus::Completed);
        proof {
            use_type_invariant(&*self);
        }
        call.emit(Event::PaymentCompleted { payment_id, buyer });
        Ok(())
    }

    /// The transfer that a refund of `payment_id` calls for: the payment's
    /// whole amount, out of escrow, to its buyer.
    pub fn refund_order(&self, call: &Invocation, payment_id: u64, admin: &Principal) -> (order:
        Result<TransferOrder, Error>)
        ensures
            match order {
                Ok(o) => self@.settle_check(call@, payment_id, admin@) is Ok && o@ == (
                TransferOrderView::Refund {
                    to: self@.payments[payment_id].buyer,
                    amount: self@.payments[payment_id].amount,
                }),
                Err(e) => self@.settle_check(call@, payment_id, admin@) == Err::<(), Error>(e),
            },
    {
        match self.check_settle(call, payment_id, admin) {
            Err(e) => Err(e),
            Ok(()) => {
                let p = self.payments.get(&payment_id).unwrap();
                Ok(TransferOrder::Refund { to: p.buyer.clone(), amount: p.amount })
            },
        }
    }

    /// Marks a pending payment as refunded, once its refund order has been
    /// carried out. The payment stays pending when the transfer was rejected.
    pub fn refund_payment(
        &mut self,
        call: &mut Invocation,
        payment_id: u64,
        admin: &Principal,
        moved: TransferOutcome,
    ) -> (done: Result<(), Error>)
        ensures
            done == refund_outcome(old(self)@, old(call)@, payment_id, admin@, moved),
            done is Ok ==> old(self)@.enabled(
                PaymentStep::Settle { payment_id, status: PaymentStatus::Refunded },
            ),
            done is Ok ==> final(self)@ == old(self)@.apply(
                PaymentStep::Settle { payment_id, status: PaymentStatus::Refunded },
            ) && final(call)@ == old(call)@.emitting(
                EventView::PaymentRefunded {
                    payment_id,
                    buyer: old(self)@.payments[payment_id].buyer,
                },
            ),
            done is Err ==> final(self)@ == old(self)@ && final(call)@ == old(call)@,
            final(self)@.wf(),
    {
        proof {
            use_type_invariant(&*self);
        }
        match self.check_settle(call, payment_id, admin) {
            Err(e) => {
                return Err(e);
            },
            Ok(()) => {},
        }
        match moved {
            TransferOutcome::Rejected => {
                return Err(Error::TransferFailed);
            },
            TransferOutcome::Done => {},
        }
        let buyer = self.set_status(payment_id, PaymentStatus::Refunded);
        proof {
            use_type_invariant(&*self);
        }
        call.emit(Event::PaymentRefunded { payment_id, buyer });
        Ok(())
    }

    /// The payment stored under `payment_id`.
    pub fn get_payment(&self, payment_id: u64) -> (found: Result<&Payment, Error>)
        ensures
            self@.wf(),
            match found {
                Ok(p) => self@.payments.contains_key(payment_id) && p@ == self@.payments[payment_id],
                Err(e) => !self@.payments.contains_key(payment_id) && e == Error::NotFound,
            },
    {
        proof {
            use_type_invariant(self);
        }
        match self.payments.get(&payment_id) {
            Some(p) => Ok(p),
            None => Err(Error::NotFound),
        }
    }
}

} // verus!
