//! The voucher registry: an administrator issues time-bounded vouchers,
//! their owners pass them on or activate them.

use crate::host::{key_of, Error, Event, EventView, Invocation, InvocationView, Principal};
use std::collections::HashMap;
use vstd::prelude::*;

verus! {

broadcast use vstd::std_specs::hash::group_hash_axioms;

/// Seconds in one hour, the unit in which a voucher's lifetime is given.
pub const SECONDS_PER_HOUR: u64 = 3600;

/// The keys under which a registry keeps its durable state.
#[derive(Clone, Copy, Debug, PartialEq, Eq, Structural)]
pub enum DataKey {
    Admin,
    Voucher(u64),
    NextId,
}

/// One entitlement to a plan.
#[derive(Debug)]
pub struct Voucher {
    pub id: u64,
    pub owner: Principal,
    pub plan_id: String,
    pub code: String,
    pub is_active: bool,
    pub activated_at: Option<u64>,
    pub expires_at: u64,
    pub duration_hours: u32,
}

/// A voucher as a mathematical value.
pub struct VoucherView {
    pub id: u64,
    pub owner: Seq<char>,
    pub plan_id: Seq<char>,
    pub code: Seq<char>,
    pub is_active: bool,
    pub activated_at: Option<u64>,
    pub expires_at: u64,
    pub duration_hours: u32,
}

impl View for Voucher {
    type V = VoucherView;

    open spec fn view(&self) -> VoucherView {
        VoucherView {
            id: self.id,
            owner: self.owner@,
            plan_id: self.plan_id@,
            code: self.code@,
            is_active: self.is_active,
            activated_at: self.activated_at,
            expires_at: self.expires_at,
            duration_hours: self.duration_hours,
        }
    }
}

/// The instant at which a voucher issued at `minted_at` for `duration_hours`
/// hours lapses.
pub open spec fn expiry_of(minted_at: u64, duration_hours: u32) -> int {
    minted_at + duration_hours * 3600
}

impl VoucherView {
    /// The voucher as it is when issued: not active, never activated.
    pub open spec fn issued(
        id: u64,
        owner: Seq<char>,
        plan_id: Seq<char>,
        code: Seq<char>,
        minted_at: u64,
        duration_hours: u32,
    ) -> VoucherView {
        VoucherView {
            id,
            owner,
            plan_id,
            code,
            is_active: false,
            activated_at: None,
            expires_at: expiry_of(minted_at, duration_hours) as u64,
            duration_hours,
        }
    }

    /// Whether the voucher entitles its owner at the instant `now`.
    pub open spec fn valid_at(self, now: u64) -> bool {
        self.is_active && now <= self.expires_at
    }

    /// A voucher carries an activation time exactly when it is active.
    pub open spec fn consistent(self) -> bool {
        self.is_active <==> self.activated_at is Some
    }
}

/// The durable state of one registry: its administrator and id counter, once
/// set, and every voucher by id.
pub struct VoucherLedger {
    pub admin: Option<Seq<char>>,
    pub next_id: Option<u64>,
    pub vouchers: Map<u64, VoucherView>,
}

impl VoucherLedger {
    /// Every voucher is stored under its own id.
    pub open spec fn wf(self) -> bool {
        forall|id: u64| #[trigger] self.vouchers.contains_key(id) ==> self.vouchers[id].id == id
    }

    /// What `initialize` answers: it succeeds where no administrator is set.
    pub open spec fn initialize_outcome(self) -> Result<(), Error> {
        if self.admin is None {
            Ok(())
        } else {
            Err(Error::AlreadyInitialized)
        }
    }

    /// Whether anything is stored under `key`.
    pub open spec fn has(self, key: DataKey) -> bool {
        match key {
            DataKey::Admin => self.admin is Some,
            DataKey::Voucher(id) => self.vouchers.contains_key(id),
            DataKey::NextId => self.next_id is Some,
        }
    }

    /// What `mint_voucher` answers: the administrator's check, then the id
    /// that the counter holds.
    pub open spec fn mint_outcome(self, call: InvocationView, admin: Seq<char>) -> Result<
        u64,
        Error,
    > {
        match call.admin_check(self.admin, admin) {
            Err(e) => Err(e),
            Ok(_) => match self.next_id {
                None => Err(Error::NotInitialized),
                Some(id) => Ok(id),
            },
        }
    }

    /// Whether `who`, in `call`, may activate the voucher `voucher_id`, the
    /// expiry aside: it must have authorized the call, the voucher must
    /// exist, belong to `who`, and not be active yet, tested in that order.
    pub open spec fn owner_check(self, call: InvocationView, voucher_id: u64, who: Seq<char>) -> Result<
        (),
        Error,
    > {
        if !call.authorizes(who) {
            Err(Error::Unauthorized)
        } else if !self.vouchers.contains_key(voucher_id) {
            Err(Error::NotFound)
        } else if self.vouchers[voucher_id].owner != who {
            Err(Error::Unauthorized)
        } else if self.vouchers[voucher_id].is_active {
            Err(Error::InvalidState)
        } else {
            Ok(())
        }
    }

    /// What `transfer` answers: `from` must have authorized the call and the
    /// voucher must exist; an active voucher is refused whoever asks; only
    /// then must the voucher belong to `from`.
    pub open spec fn transfer_check(
        self,
        call: InvocationView,
        voucher_id: u64,
        from: Seq<char>,
    ) -> Result<(), Error> {
        if !call.authorizes(from) {
            Err(Error::Unauthorized)
        } else if !self.vouchers.contains_key(voucher_id) {
            Err(Error::NotFound)
        } else if self.vouchers[voucher_id].is_active {
            Err(Error::InvalidState)
        } else if self.vouchers[voucher_id].owner != from {
            Err(Error::Unauthorized)
        } else {
            Ok(())
        }
    }

    /// What `activate_voucher` answers: the owner's check, then the expiry.
    pub open spec fn activation_check(
        self,
        call: InvocationView,
        voucher_id: u64,
        owner: Seq<char>,
    ) -> Result<(), Error> {
        if self.owner_check(call, voucher_id, owner) is Err {
            self.owner_check(call, voucher_id, owner)
        } else if call.timestamp > self.vouchers[voucher_id].expires_at {
            Err(Error::Expired)
        } else {
            Ok(())
        }
    }

    /// The ledger with `voucher` stored under its id, in place of what was there.
    pub open spec fn with_voucher(self, voucher: VoucherView) -> VoucherLedger {
        VoucherLedger { vouchers: self.vouchers.insert(voucher.id, voucher), ..self }
    }

    /// The ledger after `voucher` was issued: stored, and the counter one past its id.
    pub open spec fn minted(self, voucher: VoucherView) -> VoucherLedger {
        VoucherLedger {
            next_id: Some((voucher.id + 1) as u64),
            ..self.with_voucher(voucher)
        }
    }

    /// The ledger in which the voucher `voucher_id` was activated at `now`.
    pub open spec fn activated(self, voucher_id: u64, now: u64) -> VoucherLedger {
        VoucherLedger {
            vouchers: self.vouchers.insert(
                voucher_id,
                VoucherView {
                    is_active: true,
                    activated_at: Some(now),
                    ..self.vouchers[voucher_id]
                },
            ),
            ..self
        }
    }

    /// The ledger in which the voucher `voucher_id` belongs to `to`.
    pub open spec fn transferred(self, voucher_id: u64, to: Seq<char>) -> VoucherLedger {
        VoucherLedger {
            vouchers: self.vouchers.insert(
                voucher_id,
                VoucherView { owner: to, ..self.vouchers[voucher_id] },
            ),
            ..self
        }
    }

    /// Whether the ledger can take `step`: the administrator is set once, a
    /// voucher is issued inactive under the id that the counter holds, and
    /// only a voucher that is not active is activated, within its lifetime,
    /// or changes hands.
    pub open spec fn enabled(self, step: VoucherStep) -> bool {
        match step {
            VoucherStep::Initialize { .. } => self.admin is None,
            VoucherStep::Mint { voucher } => {
                &&& self.next_id == Some(voucher.id)
                &&& voucher.id < u64::MAX
                &&& !voucher.is_active
                &&& voucher.activated_at is None
            },
            VoucherStep::Activate { voucher_id, now } => {
                &&& self.vouchers.contains_key(voucher_id)
                &&& !self.vouchers[voucher_id].is_active
                &&& now <= self.vouchers[voucher_id].expires_at
            },
            VoucherStep::Transfer { voucher_id, .. } => {
                &&& self.vouchers.contains_key(voucher_id)
                &&& !self.vouchers[voucher_id].is_active
            },
        }
    }

    /// The ledger after `step`.
    pub open spec fn apply(self, step: VoucherStep) -> VoucherLedger {
        match step {
            VoucherStep::Initialize { admin } => VoucherLedger {
                admin: Some(admin),
                next_id: Some(1u64),
                ..self
            },
            VoucherStep::Mint { voucher } => self.minted(voucher),
            VoucherStep::Activate { voucher_id, now } => self.activated(voucher_id, now),
            VoucherStep::Transfer { voucher_id, to } => self.transferred(voucher_id, to),
        }
    }

    /// Whether the ledger can take `steps` one after the other.
    pub open spec fn admits(self, steps: Seq<VoucherStep>) -> bool
        decreases steps.len(),
    {
        steps.len() > 0 ==> self.admits(steps.drop_last()) && self.after(
            steps.drop_last(),
        ).enabled(steps.last())
    }

    /// The ledger after `steps`, taken one after the other.
    pub open spec fn after(self, steps: Seq<VoucherStep>) -> VoucherLedger
        decreases steps.len(),
    {
        if steps.len() == 0 {
            self
        } else {
            self.after(steps.drop_last()).apply(steps.last())
        }
    }
}

/// A change that a registry can go through.
pub enum VoucherStep {
    /// The administrator is set and the id counter starts at 1.
    Initialize { admin: Seq<char> },
    /// A voucher is issued under the id that the counter holds.
    Mint { voucher: VoucherView },
    /// A voucher is activated at the instant `now`.
    Activate { voucher_id: u64, now: u64 },
    /// A voucher passes to `to`.
    Transfer { voucher_id: u64, to: Seq<char> },
}

impl VoucherStep {
    /// Whether the step issues a voucher under `voucher_id`.
    pub open spec fn records(self, voucher_id: u64) -> bool {
        self matches VoucherStep::Mint { voucher } && voucher.id == voucher_id
    }
}

/// The ids of the vouchers that `steps` issues, in the order of issue.
pub open spec fn minted_ids(steps: Seq<VoucherStep>) -> Seq<u64>
    decreases steps.len(),
{
    if steps.len() == 0 {
        Seq::empty()
    } else {
        match steps.last() {
            VoucherStep::Mint { voucher } => minted_ids(steps.drop_last()).push(voucher.id),
            _ => minted_ids(steps.drop_last()),
        }
    }
}

impl VoucherLedger {
    /// Every stored voucher has an id below the counter, and without a
    /// counter nothing is stored.
    pub open spec fn counted(self) -> bool {
        match self.next_id {
            Some(next) => forall|id: u64| #[trigger] self.vouchers.contains_key(id) ==> id < next,
            None => forall|id: u64| !#[trigger] self.vouchers.contains_key(id),
        }
    }
}

/// Taking steps keeps every voucher under its own id.
pub proof fn lemma_steps_keep_ids(ledger: VoucherLedger, steps: Seq<VoucherStep>)
    requires
        ledger.wf(),
        ledger.admits(steps),
    ensures
        ledger.after(steps).wf(),
    decreases steps.len(),
{
    if steps.len() > 0 {
        lemma_steps_keep_ids(ledger, steps.drop_last());
    }
}

/// The administrator is set once: whatever steps a registry with an
/// administrator takes, it keeps that administrator and cannot be
/// initialized again.
pub proof fn lemma_admin_is_set_once(ledger: VoucherLedger, steps: Seq<VoucherStep>)
    requires
        ledger.admin is Some,
        ledger.admits(steps),
    ensures
        ledger.after(steps).admin == ledger.admin,
        ledger.after(steps).initialize_outcome() == Err::<(), Error>(Error::AlreadyInitialized),
        forall|admin: Seq<char>| !ledger.after(steps).enabled(VoucherStep::Initialize { admin }),
        forall|i: int| 0 <= i < steps.len() ==> !(#[trigger] steps[i] is Initialize),
    decreases steps.len(),
{
    if steps.len() > 0 {
        lemma_admin_is_set_once(ledger, steps.drop_last());
        assert forall|i: int| 0 <= i < steps.len() implies !(#[trigger] steps[i] is Initialize) by {
            if i < steps.len() - 1 {
                assert(steps[i] == steps.drop_last()[i]);
            }
        }
    }
}

/// Ids are given out in order, without gaps or repeats: in a registry with
/// an administrator whose counter holds `first`, the vouchers issued by any
/// steps get the ids `first`, `first + 1`, and so on, and the counter ends
/// one past the last. Right after `initialize`, `first` is 1.
pub proof fn lemma_ids_count_up(ledger: VoucherLedger, steps: Seq<VoucherStep>, first: u64)
    requires
        ledger.admin is Some,
        ledger.next_id == Some(first),
        ledger.admits(steps),
    ensures
        first + minted_ids(steps).len() <= u64::MAX,
        ledger.after(steps).next_id == Some((first + minted_ids(steps).len()) as u64),
        forall|k: int| 0 <= k < minted_ids(steps).len() ==> #[trigger] minted_ids(steps)[k] == first + k,
    decreases steps.len(),
{
    if steps.len() > 0 {
        lemma_ids_count_up(ledger, steps.drop_last(), first);
        lemma_admin_is_set_once(ledger, steps.drop_last());
    }
}

/// Issuing never replaces a voucher: where every stored id is below the
/// counter, this stays so through any steps, and each voucher is issued
/// under an id that was free.
pub proof fn lemma_mint_takes_a_free_id(ledger: VoucherLedger, steps: Seq<VoucherStep>)
    requires
        ledger.counted(),
        ledger.admin is None ==> ledger.next_id is None,
        ledger.admits(steps),
    ensures
        ledger.after(steps).counted(),
        ledger.after(steps).admin is None ==> ledger.after(steps).next_id is None,
        forall|id: u64| #[trigger]
            ledger.vouchers.contains_key(id) ==> forall|i: int|
                0 <= i < steps.len() ==> !(#[trigger] steps[i]).records(id),
    decreases steps.len(),
{
    if steps.len() > 0 {
        let before = steps.drop_last();
        lemma_mint_takes_a_free_id(ledger, before);
        lemma_stored_ids_stay(ledger, before);
        assert forall|id: u64| #[trigger] ledger.vouchers.contains_key(id) implies forall|i: int|
            0 <= i < steps.len() ==> !(#[trigger] steps[i]).records(id) by {
            assert forall|i: int| 0 <= i < steps.len() implies !(#[trigger] steps[i]).records(
                id,
            ) by {
                if i < steps.len() - 1 {
                    assert(steps[i] == before[i]);
                } else {
                    assert(ledger.after(before).vouchers.contains_key(id));
                }
            }
        }
    }
}

/// No step removes a voucher.
pub proof fn lemma_stored_ids_stay(ledger: VoucherLedger, steps: Seq<VoucherStep>)
    requires
        ledger.admits(steps),
    ensures
        forall|id: u64| #[trigger]
            ledger.vouchers.contains_key(id) ==> ledger.after(steps).vouchers.contains_key(id),
    decreases steps.len(),
{
    if steps.len() > 0 {
        lemma_stored_ids_stay(ledger, steps.drop_last());
    }
}

/// A voucher keeps its id, plan, code, lifetime and expiry through every
/// step that does not issue a voucher anew under its id; it carries an
/// activation time exactly when it is active, if it did so before.
pub proof fn lemma_voucher_keeps_its_terms(
    ledger: VoucherLedger,
    steps: Seq<VoucherStep>,
    voucher_id: u64,
)
    requires
        ledger.admits(steps),
        ledger.vouchers.contains_key(voucher_id),
        forall|i: int| 0 <= i < steps.len() ==> !(#[trigger] steps[i]).records(voucher_id),
    ensures
        ledger.after(steps).vouchers.contains_key(voucher_id),
        ledger.after(steps).vouchers[voucher_id] == (VoucherView {
            owner: ledger.after(steps).vouchers[voucher_id].owner,
            is_active: ledger.after(steps).vouchers[voucher_id].is_active,
            activated_at: ledger.after(steps).vouchers[voucher_id].activated_at,
            ..ledger.vouchers[voucher_id]
        }),
        ledger.vouchers[voucher_id].consistent() ==> ledger.after(
            steps,
        ).vouchers[voucher_id].consistent(),
    decreases steps.len(),
{
    if steps.len() > 0 {
        let before = steps.drop_last();
        assert forall|i: int| 0 <= i < before.len() implies !(#[trigger] before[i]).records(
            voucher_id,
        ) by {
            assert(before[i] == steps[i]);
        }
        lemma_voucher_keeps_its_terms(ledger, before, voucher_id);
        assert(!steps[steps.len() - 1].records(voucher_id));
    }
}

/// An active voucher is frozen: it stays active, with its owner and its
/// activation time, exactly as it is, through every step that does not
/// issue a voucher anew under its id.
pub proof fn lemma_active_voucher_is_frozen(
    ledger: VoucherLedger,
    steps: Seq<VoucherStep>,
    voucher_id: u64,
)
    requires
        ledger.admits(steps),
        ledger.vouchers.contains_key(voucher_id),
        ledger.vouchers[voucher_id].is_active,
        forall|i: int| 0 <= i < steps.len() ==> !(#[trigger] steps[i]).records(voucher_id),
    ensures
        ledger.after(steps).vouchers.contains_key(voucher_id),
        ledger.after(steps).vouchers[voucher_id] == ledger.vouchers[voucher_id],
    decreases steps.len(),
{
    if steps.len() > 0 {
        let before = steps.drop_last();
        assert forall|i: int| 0 <= i < before.len() implies !(#[trigger] before[i]).records(
            voucher_id,
        ) by {
            assert(before[i] == steps[i]);
        }
        lemma_active_voucher_is_frozen(ledger, before, voucher_id);
        assert(!steps[steps.len() - 1].records(voucher_id));
    }
}

/// Activation happens once: on an active voucher it is refused whoever
/// calls, and with `InvalidState` when the caller is the owner and
/// authorized the call.
pub proof fn lemma_activation_is_single_shot(
    ledger: VoucherLedger,
    call: InvocationView,
    voucher_id: u64,
    owner: Seq<char>,
)
    requires
        ledger.vouchers.contains_key(voucher_id),
        ledger.vouchers[voucher_id].is_active,
    ensures
        ledger.activation_check(call, voucher_id, owner) is Err,
        call.authorizes(owner) && owner == ledger.vouchers[voucher_id].owner
            ==> ledger.activation_check(call, voucher_id, owner) == Err::<(), Error>(
            Error::InvalidState,
        ),
        !ledger.enabled(VoucherStep::Activate { voucher_id, now: call.timestamp }),
{
}

/// Expiry is enforced to the second: the owner of a voucher that is not
/// active, issued at `minted_at` for `duration_hours` hours, activates it
/// at any instant up to `minted_at + duration_hours * 3600`, and is
/// refused with `Expired` from the next second on.
pub proof fn lemma_expiry_is_enforced(
    ledger: VoucherLedger,
    call: InvocationView,
    voucher_id: u64,
    minted_at: u64,
    duration_hours: u32,
)
    requires
        ledger.vouchers.contains_key(voucher_id),
        !ledger.vouchers[voucher_id].is_active,
        expiry_of(minted_at, duration_hours) <= u64::MAX,
        ledger.vouchers[voucher_id].expires_at == expiry_of(minted_at, duration_hours),
        call.authorizes(ledger.vouchers[voucher_id].owner),
    ensures
        ledger.activation_check(call, voucher_id, ledger.vouchers[voucher_id].owner) == (
        if call.timestamp <= minted_at + duration_hours * 3600 {
            Ok::<(), Error>(())
        } else {
            Err::<(), Error>(Error::Expired)
        }),
{
}

/// Handing on and activation exclude each other: an active voucher never
/// changes hands, and whoever authorized the call is refused with
/// `InvalidState`; before activation the owner who authorized the call
/// always hands it on, and anyone else is refused with `Unauthorized`.
pub proof fn lemma_transfer_ends_with_activation(
    ledger: VoucherLedger,
    call: InvocationView,
    voucher_id: u64,
    from: Seq<char>,
)
    requires
        ledger.vouchers.contains_key(voucher_id),
    ensures
        ledger.vouchers[voucher_id].is_active ==> ledger.transfer_check(call, voucher_id, from)
            is Err && !ledger.enabled(VoucherStep::Transfer { voucher_id, to: from }),
        ledger.vouchers[voucher_id].is_active && call.authorizes(from) ==> ledger.transfer_check(
            call,
            voucher_id,
            from,
        ) == Err::<(), Error>(Error::InvalidState),
        !ledger.vouchers[voucher_id].is_active && call.authorizes(from) && from
            == ledger.vouchers[voucher_id].owner ==> ledger.transfer_check(call, voucher_id, from)
            is Ok,
        !ledger.vouchers[voucher_id].is_active && from != ledger.vouchers[voucher_id].owner
            ==> ledger.transfer_check(call, voucher_id, from) == Err::<(), Error>(
            Error::Unauthorized,
        ),
{
}

/// Counting starts at 1: in a registry that has just been initialized, the
/// vouchers issued by any steps, whatever else happens in between, get the
/// ids 1, 2, 3 and so on, and the next voucher gets the id one past their
/// number.
pub proof fn lemma_ids_start_at_one(
    ledger: VoucherLedger,
    admin: Seq<char>,
    steps: Seq<VoucherStep>,
)
    requires
        ledger.enabled(VoucherStep::Initialize { admin }),
        ledger.apply(VoucherStep::Initialize { admin }).admits(steps),
    ensures
        forall|k: int| 0 <= k < minted_ids(steps).len() ==> #[trigger] minted_ids(steps)[k] == k + 1,
        ledger.apply(VoucherStep::Initialize { admin }).after(steps).next_id == Some(
            (minted_ids(steps).len() + 1) as u64,
        ),
        minted_ids(steps).len() + 1 <= u64::MAX,
{
    lemma_ids_count_up(ledger.apply(VoucherStep::Initialize { admin }), steps, 1);
}

/// One registry instance.
pub struct VoucherContract {
    admin: Option<Principal>,
    next_id: Option<u64>,
    vouchers: HashMap<u64, Voucher>,
}

impl View for VoucherContract {
    type V = VoucherLedger;

    closed spec fn view(&self) -> VoucherLedger {
        VoucherLedger {
            admin: key_of(self.admin),
            next_id: self.next_id,
            vouchers: Map::new(
                |id: u64| self.vouchers@.contains_key(id),
                |id: u64| self.vouchers@[id]@,
            ),
        }
    }
}

impl VoucherContract {
    #[verifier::type_invariant]
    spec fn inv(self) -> bool {
        forall|id: u64| #[trigger] self.vouchers@.contains_key(id) ==> self.vouchers@[id].id == id
    }

    /// A registry with no administrator, no counter and no vouchers.
    pub fn new() -> (registry: VoucherContract)
        ensures
            registry@ == (VoucherLedger { admin: None, next_id: None, vouchers: Map::empty() }),
    {
        let registry = VoucherContract { admin: None, next_id: None, vouchers: HashMap::new() };
        assert(registry@.vouchers =~= Map::empty());
        registry
    }

    /// A registry holding the given administrator and counter and at most
    /// one voucher, stored under its own id.
    pub fn restore(admin: Option<Principal>, next_id: Option<u64>, record: Option<Voucher>) -> (registry:
        VoucherContract)
        ensures
            registry@.admin == key_of(admin),
            registry@.next_id == next_id,
            registry@.vouchers == (match record {
                Some(v) => Map::<u64, VoucherView>::empty().insert(v.id, v@),
                None => Map::<u64, VoucherView>::empty(),
            }),
    {
        let mut vouchers: HashMap<u64, Voucher> = HashMap::new();
        if let Some(v) = record {
            vouchers.insert(v.id, v);
        }
        let registry = VoucherContract { admin, next_id, vouchers };
        assert(registry@.vouchers =~= (match record {
            Some(v) => Map::<u64, VoucherView>::empty().insert(v.id, v@),
            None => Map::<u64, VoucherView>::empty(),
        }));
        registry
    }

    /// Whether anything is stored under `key`.
    pub fn has(&self, key: &DataKey) -> (present: bool)
        ensures
            present == self@.has(*key),
    {
        match key {
            DataKey::Admin => self.admin.is_some(),
            DataKey::Voucher(id) => self.vouchers.contains_key(id),
            DataKey::NextId => self.next_id.is_some(),
        }
    }

    /// The administrator, once set.
    pub fn admin(&self) -> (admin: Option<&Principal>)
        ensures
            self@.wf(),
            match admin {
                Some(a) => self@.admin == Some(a@),
                None => self@.admin is None,
            },
    {
        proof {
            use_type_invariant(self);
        }
        self.admin.as_ref()
    }

    /// The id that the next voucher will get, once the counter is set.
    pub fn next_id(&self) -> (next: Option<u64>)
        ensures
            next == self@.next_id,
    {
        self.next_id
    }

    /// Makes `admin` the administrator of a registry that has none, and
    /// sets the id counter to 1.
    pub fn initialize(&mut self, admin: Principal) -> (done: Result<(), Error>)
        ensures
            done == old(self)@.initialize_outcome(),
            final(self)@ == (if done is Ok {
                old(self)@.apply(VoucherStep::Initialize { admin: admin@ })
            } else {
                old(self)@
            }),
            done is Ok ==> old(self)@.enabled(VoucherStep::Initialize { admin: admin@ }),
            final(self)@.wf(),
    {
        proof {
            use_type_invariant(&*self);
        }
        if self.admin.is_some() {
            return Err(Error::AlreadyInitialized);
        }
        self.admin = Some(admin);
        self.next_id = Some(1);
        Ok(())
    }

    fn check_owner(&self, call: &Invocation, voucher_id: u64, who: &Principal) -> (checked: Result<
        (),
        Error,
    >)
        ensures
            checked == self@.owner_check(call@, voucher_id, who@),
    {
        match call.require_auth(who) {
            Err(e) => Err(e),
            Ok(()) => match self.vouchers.get(&voucher_id) {
                None => Err(Error::NotFound),
                Some(v) => if !v.owner.same_as(who) {
                    Err(Error::Unauthorized)
                } else if v.is_active {
                    Err(Error::InvalidState)
                } else {
                    Ok(())
                },
            },
        }
    }

    fn check_transfer(&self, call: &Invocation, voucher_id: u64, from: &Principal) -> (checked:
        Result<(), Error>)
        ensures
            checked == self@.transfer_check(call@, voucher_id, from@),
    {
        match call.require_auth(from) {
            Err(e) => Err(e),
            Ok(()) => match self.vouchers.get(&voucher_id) {
                None => Err(Error::NotFound),
                Some(v) => if v.is_active {
                    Err(Error::InvalidState)
                } else if !v.owner.same_as(from) {
                    Err(Error::Unauthorized)
                } else {
                    Ok(())
                },
            },
        }
    }

    /// The id that a voucher issued by `admin` in `call` would get, or why
    /// the issue is refused. Nothing is changed.
    pub fn mint_check(&self, call: &Invocation, admin: &Principal) -> (granted: Result<u64, Error>)
        ensures
            granted == self@.mint_outcome(call@, admin@),
    {
        match call.require_admin(&self.admin, admin) {
            Err(e) => Err(e),
            Ok(()) => match self.next_id {
                None => Err(Error::NotInitialized),
                Some(id) => Ok(id),
            },
        }
    }

    /// Issues a voucher for `plan_id` to `owner`, good for `duration_hours`
    /// hours from the time of `call`, and returns its id.
    ///
    /// Where the voucher is granted, its expiry and the next id must fit in
    /// a `u64`; a call that is refused is bound by neither.
    pub fn mint_voucher(
        &mut self,
        call: &mut Invocation,
        admin: &Principal,
        owner: Principal,
        plan_id: String,
        code: String,
        duration_hours: u32,
    ) -> (minted: Result<u64, Error>)
        requires
            old(self)@.mint_outcome(old(call)@, admin@) is Ok ==> expiry_of(
                old(call)@.timestamp,
                duration_hours,
            ) <= u64::MAX,
            old(self)@.mint_outcome(old(call)@, admin@) is Ok ==> old(self)@.next_id != Some(
                u64::MAX,
            ),
        ensures
            minted == old(self)@.mint_outcome(old(call)@, admin@),
            match minted {
                Ok(id) => old(self)@.enabled(
                    VoucherStep::Mint {
                        voucher: VoucherView::issued(
                            id,
                            owner@,
                            plan_id@,
                            code@,
                            old(call)@.timestamp,
                            duration_hours,
                        ),
                    },
                ) && final(self)@ == old(self)@.apply(
                    VoucherStep::Mint {
                        voucher: VoucherView::issued(
                            id,
                            owner@,
                            plan_id@,
                            code@,
                            old(call)@.timestamp,
                            duration_hours,
                        ),
                    },
                ) && final(call)@ == old(call)@.emitting(
                    EventView::VoucherMinted {
                        voucher_id: id,
                        owner: owner@,
                        plan_id: plan_id@,
                        code: code@,
                    },
                ),
                Err(_) => final(self)@ == old(self)@ && final(call)@ == old(call)@,
            },
            final(self)@.wf(),
    {
        proof {
            use_type_invariant(&*self);
        }
        let id: u64 = match self.mint_check(call, admin) {
            Err(e) => {
                return Err(e);
            },
            Ok(id) => id,
        };
        let lifetime: u64 = (duration_hours as u64) * SECONDS_PER_HOUR;
        let voucher = Voucher {
            id,
            owner: owner.clone(),
            plan_id: plan_id.clone(),
            code: code.clone(),
            is_active: false,
            activated_at: None,
            expires_at: call.timestamp + lifetime,
            duration_hours,
        };
        let mut vouchers: HashMap<u64, Voucher> = HashMap::new();
        std::mem::swap(&mut vouchers, &mut self.vouchers);
        vouchers.insert(id, voucher);
        self.vouchers = vouchers;
        self.next_id = Some(id + 1);
        assert(self@.vouchers =~= old(self)@.minted(voucher@).vouchers);
        call.emit(Event::VoucherMinted { voucher_id: id, owner, plan_id, code });
        Ok(id)
    }

    /// Activates the voucher `voucher_id` for its owner, at the time of `call`.
    pub fn activate_voucher(&mut self, call: &mut Invocation, voucher_id: u64, owner: &Principal) -> (done:
        Result<(), Error>)
        ensures
            done == old(self)@.activation_check(old(call)@, voucher_id, owner@),
            done is Ok ==> old(self)@.enabled(
                VoucherStep::Activate { voucher_id, now: old(call)@.timestamp },
            ),
            done is Ok ==> final(self)@ == old(self)@.apply(
                VoucherStep::Activate { voucher_id, now: old(call)@.timestamp },
            ) && final(call)@ == old(call)@.emitting(
                EventView::VoucherActivated { voucher_id, owner: owner@ },
            ),
            done is Err ==> final(self)@ == old(self)@ && final(call)@ == old(call)@,
            final(self)@.wf(),
    {
        proof {
            use_type_invariant(&*self);
        }
        match self.check_owner(call, voucher_id, owner) {
            Err(e) => {
                return Err(e);
            },
            Ok(()) => {},
        }
        let now = call.timestamp;
        let mut vouchers: HashMap<u64, Voucher> = HashMap::new();
        std::mem::swap(&mut vouchers, &mut self.vouchers);
        let mut v = vouchers.remove(&voucher_id).unwrap();
        if now > v.expires_at {
            vouchers.insert(voucher_id, v);
            self.vouchers = vouchers;
            assert(self@.vouchers =~= old(self)@.vouchers);
            return Err(Error::Expired);
        }
        v.is_active = true;
        v.activated_at = Some(now);
        vouchers.insert(voucher_id, v);
        self.vouchers = vouchers;
        assert(self@.vouchers =~= old(self)@.activated(voucher_id, now).vouchers);
        call.emit(Event::VoucherActivated { voucher_id, owner: owner.clone() });
        Ok(())
    }

    /// Hands the voucher `voucher_id` from `from` to `to`. Only a voucher
    /// that is not active yet changes hands: an active one is refused with
    /// `InvalidState`, whoever asks.
    pub fn transfer(&mut self, call: &mut Invocation, voucher_id: u64, from: &Principal, to: Principal) -> (done:
        Result<(), Error>)
        ensures
            done == old(self)@.transfer_check(old(call)@, voucher_id, from@),
            done is Ok ==> old(self)@.enabled(VoucherStep::Transfer { voucher_id, to: to@ }),
            done is Ok ==> final(self)@ == old(self)@.apply(
                VoucherStep::Transfer { voucher_id, to: to@ },
            ) && final(call)@
                == old(call)@.emitting(
                EventView::VoucherTransferred { voucher_id, from: from@, to: to@ },
            ),
            done is Err ==> final(self)@ == old(self)@ && final(call)@ == old(call)@,
            final(self)@.wf(),
    {
        proof {
            use_type_invariant(&*self);
        }
        match self.check_transfer(call, voucher_id, from) {
            Err(e) => {
                return Err(e);
            },
            Ok(()) => {},
        }
        let mut vouchers: HashMap<u64, Voucher> = HashMap::new();
        std::mem::swap(&mut vouchers, &mut self.vouchers);
        let mut v = vouchers.remove(&voucher_id).unwrap();
        v.owner = to.clone();
        vouchers.insert(voucher_id, v);
        self.vouchers = vouchers;
        assert(self@.vouchers =~= old(self)@.transferred(voucher_id, to@).vouchers);
        call.emit(Event::VoucherTransferred { voucher_id, from: from.clone(), to });
        Ok(())
    }

    /// The voucher stored under `voucher_id`.
    pub fn get_voucher(&self, voucher_id: u64) -> (found: Result<&Voucher, Error>)
        ensures
            self@.wf(),
            match found {
                Ok(v) => self@.vouchers.contains_key(voucher_id) && v@ == self@.vouchers[voucher_id],
                Err(e) => !self@.vouchers.contains_key(voucher_id) && e == Error::NotFound,
            },
    {
        proof {
            use_type_invariant(self);
        }
        match self.vouchers.get(&voucher_id) {
            Some(v) => Ok(v),
            None => Err(Error::NotFound),
        }
    }

    /// Whether the voucher `voucher_id` is active and has not lapsed at the
    /// time of `call`. A voucher that does not exist is an error, not `false`.
    pub fn is_valid(&self, call: &Invocation, voucher_id: u64) -> (valid: Result<bool, Error>)
        ensures
            valid == (if self@.vouchers.contains_key(voucher_id) {
                Ok::<bool, Error>(self@.vouchers[voucher_id].valid_at(call@.timestamp))
            } else {
                Err::<bool, Error>(Error::NotFound)
            }),
    {
        match self.vouchers.get(&voucher_id) {
            None => Err(Error::NotFound),
            Some(v) => Ok(v.is_active && call.timestamp <= v.expires_at),
        }
    }
}

} // verus!
