use crate::address::{Address, Auth};
use crate::balance::LedgerError;
use crate::store::Table;
use vstd::arithmetic::div_mod::{
    lemma_div_is_ordered, lemma_fundamental_div_mod, lemma_hoist_over_denominator,
};
use vstd::arithmetic::mul::{lemma_mul_inequality, lemma_mul_is_commutative};
use vstd::prelude::*;

verus! {

/// Why a vesting operation was refused.
#[derive(Clone, Copy, Debug, PartialEq, Eq, Structural)]
pub enum VestingError {
    /// The beneficiary already has a schedule.
    VestingScheduleAlreadyExists,
    /// The beneficiary has no schedule.
    VestingScheduleDoesNotExist,
    /// Nothing has vested since the last claim.
    InsufficientVestedTokens,
    /// The amount, the duration or the step count does not describe a schedule.
    InvalidVestingParameters,
    /// The custody balance cannot cover the release.
    InsufficientBalance,
    /// A balance would leave the range of amounts.
    Overflow,
}

impl VestingError {
    /// The numeric code under which the failure is reported.
    pub fn code(&self) -> (c: u32)
        ensures
            c == match *self {
                VestingError::VestingScheduleAlreadyExists => 1u32,
                VestingError::VestingScheduleDoesNotExist => 2u32,
                VestingError::InsufficientVestedTokens => 3u32,
                VestingError::InvalidVestingParameters => 4u32,
                VestingError::InsufficientBalance => 5u32,
                VestingError::Overflow => 6u32,
            },
    {
        match self {
            VestingError::VestingScheduleAlreadyExists => 1,
            VestingError::VestingScheduleDoesNotExist => 2,
            VestingError::InsufficientVestedTokens => 3,
            VestingError::InvalidVestingParameters => 4,
            VestingError::InsufficientBalance => 5,
            VestingError::Overflow => 6,
        }
    }

    /// The refusal that a refusal of the ledger store is reported as.
    pub fn from_ledger(e: LedgerError) -> (r: VestingError)
        ensures
            r == ledger_refusal(e),
    {
        match e {
            LedgerError::InsufficientBalance => VestingError::InsufficientBalance,
            LedgerError::Overflow => VestingError::Overflow,
        }
    }
}

/// The refusal that a refusal of the ledger store is reported as.
pub open spec fn ledger_refusal(e: LedgerError) -> VestingError {
    match e {
        LedgerError::InsufficientBalance => VestingError::InsufficientBalance,
        LedgerError::Overflow => VestingError::Overflow,
    }
}

/// The shape of a release curve.
#[derive(Clone, Copy, Debug, PartialEq, Eq, Structural)]
pub enum VestingType {
    /// Released in proportion to the time elapsed.
    Linear,
    /// Nothing until the cliff, then everything at once.
    Cliff,
    /// Released in equal parts, one for each completed step.
    Stepped,
}

/// A beneficiary's release schedule.
#[derive(Clone, Copy, Debug, PartialEq, Eq)]
pub struct VestingSchedule {
    pub beneficiary: Address,
    pub total_amount: i128,
    pub start_ledger: u32,
    pub duration_ledgers: u32,
    pub vesting_type: VestingType,
    pub claimed_amount: i128,
    pub steps: u32,
    pub cliff_ledger: u32,
}

impl VestingSchedule {
    /// What holds of every schedule on record: a positive amount over a
    /// positive duration, of which no more than everything has been claimed.
    pub open spec fn is_valid(&self) -> bool {
        &&& self.total_amount > 0
        &&& self.duration_ledgers > 0
        &&& 0 <= self.claimed_amount <= self.total_amount
    }

    /// The first tick at which everything has vested.
    pub open spec fn end_ledger(&self) -> int {
        self.start_ledger + self.duration_ledgers
    }

    /// Whether `now` lies in the window in which the curve decides.
    pub open spec fn in_window(&self, now: u32) -> bool {
        self.start_ledger <= now && now < self.end_ledger()
    }

    /// The width of one step of a stepped curve.
    pub open spec fn step_width(&self) -> int {
        self.duration_ledgers as int / self.steps as int
    }

    /// Whether the curve has no value at `now`: a stepped curve, inside its
    /// window, with no steps or with steps of no width.
    pub open spec fn curve_undefined(&self, now: u32) -> bool {
        &&& self.in_window(now)
        &&& self.vesting_type == VestingType::Stepped
        &&& (self.steps == 0 || self.step_width() == 0)
    }

    /// The number of steps of a stepped curve that are complete at `now`.
    pub open spec fn completed_steps(&self, now: u32) -> int {
        (now - self.start_ledger) / self.step_width()
    }

    /// The amount that has vested at `now`.
    pub open spec fn vested_at(&self, now: u32) -> int {
        if now < self.start_ledger {
            0
        } else if now >= self.end_ledger() {
            self.total_amount as int
        } else {
            match self.vesting_type {
                VestingType::Linear => proportion(
                    self.total_amount as int,
                    now - self.start_ledger,
                    self.duration_ledgers as int,
                ),
                VestingType::Cliff => if now >= self.cliff_ledger {
                    self.total_amount as int
                } else {
                    0
                },
                VestingType::Stepped => if self.completed_steps(now) >= self.steps {
                    self.total_amount as int
                } else {
                    proportion(
                        self.total_amount as int,
                        self.completed_steps(now),
                        self.steps as int,
                    )
                },
            }
        }
    }

    /// The amount that a claim at `now` releases: what has vested and has not
    /// been claimed before.
    pub open spec fn claimable_at(&self, now: u32) -> int {
        self.vested_at(now) - self.claimed_amount
    }

    /// Whether the curve has a value at every tick: any linear or cliff
    /// curve, and a stepped curve whose steps have a width.
    pub open spec fn curve_defined(&self) -> bool {
        self.vesting_type == VestingType::Stepped ==> self.steps > 0 && self.step_width() > 0
    }

    /// What a claim at `now` returns.
    pub open spec fn claim_outcome(&self, now: u32) -> Result<i128, VestingError> {
        if self.curve_undefined(now) {
            Err(VestingError::InvalidVestingParameters)
        } else if self.claimable_at(now) <= 0 {
            Err(VestingError::InsufficientVestedTokens)
        } else {
            Ok(self.claimable_at(now) as i128)
        }
    }

    /// The schedule as a claim at `now` leaves it: after a release everything
    /// vested counts as claimed, after a refusal nothing has changed.
    pub open spec fn after_claim(&self, now: u32) -> VestingSchedule {
        if self.claim_outcome(now) is Ok {
            VestingSchedule { claimed_amount: self.vested_at(now) as i128, ..*self }
        } else {
            *self
        }
    }
}

/// The amount that a claim at `now` pays out: nothing where it is refused.
pub open spec fn paid_by_claim(schedule: VestingSchedule, now: u32) -> int {
    match schedule.claim_outcome(now) {
        Ok(paid) => paid as int,
        Err(_) => 0,
    }
}

/// The sum of what successive claims pay out, one at each of `ticks`.
pub open spec fn paid_by_claims(schedule: VestingSchedule, ticks: Seq<u32>) -> int
    decreases ticks.len(),
{
    if ticks.len() == 0 {
        0
    } else {
        paid_by_claim(schedule, ticks[0]) + paid_by_claims(
            schedule.after_claim(ticks[0]),
            ticks.drop_first(),
        )
    }
}

/// The schedule as successive claims leave it, one at each of `ticks`.
pub open spec fn after_claims(schedule: VestingSchedule, ticks: Seq<u32>) -> VestingSchedule
    decreases ticks.len(),
{
    if ticks.len() == 0 {
        schedule
    } else {
        after_claims(schedule.after_claim(ticks[0]), ticks.drop_first())
    }
}

/// `amount * part / whole`, rounded down.
pub open spec fn proportion(amount: int, part: int, whole: int) -> int {
    amount * part / whole
}

/// The share `part / whole` of `amount`, rounded down, computed without
/// leaving the range of amounts.
pub fn share_of(amount: i128, part: u32, whole: u32) -> (r: i128)
    requires
        amount >= 0,
        part <= whole,
        whole > 0,
    ensures
        r == proportion(amount as int, part as int, whole as int),
        0 <= r <= amount,
{
    let w: i128 = whole as i128;
    let p: i128 = part as i128;
    let q: i128 = amount / w;
    let rest: i128 = amount % w;
    proof {
        let a = amount as int;
        let wi = whole as int;
        let pi = part as int;
        let qi = a / wi;
        let ri = a % wi;
        lemma_fundamental_div_mod(a, wi);
        assert(0 <= ri < wi);
        assert(0 <= qi) by (nonlinear_arith)
            requires
                a >= 0,
                wi > 0,
                qi == a / wi,
        ;
        assert(qi * pi <= qi * wi) by (nonlinear_arith)
            requires
                0 <= qi,
                0 <= pi <= wi,
        ;
        assert(0 <= qi * pi) by (nonlinear_arith)
            requires
                0 <= qi,
                0 <= pi,
        ;
        assert(0 <= ri * pi <= wi * wi) by (nonlinear_arith)
            requires
                0 <= ri < wi,
                0 <= pi <= wi,
        ;
        assert(wi * wi <= 0x1_0000_0000 * 0x1_0000_0000) by (nonlinear_arith)
            requires
                0 < wi <= 0xffff_ffff,
        ;
        assert(a * pi == ri * pi + (qi * pi) * wi) by (nonlinear_arith)
            requires
                a == wi * qi + ri,
        ;
        lemma_hoist_over_denominator(ri * pi, qi * pi, wi as nat);
        assert((ri * pi) / wi <= ri) by (nonlinear_arith)
            requires
                0 <= ri,
                0 <= pi <= wi,
                wi > 0,
        ;
        assert(0 <= (ri * pi) / wi) by (nonlinear_arith)
            requires
                0 <= ri * pi,
                wi > 0,
        ;
        assert(qi * pi + ri <= a) by (nonlinear_arith)
            requires
                a == wi * qi + ri,
                qi * pi <= qi * wi,
        ;
    }
    q * p + (rest * p) / w
}

/// Whether every schedule on record is valid and stands under its own
/// beneficiary.
pub open spec fn schedules_valid(schedules: Map<Address, VestingSchedule>) -> bool {
    forall|who: Address| #[trigger]
        schedules.contains_key(who) ==> schedules[who].is_valid() && schedules[who].beneficiary
            == who
}

/// What creating a schedule for `beneficiary` returns.
pub open spec fn create_outcome(
    schedules: Map<Address, VestingSchedule>,
    beneficiary: Address,
    total_amount: i128,
    duration_ledgers: u32,
) -> Result<(), VestingError> {
    if total_amount <= 0 || duration_ledgers == 0 {
        Err(VestingError::InvalidVestingParameters)
    } else if schedules.contains_key(beneficiary) {
        Err(VestingError::VestingScheduleAlreadyExists)
    } else {
        Ok(())
    }
}

/// What asking for the vested amount of `beneficiary` at `now` returns.
pub open spec fn vested_outcome(
    schedules: Map<Address, VestingSchedule>,
    beneficiary: Address,
    now: u32,
) -> Result<i128, VestingError> {
    if !schedules.contains_key(beneficiary) {
        Err(VestingError::VestingScheduleDoesNotExist)
    } else if schedules[beneficiary].curve_undefined(now) {
        Err(VestingError::InvalidVestingParameters)
    } else {
        Ok(schedules[beneficiary].vested_at(now) as i128)
    }
}

/// What a claim by `beneficiary` at `now` returns.
pub open spec fn claim_outcome(
    schedules: Map<Address, VestingSchedule>,
    beneficiary: Address,
    now: u32,
) -> Result<i128, VestingError> {
    if !schedules.contains_key(beneficiary) {
        Err(VestingError::VestingScheduleDoesNotExist)
    } else {
        schedules[beneficiary].claim_outcome(now)
    }
}

/// The schedules as a claim by `beneficiary` at `now` leaves them.
pub open spec fn after_claim(
    schedules: Map<Address, VestingSchedule>,
    beneficiary: Address,
    now: u32,
) -> Map<Address, VestingSchedule> {
    if claim_outcome(schedules, beneficiary, now) is Ok {
        schedules.insert(beneficiary, schedules[beneficiary].after_claim(now))
    } else {
        schedules
    }
}

/// The release schedules, at most one for each beneficiary.
pub struct VestingBook {
    schedules: Table<Address, VestingSchedule>,
}

impl View for VestingBook {
    type V = Map<Address, VestingSchedule>;

    closed spec fn view(&self) -> Map<Address, VestingSchedule> {
        self.schedules@
    }
}

impl VestingBook {
    /// Every schedule on record is valid.
    pub closed spec fn wf(&self) -> bool {
        self.schedules.wf() && schedules_valid(self.schedules@)
    }

    /// In a well-formed book every schedule is valid.
    pub proof fn lemma_schedules_valid(&self)
        requires
            self.wf(),
        ensures
            schedules_valid(self@),
    {
    }

    /// A book without schedules.
    pub fn new() -> (book: VestingBook)
        ensures
            book.wf(),
            book@ == Map::<Address, VestingSchedule>::empty(),
    {
        VestingBook { schedules: Table::new() }
    }

    /// Puts a persisted schedule back on record under its beneficiary, as it
    /// stands. Refused where the schedule is not valid, and where the
    /// beneficiary already has a schedule on record.
    pub fn restore(&mut self, schedule: VestingSchedule) -> (r: Result<(), VestingError>)
        requires
            old(self).wf(),
        ensures
            final(self).wf(),
            r == if !schedule.is_valid() {
                Err::<(), VestingError>(VestingError::InvalidVestingParameters)
            } else if old(self)@.contains_key(schedule.beneficiary) {
                Err::<(), VestingError>(VestingError::VestingScheduleAlreadyExists)
            } else {
                Ok::<(), VestingError>(())
            },
            r is Ok ==> final(self)@ == old(self)@.insert(schedule.beneficiary, schedule),
            r is Err ==> final(self)@ == old(self)@,
    {
        if schedule.total_amount <= 0 || schedule.duration_ledgers == 0 || schedule.claimed_amount
            < 0 || schedule.claimed_amount > schedule.total_amount {
            return Err(VestingError::InvalidVestingParameters);
        }
        if self.schedules.has(&schedule.beneficiary) {
            return Err(VestingError::VestingScheduleAlreadyExists);
        }
        self.schedules.set(schedule.beneficiary, schedule);
        Ok(())
    }
}

/// Puts a new schedule for `beneficiary` on record, with nothing claimed.
/// Refused where the amount is not positive or the duration is zero, and
/// where the beneficiary already has a schedule.
pub fn create_vesting_schedule(
    book: &mut VestingBook,
    beneficiary: Address,
    total_amount: i128,
    start_ledger: u32,
    duration_ledgers: u32,
    vesting_type: VestingType,
    steps: u32,
    cliff_ledger: u32,
) -> (r: Result<(), VestingError>)
    requires
        old(book).wf(),
    ensures
        final(book).wf(),
        r == create_outcome(old(book)@, beneficiary, total_amount, duration_ledgers),
        r is Err ==> final(book)@ == old(book)@,
        r is Ok ==> final(book)@ == old(book)@.insert(
            beneficiary,
            VestingSchedule {
                beneficiary,
                total_amount,
                start_ledger,
                duration_ledgers,
                vesting_type,
                claimed_amount: 0,
                steps,
                cliff_ledger,
            },
        ),
{
    if total_amount <= 0 || duration_ledgers == 0 {
        return Err(VestingError::InvalidVestingParameters);
    }
    if book.schedules.has(&beneficiary) {
        return Err(VestingError::VestingScheduleAlreadyExists);
    }
    let schedule = VestingSchedule {
        beneficiary,
        total_amount,
        start_ledger,
        duration_ledgers,
        vesting_type,
        claimed_amount: 0,
        steps,
        cliff_ledger,
    };
    book.schedules.set(beneficiary, schedule);
    Ok(())
}

/// The amount of the schedule of `beneficiary` that has vested at `now`.
pub fn calculate_vested_amount(book: &VestingBook, beneficiary: &Address, now: u32) -> (r: Result<
    i128,
    VestingError,
>)
    requires
        book.wf(),
    ensures
        r == vested_outcome(book@, *beneficiary, now),
        r matches Ok(vested) ==> 0 <= vested == book@[*beneficiary].vested_at(now)
            <= book@[*beneficiary].total_amount,
{
    match book.schedules.get(beneficiary) {
        None => Err(VestingError::VestingScheduleDoesNotExist),
        Some(schedule) => vested_amount(&schedule, now),
    }
}

/// What a claim by `beneficiary` at `now` would release, without releasing
/// anything.
pub fn claimable_amount(book: &VestingBook, beneficiary: &Address, now: u32) -> (r: Result<
    i128,
    VestingError,
>)
    requires
        book.wf(),
    ensures
        r == claim_outcome(book@, *beneficiary, now),
        r matches Ok(paid) ==> {
            &&& paid > 0
            &&& paid == book@[*beneficiary].claimable_at(now)
            &&& book@[*beneficiary].vested_at(now) <= book@[*beneficiary].total_amount
        },
{
    let schedule = match book.schedules.get(beneficiary) {
        None => {
            return Err(VestingError::VestingScheduleDoesNotExist);
        },
        Some(schedule) => schedule,
    };
    let vested = match vested_amount(&schedule, now) {
        Err(e) => {
            return Err(e);
        },
        Ok(vested) => vested,
    };
    let claimable = vested - schedule.claimed_amount;
    if claimable <= 0 {
        return Err(VestingError::InsufficientVestedTokens);
    }
    Ok(claimable)
}

/// Releases to `beneficiary` what has vested at `now` and was not claimed
/// before, and counts it as claimed. Returns the amount released: exactly the
/// vested amount less what was claimed before.
pub fn claim_vested_tokens(book: &mut VestingBook, auth: &Auth, beneficiary: Address, now: u32) -> (r:
    Result<i128, VestingError>)
    requires
        old(book).wf(),
        auth.covers(beneficiary),
    ensures
        final(book).wf(),
        r == claim_outcome(old(book)@, beneficiary, now),
        final(book)@ == after_claim(old(book)@, beneficiary, now),
        r is Err ==> final(book)@ == old(book)@,
        r matches Ok(paid) ==> paid > 0 && paid == old(book)@[beneficiary].vested_at(now) - old(
            book,
        )@[beneficiary].claimed_amount,
{
    let claimable = match claimable_amount(book, &beneficiary, now) {
        Err(e) => {
            return Err(e);
        },
        Ok(claimable) => claimable,
    };
    let schedule = match book.schedules.get(&beneficiary) {
        None => {
            return Err(VestingError::VestingScheduleDoesNotExist);
        },
        Some(schedule) => schedule,
    };
    book.schedules.set(
        beneficiary,
        VestingSchedule { claimed_amount: schedule.claimed_amount + claimable, ..schedule },
    );
    Ok(claimable)
}

/// The schedule of `beneficiary`, as it stands.
pub fn get_vesting_schedule(book: &VestingBook, beneficiary: &Address) -> (r: Result<
    VestingSchedule,
    VestingError,
>)
    requires
        book.wf(),
    ensures
        r == if book@.contains_key(*beneficiary) {
            Ok::<VestingSchedule, VestingError>(book@[*beneficiary])
        } else {
            Err::<VestingSchedule, VestingError>(VestingError::VestingScheduleDoesNotExist)
        },
        r matches Ok(schedule) ==> schedule.is_valid(),
{
    match book.schedules.get(beneficiary) {
        None => Err(VestingError::VestingScheduleDoesNotExist),
        Some(schedule) => Ok(schedule),
    }
}

/// The amount of `schedule` that has vested at `now`.
pub fn vested_amount(schedule: &VestingSchedule, now: u32) -> (r: Result<i128, VestingError>)
    requires
        schedule.is_valid(),
    ensures
        match r {
            Ok(vested) => {
                &&& !schedule.curve_undefined(now)
                &&& vested == schedule.vested_at(now)
                &&& 0 <= vested <= schedule.total_amount
            },
            Err(e) => schedule.curve_undefined(now) && e == VestingError::InvalidVestingParameters,
        },
{
    if now < schedule.start_ledger {
        return Ok(0);
    }
    let end: u64 = schedule.start_ledger as u64 + schedule.duration_ledgers as u64;
    if now as u64 >= end {
        return Ok(schedule.total_amount);
    }
    let elapsed: u32 = now - schedule.start_ledger;
    match schedule.vesting_type {
        VestingType::Linear => Ok(
            share_of(schedule.total_amount, elapsed, schedule.duration_ledgers),
        ),
        VestingType::Cliff => {
            if now >= schedule.cliff_ledger {
                Ok(schedule.total_amount)
            } else {
                Ok(0)
            }
        },
        VestingType::Stepped => {
            if schedule.steps == 0 {
                return Err(VestingError::InvalidVestingParameters);
            }
            let step_size: u32 = schedule.duration_ledgers / schedule.steps;
            if step_size == 0 {
                return Err(VestingError::InvalidVestingParameters);
            }
            let completed_steps: u32 = elapsed / step_size;
            if completed_steps >= schedule.steps {
                Ok(schedule.total_amount)
            } else {
                proof {
                    lemma_share_bounds(
                        schedule.total_amount as int,
                        completed_steps as int,
                        schedule.steps as int,
                    );
                }
                Ok(share_of(schedule.total_amount, completed_steps, schedule.steps))
            }
        },
    }
}

/// Wherever the curve has a value, it lies between nothing and the total.
pub proof fn lemma_vested_bounds(schedule: VestingSchedule, now: u32)
    requires
        schedule.is_valid(),
        !schedule.curve_undefined(now),
    ensures
        0 <= schedule.vested_at(now) <= schedule.total_amount,
{
    if schedule.in_window(now) {
        match schedule.vesting_type {
            VestingType::Linear => {
                lemma_share_bounds(
                    schedule.total_amount as int,
                    now - schedule.start_ledger,
                    schedule.duration_ledgers as int,
                );
            },
            VestingType::Cliff => {},
            VestingType::Stepped => {
                lemma_completed_steps(schedule, now);
                if schedule.completed_steps(now) < schedule.steps {
                    lemma_share_bounds(
                        schedule.total_amount as int,
                        schedule.completed_steps(now),
                        schedule.steps as int,
                    );
                }
            },
        }
    }
}

/// No step is complete before the start, and no fewer are complete later.
proof fn lemma_completed_steps(schedule: VestingSchedule, now: u32)
    requires
        schedule.start_ledger <= now,
        schedule.steps > 0,
        schedule.step_width() > 0,
    ensures
        0 <= schedule.completed_steps(now),
        forall|later: u32|
            now <= later ==> schedule.completed_steps(now) <= #[trigger] schedule.completed_steps(
                later,
            ),
{
    let width = schedule.step_width();
    lemma_div_is_ordered(0, now - schedule.start_ledger, width);
    assert(0int / width == 0) by (nonlinear_arith)
        requires
            width > 0,
    ;
    assert forall|later: u32| now <= later implies schedule.completed_steps(now)
        <= #[trigger] schedule.completed_steps(later) by {
        lemma_div_is_ordered(now - schedule.start_ledger, later - schedule.start_ledger, width);
    }
}

/// The vested amount never decreases as time passes.
pub proof fn lemma_vested_monotonic(schedule: VestingSchedule, earlier: u32, later: u32)
    requires
        schedule.is_valid(),
        schedule.curve_defined(),
        earlier <= later,
    ensures
        schedule.vested_at(earlier) <= schedule.vested_at(later),
{
    lemma_vested_bounds(schedule, earlier);
    lemma_vested_bounds(schedule, later);
    if schedule.in_window(earlier) && schedule.in_window(later) {
        match schedule.vesting_type {
            VestingType::Linear => {
                lemma_share_ordered(
                    schedule.total_amount as int,
                    earlier - schedule.start_ledger,
                    later - schedule.start_ledger,
                    schedule.duration_ledgers as int,
                );
            },
            VestingType::Cliff => {},
            VestingType::Stepped => {
                lemma_completed_steps(schedule, earlier);
                if schedule.completed_steps(later) < schedule.steps {
                    lemma_share_ordered(
                        schedule.total_amount as int,
                        schedule.completed_steps(earlier),
                        schedule.completed_steps(later),
                        schedule.steps as int,
                    );
                }
            },
        }
    }
}

/// Nothing has vested when the schedule starts, unless its cliff has already
/// passed by then.
pub proof fn lemma_vested_at_start(schedule: VestingSchedule)
    requires
        schedule.is_valid(),
        schedule.curve_defined(),
        schedule.vesting_type == VestingType::Cliff ==> schedule.cliff_ledger
            > schedule.start_ledger,
    ensures
        schedule.vested_at(schedule.start_ledger) == 0,
{
    let now = schedule.start_ledger;
    assert(schedule.in_window(now));
    match schedule.vesting_type {
        VestingType::Linear => {
            assert(proportion(
                schedule.total_amount as int,
                0,
                schedule.duration_ledgers as int,
            ) == 0) by (nonlinear_arith)
                requires
                    schedule.duration_ledgers > 0,
            ;
        },
        VestingType::Cliff => {},
        VestingType::Stepped => {
            lemma_completed_steps(schedule, now);
            let width = schedule.step_width();
            assert(0int / width == 0) by (nonlinear_arith)
                requires
                    width > 0,
            ;
            assert(proportion(schedule.total_amount as int, 0, schedule.steps as int) == 0)
                by (nonlinear_arith)
                requires
                    schedule.steps > 0,
            ;
        },
    }
}

/// Everything has vested once the duration has passed.
pub proof fn lemma_vested_at_end(schedule: VestingSchedule, now: u32)
    requires
        now >= schedule.start_ledger + schedule.duration_ledgers,
    ensures
        schedule.vested_at(now) == schedule.total_amount,
{
}

/// A claim that releases something pays exactly what has vested and was not
/// claimed before, and leaves a valid schedule on which everything vested
/// counts as claimed.
pub proof fn lemma_claim_exact(schedule: VestingSchedule, now: u32)
    requires
        schedule.is_valid(),
    ensures
        schedule.after_claim(now).is_valid(),
        schedule.after_claim(now).claimed_amount == schedule.claimed_amount + paid_by_claim(
            schedule,
            now,
        ),
        schedule.claim_outcome(now) matches Ok(paid) ==> paid == schedule.vested_at(now)
            - schedule.claimed_amount && paid > 0,
{
    if !schedule.curve_undefined(now) {
        lemma_vested_bounds(schedule, now);
    }
}

/// Whatever the ticks at which claims are made, what they pay in sum is what
/// the claimed amount grows by, and the claimed amount never passes the total.
pub proof fn lemma_claims_conserve(schedule: VestingSchedule, ticks: Seq<u32>)
    requires
        schedule.is_valid(),
    ensures
        after_claims(schedule, ticks).is_valid(),
        schedule.claimed_amount + paid_by_claims(schedule, ticks) == after_claims(
            schedule,
            ticks,
        ).claimed_amount,
        schedule.claimed_amount + paid_by_claims(schedule, ticks) <= schedule.total_amount,
        after_claims(schedule, ticks).total_amount == schedule.total_amount,
    decreases ticks.len(),
{
    if ticks.len() > 0 {
        lemma_claim_exact(schedule, ticks[0]);
        lemma_claims_conserve(schedule.after_claim(ticks[0]), ticks.drop_first());
    }
}

/// A share of a non-negative amount lies between nothing and the amount.
pub proof fn lemma_share_bounds(amount: int, part: int, whole: int)
    requires
        amount >= 0,
        0 <= part <= whole,
        whole > 0,
    ensures
        0 <= proportion(amount, part, whole) <= amount,
{
    lemma_share_ordered(amount, 0, part, whole);
    lemma_share_ordered(amount, part, whole, whole);
    assert(amount * 0 / whole == 0) by (nonlinear_arith)
        requires
            whole > 0,
    ;
    assert(amount * whole / whole == amount) by (nonlinear_arith)
        requires
            whole > 0,
    ;
}

/// A larger part of the same whole gives no smaller share.
pub proof fn lemma_share_ordered(amount: int, part: int, more: int, whole: int)
    requires
        amount >= 0,
        part <= more,
        whole > 0,
    ensures
        proportion(amount, part, whole) <= proportion(amount, more, whole),
{
    lemma_mul_inequality(part, more, amount);
    lemma_mul_is_commutative(part, amount);
    lemma_mul_is_commutative(more, amount);
    lemma_div_is_ordered(amount * part, amount * more, whole);
}

} // verus!
