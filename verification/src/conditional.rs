use crate::address::{Address, Auth};
use crate::admin::AccessControl;
use crate::balance::{after_move, move_outcome, Balances, LedgerError};
use crate::store::Table;
use vstd::prelude::*;

verus! {

/// Why a conditional transfer was refused.
#[derive(Clone, Copy, Debug, PartialEq, Eq, Structural)]
pub enum ConditionalError {
    /// No transfer is on record under the id.
    InvalidCondition,
    /// The release tick has not come, or the expected approver has not approved.
    ConditionNotMet,
    /// The transfer has been executed before.
    TransferAlreadyExecuted,
    /// The amount is not positive.
    InvalidTransferAmount,
    /// The transfer has passed its expiration.
    TransferExpired,
    /// The sender holds less than the amount.
    InsufficientBalance,
    /// The receiving balance would leave the range of amounts.
    Overflow,
    /// The sender is frozen.
    AccountFrozen,
    /// A transfer is already on record under the id of the current tick.
    TransferIdTaken,
}

impl ConditionalError {
    /// The numeric code under which the failure is reported.
    pub fn code(&self) -> (c: u32)
        ensures
            c == match *self {
                ConditionalError::InvalidCondition => 1u32,
                ConditionalError::ConditionNotMet => 2u32,
                ConditionalError::TransferAlreadyExecuted => 3u32,
                ConditionalError::InvalidTransferAmount => 4u32,
                ConditionalError::TransferExpired => 5u32,
                ConditionalError::InsufficientBalance => 6u32,
                ConditionalError::Overflow => 7u32,
                ConditionalError::AccountFrozen => 8u32,
                ConditionalError::TransferIdTaken => 9u32,
            },
    {
        match self {
            ConditionalError::InvalidCondition => 1,
            ConditionalError::ConditionNotMet => 2,
            ConditionalError::TransferAlreadyExecuted => 3,
            ConditionalError::InvalidTransferAmount => 4,
            ConditionalError::TransferExpired => 5,
            ConditionalError::InsufficientBalance => 6,
            ConditionalError::Overflow => 7,
            ConditionalError::AccountFrozen => 8,
            ConditionalError::TransferIdTaken => 9,
        }
    }

    /// The refusal that a refusal of the ledger is reported as.
    pub fn from_ledger(e: LedgerError) -> (r: ConditionalError)
        ensures
            r == ledger_refusal(e),
    {
        match e {
            LedgerError::InsufficientBalance => ConditionalError::InsufficientBalance,
            LedgerError::Overflow => ConditionalError::Overflow,
        }
    }
}

/// The refusal that a refusal of the ledger is reported as.
pub open spec fn ledger_refusal(e: LedgerError) -> ConditionalError {
    match e {
        LedgerError::InsufficientBalance => ConditionalError::InsufficientBalance,
        LedgerError::Overflow => ConditionalError::Overflow,
    }
}

/// What a pending transfer waits for.
#[derive(Clone, Copy, Debug, PartialEq, Eq)]
pub enum ConditionType {
    /// Released once the given tick has come.
    TimeBasedRelease(u32),
    /// Released once the given principal approves.
    ApprovalRequired(Address),
}

/// A transfer that is carried out once, when its condition holds.
#[derive(Clone, Copy, Debug, PartialEq, Eq)]
pub struct ConditionalTransfer {
    pub from: Address,
    pub to: Address,
    pub amount: i128,
    pub condition: ConditionType,
    pub executed: bool,
    /// The last tick at which the transfer can be executed; 0 for no limit.
    pub expiration_ledger: u32,
}

impl ConditionalTransfer {
    /// Whether the transfer can no longer be executed at `now`.
    pub open spec fn is_expired(&self, now: u32) -> bool {
        self.expiration_ledger > 0 && now > self.expiration_ledger
    }

    /// Whether the condition holds at `now`, given who approves.
    pub open spec fn condition_met(&self, approver: Option<Address>, now: u32) -> bool {
        match self.condition {
            ConditionType::TimeBasedRelease(release_ledger) => now >= release_ledger,
            ConditionType::ApprovalRequired(expected) => approver == Some(expected),
        }
    }

    /// Whether executing at `now` comes to rest on the approval of `approver`:
    /// the transfer is pending, has not expired and waits for just that
    /// principal.
    pub open spec fn awaits(&self, approver: Option<Address>, now: u32) -> bool {
        &&& !self.executed
        &&& !self.is_expired(now)
        &&& self.condition is ApprovalRequired
        &&& self.condition_met(approver, now)
    }
}

/// Whether every transfer on record moves a positive amount.
pub open spec fn transfers_valid(transfers: Map<u32, ConditionalTransfer>) -> bool {
    forall|id: u32| #[trigger] transfers.contains_key(id) ==> transfers[id].amount > 0
}

/// Whether the engine lets the transfer under `id` go ahead at `now`, before
/// the ledger is asked to move the funds.
pub open spec fn release_outcome(
    transfers: Map<u32, ConditionalTransfer>,
    id: u32,
    approver: Option<Address>,
    now: u32,
) -> Result<(), ConditionalError> {
    if !transfers.contains_key(id) {
        Err(ConditionalError::InvalidCondition)
    } else if transfers[id].executed {
        Err(ConditionalError::TransferAlreadyExecuted)
    } else if transfers[id].is_expired(now) {
        Err(ConditionalError::TransferExpired)
    } else if !transfers[id].condition_met(approver, now) {
        Err(ConditionalError::ConditionNotMet)
    } else {
        Ok(())
    }
}

/// Whether `id` is the id that a creation at `now` takes: the least id from
/// the current tick on under which no transfer is on record.
pub open spec fn is_next_id(transfers: Map<u32, ConditionalTransfer>, now: u32, id: u32) -> bool {
    &&& now <= id
    &&& !transfers.contains_key(id)
    &&& forall|j: u32| now <= j < id ==> #[trigger] transfers.contains_key(j)
}

/// Whether a creation at `now` finds an id: some id from the current tick on
/// is free.
pub open spec fn has_next_id(transfers: Map<u32, ConditionalTransfer>, now: u32) -> bool {
    exists|id: u32| is_next_id(transfers, now, id)
}

/// What executing the transfer under `id` at `now` returns. Once the engine
/// lets the transfer go ahead, a frozen sender is refused, and then the
/// ledger is asked to move the funds.
pub open spec fn execute_outcome(
    transfers: Map<u32, ConditionalTransfer>,
    balances: Map<Address, i128>,
    frozen: Set<Address>,
    id: u32,
    approver: Option<Address>,
    now: u32,
) -> Result<(), ConditionalError> {
    match release_outcome(transfers, id, approver, now) {
        Err(e) => Err(e),
        Ok(_) => if frozen.contains(transfers[id].from) {
            Err(ConditionalError::AccountFrozen)
        } else {
            match move_outcome(
                balances,
                transfers[id].from,
                transfers[id].to,
                transfers[id].amount,
            ) {
                Err(e) => Err(ledger_refusal(e)),
                Ok(_) => Ok(()),
            }
        },
    }
}

/// The transfers as executing the one under `id` at `now` leaves them.
pub open spec fn transfers_after_execute(
    transfers: Map<u32, ConditionalTransfer>,
    balances: Map<Address, i128>,
    frozen: Set<Address>,
    id: u32,
    approver: Option<Address>,
    now: u32,
) -> Map<u32, ConditionalTransfer> {
    if execute_outcome(transfers, balances, frozen, id, approver, now) is Ok {
        transfers.insert(id, ConditionalTransfer { executed: true, ..transfers[id] })
    } else {
        transfers
    }
}

/// The balances as executing the transfer under `id` at `now` leaves them.
pub open spec fn balances_after_execute(
    transfers: Map<u32, ConditionalTransfer>,
    balances: Map<Address, i128>,
    frozen: Set<Address>,
    id: u32,
    approver: Option<Address>,
    now: u32,
) -> Map<Address, i128> {
    if execute_outcome(transfers, balances, frozen, id, approver, now) is Ok {
        after_move(balances, transfers[id].from, transfers[id].to, transfers[id].amount)
    } else {
        balances
    }
}

/// Whether every record of `before` is still on record in `after`, the same
/// but for its executed flag, which is set in `after` wherever it was set in
/// `before`.
pub open spec fn records_persist(
    before: Map<u32, ConditionalTransfer>,
    after: Map<u32, ConditionalTransfer>,
) -> bool {
    forall|id: u32| #[trigger]
        before.contains_key(id) ==> after.contains_key(id) && (before[id].executed
            ==> after[id].executed) && after[id] == (ConditionalTransfer {
            executed: after[id].executed,
            ..before[id]
        })
}

/// The conditional transfers on record, pending or executed.
pub struct ConditionalTransfers {
    records: Table<u32, ConditionalTransfer>,
}

impl View for ConditionalTransfers {
    type V = Map<u32, ConditionalTransfer>;

    closed spec fn view(&self) -> Map<u32, ConditionalTransfer> {
        self.records@
    }
}

impl ConditionalTransfers {
    /// Every transfer on record moves a positive amount.
    pub closed spec fn wf(&self) -> bool {
        self.records.wf() && transfers_valid(self.records@)
    }

    /// In a well-formed record every transfer moves a positive amount.
    pub proof fn lemma_transfers_valid(&self)
        requires
            self.wf(),
        ensures
            transfers_valid(self@),
    {
    }

    /// No transfer on record.
    pub fn new() -> (transfers: ConditionalTransfers)
        ensures
            transfers.wf(),
            transfers@ == Map::<u32, ConditionalTransfer>::empty(),
    {
        ConditionalTransfers { records: Table::new() }
    }

    /// Puts a persisted transfer back on record under `id`, as it stands.
    /// Refused where its amount is not positive, and where a transfer is
    /// already on record under `id`.
    pub fn restore(&mut self, id: u32, transfer: ConditionalTransfer) -> (r: Result<
        (),
        ConditionalError,
    >)
        requires
            old(self).wf(),
        ensures
            final(self).wf(),
            r == if transfer.amount <= 0 {
                Err::<(), ConditionalError>(ConditionalError::InvalidTransferAmount)
            } else if old(self)@.contains_key(id) {
                Err::<(), ConditionalError>(ConditionalError::TransferIdTaken)
            } else {
                Ok::<(), ConditionalError>(())
            },
            r is Ok ==> final(self)@ == old(self)@.insert(id, transfer),
            r is Err ==> final(self)@ == old(self)@,
    {
        if transfer.amount <= 0 {
            return Err(ConditionalError::InvalidTransferAmount);
        }
        if self.records.has(&id) {
            return Err(ConditionalError::TransferIdTaken);
        }
        self.records.set(id, transfer);
        Ok(())
    }

    /// The id that a creation at `now` takes: the least id from the current
    /// tick on under which no transfer is on record; `None` where every id
    /// from the current tick on is taken.
    pub fn next_id(&self, now: u32) -> (r: Option<u32>)
        requires
            self.wf(),
        ensures
            match r {
                Some(id) => is_next_id(self@, now, id),
                None => !has_next_id(self@, now),
            },
    {
        let mut id: u32 = now;
        loop
            invariant
                self.wf(),
                now <= id,
                forall|j: u32| now <= j < id ==> #[trigger] self@.contains_key(j),
            decreases u32::MAX - id,
        {
            if !self.records.has(&id) {
                return Some(id);
            }
            if id == u32::MAX {
                proof {
                    assert forall|free: u32| !is_next_id(self@, now, free) by {
                        if now <= free {
                            assert(self@.contains_key(free));
                        }
                    }
                }
                return None;
            }
            id = id + 1;
        }
    }

    /// The transfer on record under `id`, if there is one.
    pub fn get(&self, id: u32) -> (r: Option<ConditionalTransfer>)
        requires
            self.wf(),
        ensures
            r == if self@.contains_key(id) {
                Some(self@[id])
            } else {
                None::<ConditionalTransfer>
            },
    {
        self.records.get(&id)
    }

    /// Whether executing the transfer under `id` at `now` comes to rest on
    /// the approval of `approver`, so that the approver must have authorized
    /// the invocation.
    pub fn awaits_approval(&self, id: u32, approver: &Option<Address>, now: u32) -> (r: bool)
        requires
            self.wf(),
        ensures
            r == (self@.contains_key(id) && self@[id].awaits(*approver, now)),
    {
        match self.records.get(&id) {
            None => false,
            Some(transfer) => {
                if transfer.executed {
                    return false;
                }
                if transfer.expiration_ledger > 0 && now > transfer.expiration_ledger {
                    return false;
                }
                match transfer.condition {
                    ConditionType::TimeBasedRelease(_) => false,
                    ConditionType::ApprovalRequired(expected) => match approver {
                        Some(addr) => addr.same(&expected),
                        None => false,
                    },
                }
            },
        }
    }
}

/// Puts a pending transfer of `amount` from `from` to `to` on record and
/// returns its id. The id is fresh and comes from the current tick: it is the
/// least id from `now` on under which no transfer is on record, so that no
/// record is replaced. Refused where the amount is not positive, before the
/// sender's authorization is asked for.
pub fn create_conditional_transfer(
    transfers: &mut ConditionalTransfers,
    auth: &Auth,
    from: Address,
    to: Address,
    amount: i128,
    condition: ConditionType,
    expiration_ledger: u32,
    now: u32,
) -> (r: Result<u32, ConditionalError>)
    requires
        old(transfers).wf(),
        amount > 0 ==> auth.covers(from),
        amount > 0 ==> has_next_id(old(transfers)@, now),
    ensures
        final(transfers).wf(),
        amount <= 0 ==> r == Err::<u32, ConditionalError>(ConditionalError::InvalidTransferAmount)
            && final(transfers)@ == old(transfers)@,
        amount > 0 ==> r is Ok,
        r matches Ok(id) ==> {
            &&& is_next_id(old(transfers)@, now, id)
            &&& final(transfers)@ == old(transfers)@.insert(
                id,
                ConditionalTransfer {
                    from,
                    to,
                    amount,
                    condition,
                    executed: false,
                    expiration_ledger,
                },
            )
        },
        records_persist(old(transfers)@, final(transfers)@),
{
    if amount <= 0 {
        return Err(ConditionalError::InvalidTransferAmount);
    }
    let transfer_id = transfers.next_id(now).unwrap();
    let transfer = ConditionalTransfer {
        from,
        to,
        amount,
        condition,
        executed: false,
        expiration_ledger,
    };
    transfers.records.set(transfer_id, transfer);
    Ok(transfer_id)
}

/// Executes the transfer under `transfer_id`: moves its amount from its
/// sender to its receiver and marks it executed, both or neither. The
/// approver's authorization is asked for before the sender's freeze flag is
/// looked at, and nothing is written before both have passed.
pub fn execute_conditional_transfer(
    transfers: &mut ConditionalTransfers,
    balances: &mut Balances,
    access: &AccessControl,
    auth: &Auth,
    transfer_id: u32,
    approver: Option<Address>,
    now: u32,
) -> (r: Result<(), ConditionalError>)
    requires
        old(transfers).wf(),
        old(balances).wf(),
        access.wf(),
        old(transfers)@.contains_key(transfer_id) && old(transfers)@[transfer_id].awaits(
            approver,
            now,
        ) ==> approver is Some && auth.covers(approver->Some_0),
    ensures
        final(transfers).wf(),
        final(balances).wf(),
        r == execute_outcome(
            old(transfers)@,
            old(balances)@,
            access@.frozen,
            transfer_id,
            approver,
            now,
        ),
        final(transfers)@ == transfers_after_execute(
            old(transfers)@,
            old(balances)@,
            access@.frozen,
            transfer_id,
            approver,
            now,
        ),
        final(balances)@ == balances_after_execute(
            old(transfers)@,
            old(balances)@,
            access@.frozen,
            transfer_id,
            approver,
            now,
        ),
        r is Err ==> final(transfers)@ == old(transfers)@ && final(balances)@ == old(balances)@,
        records_persist(old(transfers)@, final(transfers)@),
{
    let transfer = match transfers.records.get(&transfer_id) {
        None => {
            return Err(ConditionalError::InvalidCondition);
        },
        Some(transfer) => transfer,
    };
    if transfer.executed {
        return Err(ConditionalError::TransferAlreadyExecuted);
    }
    let current_ledger = now;
    if transfer.expiration_ledger > 0 && current_ledger > transfer.expiration_ledger {
        return Err(ConditionalError::TransferExpired);
    }
    match transfer.condition {
        ConditionType::TimeBasedRelease(release_ledger) => {
            if current_ledger < release_ledger {
                return Err(ConditionalError::ConditionNotMet);
            }
        },
        ConditionType::ApprovalRequired(approver_address) => {
            match approver {
                Some(addr) => {
                    if !addr.same(&approver_address) {
                        return Err(ConditionalError::ConditionNotMet);
                    }
                    assert(auth.covers(addr));
                },
                None => {
                    return Err(ConditionalError::ConditionNotMet);
                },
            }
        },
    }
    if access.is_frozen(&transfer.from) {
        return Err(ConditionalError::AccountFrozen);
    }
    match balances.transfer(&transfer.from, &transfer.to, transfer.amount) {
        Err(e) => Err(ConditionalError::from_ledger(e)),
        Ok(()) => {
            transfers.records.set(transfer_id, ConditionalTransfer { executed: true, ..transfer });
            Ok(())
        },
    }
}

/// There is at most one id that a creation at `now` can take.
pub proof fn lemma_next_id_unique(
    transfers: Map<u32, ConditionalTransfer>,
    now: u32,
    id: u32,
    other: u32,
)
    requires
        is_next_id(transfers, now, id),
        is_next_id(transfers, now, other),
    ensures
        id == other,
{
    if id < other {
        assert(transfers.contains_key(id));
    }
    if other < id {
        assert(transfers.contains_key(other));
    }
}

/// The id of a new transfer was free before, every transfer on record before
/// is on record after, unchanged, and exactly one record is added.
pub proof fn lemma_create_is_fresh(
    transfers: Map<u32, ConditionalTransfer>,
    record: ConditionalTransfer,
    now: u32,
    id: u32,
)
    requires
        is_next_id(transfers, now, id),
    ensures
        ({
            let after = transfers.insert(id, record);
            &&& !transfers.contains_key(id)
            &&& after.dom() == transfers.dom().insert(id)
            &&& forall|other: u32| #[trigger]
                transfers.contains_key(other) ==> after.contains_key(other) && after[other]
                    == transfers[other]
        }),
{
    assert(transfers.insert(id, record).dom() =~= transfers.dom().insert(id));
}

/// Where no transfer is on record under the current tick, a creation takes
/// the current tick as its id.
pub proof fn lemma_free_tick_is_taken(transfers: Map<u32, ConditionalTransfer>, now: u32)
    requires
        !transfers.contains_key(now),
    ensures
        is_next_id(transfers, now, now),
        has_next_id(transfers, now),
{
    assert(is_next_id(transfers, now, now));
}

/// Executing a transfer deletes no record and changes none but the one
/// executed, whose executed flag it sets; an executed flag is never cleared.
pub proof fn lemma_execute_keeps_records(
    transfers: Map<u32, ConditionalTransfer>,
    balances: Map<Address, i128>,
    frozen: Set<Address>,
    id: u32,
    approver: Option<Address>,
    now: u32,
)
    ensures
        records_persist(
            transfers,
            transfers_after_execute(transfers, balances, frozen, id, approver, now),
        ),
        forall|other: u32|
            other != id ==> #[trigger] transfers_after_execute(
                transfers,
                balances,
                frozen,
                id,
                approver,
                now,
            ).contains_key(other) == transfers.contains_key(other),
{
}

/// A pending transfer with an expiration is refused as expired at every tick
/// after it, and is not refused as expired at the expiration itself: there it
/// is executed whenever its condition holds, its sender is not frozen and the
/// ledger can move the funds.
pub proof fn lemma_expiry_boundary(
    transfers: Map<u32, ConditionalTransfer>,
    balances: Map<Address, i128>,
    frozen: Set<Address>,
    id: u32,
    approver: Option<Address>,
    now: u32,
)
    requires
        transfers.contains_key(id),
        !transfers[id].executed,
        transfers[id].expiration_ledger > 0,
    ensures
        now > transfers[id].expiration_ledger ==> execute_outcome(
            transfers,
            balances,
            frozen,
            id,
            approver,
            now,
        ) == Err::<(), ConditionalError>(ConditionalError::TransferExpired),
        now == transfers[id].expiration_ledger ==> execute_outcome(
            transfers,
            balances,
            frozen,
            id,
            approver,
            now,
        ) != Err::<(), ConditionalError>(ConditionalError::TransferExpired),
        now == transfers[id].expiration_ledger && transfers[id].condition_met(approver, now)
            && !frozen.contains(transfers[id].from) && move_outcome(
            balances,
            transfers[id].from,
            transfers[id].to,
            transfers[id].amount,
        ) is Ok ==> execute_outcome(transfers, balances, frozen, id, approver, now) is Ok,
{
}

/// Once a transfer has been executed, every further attempt on it is refused
/// as already executed, whoever approves, whenever and whichever accounts are
/// frozen then, and changes neither the transfers nor the balances.
pub proof fn lemma_executes_once(
    transfers: Map<u32, ConditionalTransfer>,
    balances: Map<Address, i128>,
    frozen: Set<Address>,
    id: u32,
    approver: Option<Address>,
    now: u32,
    again_frozen: Set<Address>,
    again_approver: Option<Address>,
    again_now: u32,
)
    requires
        execute_outcome(transfers, balances, frozen, id, approver, now) is Ok,
    ensures
        ({
            let transfers1 = transfers_after_execute(
                transfers,
                balances,
                frozen,
                id,
                approver,
                now,
            );
            let balances1 = balances_after_execute(transfers, balances, frozen, id, approver, now);
            &&& execute_outcome(
                transfers1,
                balances1,
                again_frozen,
                id,
                again_approver,
                again_now,
            ) == Err::<(), ConditionalError>(ConditionalError::TransferAlreadyExecuted)
            &&& transfers_after_execute(
                transfers1,
                balances1,
                again_frozen,
                id,
                again_approver,
                again_now,
            ) == transfers1
            &&& balances_after_execute(
                transfers1,
                balances1,
                again_frozen,
                id,
                again_approver,
                again_now,
            ) == balances1
        }),
{
}

/// While its sender is frozen, a transfer that the engine would let go ahead
/// is refused as frozen, and neither a record nor a balance changes.
pub proof fn lemma_frozen_sender_not_executed(
    transfers: Map<u32, ConditionalTransfer>,
    balances: Map<Address, i128>,
    frozen: Set<Address>,
    id: u32,
    approver: Option<Address>,
    now: u32,
)
    requires
        release_outcome(transfers, id, approver, now) is Ok,
        frozen.contains(transfers[id].from),
    ensures
        execute_outcome(transfers, balances, frozen, id, approver, now) == Err::<
            (),
            ConditionalError,
        >(ConditionalError::AccountFrozen),
        transfers_after_execute(transfers, balances, frozen, id, approver, now) == transfers,
        balances_after_execute(transfers, balances, frozen, id, approver, now) == balances,
{
}

} // verus!
