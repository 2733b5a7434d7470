use crate::address::{Address, Auth};
use crate::admin::{is_account_frozen, AccessControl};
use crate::allowance::{
    after_spend, allowances_valid, spend_outcome, spendable, AllowanceError, AllowanceKey,
    AllowanceValue, Allowances,
};
use crate::balance::{
    after_move, balances_valid, can_credit, can_debit, credited, debited, move_outcome, Balances,
    LedgerError,
};
use crate::batch::{after_batch, batch_outcome, needs_authorization, BatchError};
use crate::conditional::{
    balances_after_execute, execute_outcome, has_next_id, is_next_id, records_persist,
    transfers_after_execute, ConditionType,
    ConditionalError, ConditionalTransfer, ConditionalTransfers,
};
use crate::vesting::{
    schedules_valid, VestingBook, VestingError, VestingSchedule, VestingType,
};
use vstd::prelude::*;

verus! {

/// Why an operation of the standard ledger surface was refused.
#[derive(Clone, Copy, Debug, PartialEq, Eq, Structural)]
pub enum TokenError {
    /// The amount is negative.
    NegativeAmount,
    /// The holder has less than the amount asked for.
    InsufficientBalance,
    /// A balance would leave the range of amounts.
    Overflow,
    /// The spender may spend less than the amount asked for.
    InsufficientAllowance,
    /// The allowance has passed its expiration.
    AllowanceExpired,
    /// The account that would be debited is frozen.
    AccountFrozen,
    /// The ledger has been initialized before.
    AlreadyInitialized,
    /// The number of decimals does not fit in eight bits.
    DecimalTooLarge,
}

/// The refusal that a refusal of the ledger store is reported as.
pub open spec fn ledger_refusal(e: LedgerError) -> TokenError {
    match e {
        LedgerError::InsufficientBalance => TokenError::InsufficientBalance,
        LedgerError::Overflow => TokenError::Overflow,
    }
}

/// The refusal that a refusal of the allowance engine is reported as.
pub open spec fn allowance_refusal(e: AllowanceError) -> TokenError {
    match e {
        AllowanceError::InsufficientAllowance => TokenError::InsufficientAllowance,
        AllowanceError::AllowanceExpired => TokenError::AllowanceExpired,
    }
}

impl TokenError {
    /// The refusal that a refusal of the ledger store is reported as.
    pub fn from_ledger(e: LedgerError) -> (r: TokenError)
        ensures
            r == ledger_refusal(e),
    {
        match e {
            LedgerError::InsufficientBalance => TokenError::InsufficientBalance,
            LedgerError::Overflow => TokenError::Overflow,
        }
    }

    /// The refusal that a refusal of the allowance engine is reported as.
    pub fn from_allowance(e: AllowanceError) -> (r: TokenError)
        ensures
            r == allowance_refusal(e),
    {
        match e {
            AllowanceError::InsufficientAllowance => TokenError::InsufficientAllowance,
            AllowanceError::AllowanceExpired => TokenError::AllowanceExpired,
        }
    }
}

/// Refuses a negative amount, before any balance is touched.
pub fn check_nonnegative_amount(amount: i128) -> (r: Result<(), TokenError>)
    ensures
        r == if amount < 0 {
            Err::<(), TokenError>(TokenError::NegativeAmount)
        } else {
            Ok::<(), TokenError>(())
        },
{
    if amount < 0 {
        Err(TokenError::NegativeAmount)
    } else {
        Ok(())
    }
}

/// How the asset presents itself.
pub struct TokenMetadata {
    pub decimal: u32,
    pub name: String,
    pub symbol: String,
}

/// Everything the ledger holds, as contracts speak of it.
pub ghost struct TokenView {
    /// The ledger's own account, which holds what has not vested yet.
    pub custody: Address,
    /// The administrator; `None` until the ledger is initialized.
    pub admin: Option<Address>,
    /// The accounts that may not spend.
    pub frozen: Set<Address>,
    /// The number of decimals, the name and the symbol: 0 and empty until
    /// the ledger is initialized.
    pub decimal: u32,
    pub name: Seq<char>,
    pub symbol: Seq<char>,
    /// What every holder holds.
    pub balances: Map<Address, i128>,
    /// What every holder lets every spender spend.
    pub allowances: Map<AllowanceKey, AllowanceValue>,
    /// The release schedule of every beneficiary that has one.
    pub schedules: Map<Address, VestingSchedule>,
    /// The conditional transfers by id.
    pub transfers: Map<u32, ConditionalTransfer>,
}

/// What minting `amount` to `to` returns.
pub open spec fn mint_outcome(s: TokenView, to: Address, amount: i128) -> Result<(), TokenError> {
    if amount < 0 {
        Err(TokenError::NegativeAmount)
    } else if !can_credit(s.balances, to, amount) {
        Err(TokenError::Overflow)
    } else {
        Ok(())
    }
}

/// What a transfer of `amount` from `from` to `to` returns.
pub open spec fn transfer_outcome(s: TokenView, from: Address, to: Address, amount: i128) -> Result<
    (),
    TokenError,
> {
    if amount < 0 {
        Err(TokenError::NegativeAmount)
    } else if s.frozen.contains(from) {
        Err(TokenError::AccountFrozen)
    } else {
        match move_outcome(s.balances, from, to, amount) {
            Err(e) => Err(ledger_refusal(e)),
            Ok(_) => Ok(()),
        }
    }
}

/// What a transfer of `amount` from `from` to `to` by `spender` returns at
/// `now`.
pub open spec fn transfer_from_outcome(
    s: TokenView,
    spender: Address,
    from: Address,
    to: Address,
    amount: i128,
    now: u32,
) -> Result<(), TokenError> {
    if amount < 0 {
        Err(TokenError::NegativeAmount)
    } else if s.frozen.contains(from) {
        Err(TokenError::AccountFrozen)
    } else {
        match spend_outcome(s.allowances[AllowanceKey { from, spender }], amount, now) {
            Err(e) => Err(allowance_refusal(e)),
            Ok(_) => match move_outcome(s.balances, from, to, amount) {
                Err(e) => Err(ledger_refusal(e)),
                Ok(_) => Ok(()),
            },
        }
    }
}

/// What burning `amount` of what `from` holds returns.
pub open spec fn burn_outcome(s: TokenView, from: Address, amount: i128) -> Result<(), TokenError> {
    if amount < 0 {
        Err(TokenError::NegativeAmount)
    } else if s.frozen.contains(from) {
        Err(TokenError::AccountFrozen)
    } else if !can_debit(s.balances, from, amount) {
        Err(TokenError::InsufficientBalance)
    } else {
        Ok(())
    }
}

/// What burning `amount` of what `from` holds returns at `now`, when
/// `spender` burns it.
pub open spec fn burn_from_outcome(
    s: TokenView,
    spender: Address,
    from: Address,
    amount: i128,
    now: u32,
) -> Result<(), TokenError> {
    if amount < 0 {
        Err(TokenError::NegativeAmount)
    } else if s.frozen.contains(from) {
        Err(TokenError::AccountFrozen)
    } else {
        match spend_outcome(s.allowances[AllowanceKey { from, spender }], amount, now) {
            Err(e) => Err(allowance_refusal(e)),
            Ok(_) => if !can_debit(s.balances, from, amount) {
                Err(TokenError::InsufficientBalance)
            } else {
                Ok(())
            },
        }
    }
}

/// The allowances as a spend of `amount` by `spender` from the funds of
/// `from` leaves them at `now`.
pub open spec fn allowances_after_spend(
    allowances: Map<AllowanceKey, AllowanceValue>,
    spender: Address,
    from: Address,
    amount: i128,
    now: u32,
) -> Map<AllowanceKey, AllowanceValue> {
    allowances.insert(
        AllowanceKey { from, spender },
        after_spend(allowances[AllowanceKey { from, spender }], amount, now),
    )
}

/// What creating a schedule of `total_amount` for `beneficiary` returns: the
/// schedule must be acceptable and custody able to hold the amount.
pub open spec fn create_vesting_outcome(
    s: TokenView,
    beneficiary: Address,
    total_amount: i128,
    duration_ledgers: u32,
) -> Result<(), VestingError> {
    match crate::vesting::create_outcome(s.schedules, beneficiary, total_amount, duration_ledgers) {
        Err(e) => Err(e),
        Ok(_) => if !can_credit(s.balances, s.custody, total_amount) {
            Err(VestingError::Overflow)
        } else {
            Ok(())
        },
    }
}

/// What a claim by `beneficiary` returns at `now`: the amount released, where
/// something has vested and custody can pay it out.
pub open spec fn claim_vesting_outcome(s: TokenView, beneficiary: Address, now: u32) -> Result<
    i128,
    VestingError,
> {
    match crate::vesting::claim_outcome(s.schedules, beneficiary, now) {
        Err(e) => Err(e),
        Ok(paid) => match move_outcome(s.balances, s.custody, beneficiary, paid) {
            Err(e) => Err(crate::vesting::ledger_refusal(e)),
            Ok(_) => Ok(paid),
        },
    }
}

/// The ledger after `account` was frozen.
pub open spec fn after_freeze(s: TokenView, account: Address) -> TokenView {
    TokenView { frozen: s.frozen.insert(account), ..s }
}

/// The ledger after the freeze on `account` was lifted.
pub open spec fn after_unfreeze(s: TokenView, account: Address) -> TokenView {
    TokenView { frozen: s.frozen.remove(account), ..s }
}

/// While `from` is frozen, every operation that would debit it is refused as
/// frozen: a transfer, a delegated transfer, a burn and a delegated burn of
/// an amount that is not negative, and a batch transfer to as many recipients
/// as there are amounts, at least one.
pub proof fn lemma_frozen_sender_refused(
    s: TokenView,
    from: Address,
    spender: Address,
    to: Address,
    amount: i128,
    recipients: Seq<Address>,
    amounts: Seq<i128>,
    now: u32,
)
    requires
        s.frozen.contains(from),
        amount >= 0,
        0 < recipients.len() == amounts.len(),
    ensures
        transfer_outcome(s, from, to, amount) == Err::<(), TokenError>(TokenError::AccountFrozen),
        transfer_from_outcome(s, spender, from, to, amount, now) == Err::<(), TokenError>(
            TokenError::AccountFrozen,
        ),
        burn_outcome(s, from, amount) == Err::<(), TokenError>(TokenError::AccountFrozen),
        burn_from_outcome(s, spender, from, amount, now) == Err::<(), TokenError>(
            TokenError::AccountFrozen,
        ),
        batch_outcome(s.balances, s.frozen, from, recipients, amounts) == Err::<(), BatchError>(
            BatchError::AccountFrozen,
        ),
{
}

/// Freezing an account and lifting the freeze again leaves the ledger as it
/// was, so that every operation returns what it returned before; and no
/// operation is refused as frozen for a sender that is not frozen.
pub proof fn lemma_unfreeze_restores(
    s: TokenView,
    from: Address,
    spender: Address,
    to: Address,
    amount: i128,
    recipients: Seq<Address>,
    amounts: Seq<i128>,
    now: u32,
)
    requires
        !s.frozen.contains(from),
    ensures
        after_unfreeze(after_freeze(s, from), from) == s,
        transfer_outcome(s, from, to, amount) != Err::<(), TokenError>(TokenError::AccountFrozen),
        transfer_from_outcome(s, spender, from, to, amount, now) != Err::<(), TokenError>(
            TokenError::AccountFrozen,
        ),
        burn_outcome(s, from, amount) != Err::<(), TokenError>(TokenError::AccountFrozen),
        burn_from_outcome(s, spender, from, amount, now) != Err::<(), TokenError>(
            TokenError::AccountFrozen,
        ),
        batch_outcome(s.balances, s.frozen, from, recipients, amounts) != Err::<(), BatchError>(
            BatchError::AccountFrozen,
        ),
{
    assert(s.frozen.insert(from).remove(from) =~= s.frozen);
}

/// An operation that would take from a holder more than it holds is refused
/// for want of funds, whenever nothing else stands in its way: the amount is
/// not negative, the holder is not frozen and, for a delegated operation, the
/// allowance is sufficient.
pub proof fn lemma_overdraft_refused(
    s: TokenView,
    from: Address,
    spender: Address,
    to: Address,
    amount: i128,
    now: u32,
)
    requires
        amount >= 0,
        !s.frozen.contains(from),
        s.balances[from] < amount,
    ensures
        transfer_outcome(s, from, to, amount) == Err::<(), TokenError>(
            TokenError::InsufficientBalance,
        ),
        burn_outcome(s, from, amount) == Err::<(), TokenError>(TokenError::InsufficientBalance),
        spend_outcome(s.allowances[AllowanceKey { from, spender }], amount, now) is Ok
            ==> transfer_from_outcome(s, spender, from, to, amount, now) == Err::<(), TokenError>(
            TokenError::InsufficientBalance,
        ) && burn_from_outcome(s, spender, from, amount, now) == Err::<(), TokenError>(
            TokenError::InsufficientBalance,
        ),
{
}

/// The ledger: balances, allowances, frozen accounts, release schedules and
/// conditional transfers of one asset.
pub struct Token {
    custody: Address,
    metadata: TokenMetadata,
    access: AccessControl,
    balances: Balances,
    allowances: Allowances,
    vesting: VestingBook,
    conditional: ConditionalTransfers,
}

impl View for Token {
    type V = TokenView;

    closed spec fn view(&self) -> TokenView {
        TokenView {
            custody: self.custody,
            admin: self.access@.admin,
            frozen: self.access@.frozen,
            decimal: self.metadata.decimal,
            name: self.metadata.name@,
            symbol: self.metadata.symbol@,
            balances: self.balances@,
            allowances: self.allowances@,
            schedules: self.vesting@,
            transfers: self.conditional@,
        }
    }
}

impl Token {
    /// The records are consistent: no balance and no allowance is negative,
    /// every schedule is valid and every conditional transfer moves a
    /// positive amount.
    pub closed spec fn wf(&self) -> bool {
        &&& self.access.wf()
        &&& self.balances.wf()
        &&& self.allowances.wf()
        &&& self.vesting.wf()
        &&& self.conditional.wf()
    }

    /// In a consistent ledger no balance and no allowance is negative, every
    /// schedule is valid and every conditional transfer moves a positive
    /// amount.
    pub proof fn lemma_consistent(&self)
        requires
            self.wf(),
        ensures
            balances_valid(self@.balances),
            allowances_valid(self@.allowances),
            schedules_valid(self@.schedules),
            crate::conditional::transfers_valid(self@.transfers),
    {
        self.balances.lemma_never_negative();
        self.allowances.lemma_never_negative();
        self.vesting.lemma_schedules_valid();
        self.conditional.lemma_transfers_valid();
    }

    /// A ledger that holds nothing yet and has no administrator, with
    /// `custody` as its own account.
    pub fn new(custody: Address) -> (token: Token)
        ensures
            token.wf(),
            token@.custody == custody,
            token@.admin == None::<Address>,
            token@.frozen == Set::<Address>::empty(),
            token@.decimal == 0,
            token@.name == Seq::<char>::empty(),
            token@.symbol == Seq::<char>::empty(),
            forall|who: Address| #[trigger] token@.balances[who] == 0,
            forall|pair: AllowanceKey| #[trigger]
                token@.allowances[pair] == (AllowanceValue { amount: 0, expiration_ledger: 0 }),
            token@.schedules == Map::<Address, VestingSchedule>::empty(),
            token@.transfers == Map::<u32, ConditionalTransfer>::empty(),
    {
        Token {
            custody,
            metadata: TokenMetadata { decimal: 0, name: String::new(), symbol: String::new() },
            access: AccessControl::new(),
            balances: Balances::new(),
            allowances: Allowances::new(),
            vesting: VestingBook::new(),
            conditional: ConditionalTransfers::new(),
        }
    }

    /// The ledger made of the given records, as they were persisted.
    pub fn from_parts(
        custody: Address,
        metadata: TokenMetadata,
        access: AccessControl,
        balances: Balances,
        allowances: Allowances,
        vesting: VestingBook,
        conditional: ConditionalTransfers,
    ) -> (token: Token)
        requires
            access.wf(),
            balances.wf(),
            allowances.wf(),
            vesting.wf(),
            conditional.wf(),
        ensures
            token.wf(),
            token@ == (TokenView {
                custody,
                admin: access@.admin,
                frozen: access@.frozen,
                decimal: metadata.decimal,
                name: metadata.name@,
                symbol: metadata.symbol@,
                balances: balances@,
                allowances: allowances@,
                schedules: vesting@,
                transfers: conditional@,
            }),
    {
        Token { custody, metadata, access, balances, allowances, vesting, conditional }
    }

    /// Whether the ledger has been initialized.
    pub fn is_initialized(&self) -> (r: bool)
        ensures
            r == self@.admin.is_some(),
    {
        self.access.has_administrator()
    }

    /// The administrator.
    pub fn admin(&self) -> (admin: Address)
        requires
            self@.admin.is_some(),
        ensures
            self@.admin == Some(admin),
    {
        self.access.read_administrator()
    }

    /// The ledger's own account.
    pub fn custody(&self) -> (custody: Address)
        ensures
            custody == self@.custody,
    {
        self.custody
    }

    /// Sets the administrator and the presentation of the asset, once.
    pub fn initialize(&mut self, admin: Address, decimal: u32, name: String, symbol: String) -> (r:
        Result<(), TokenError>)
        requires
            old(self).wf(),
        ensures
            final(self).wf(),
            old(self)@.admin.is_some() ==> r == Err::<(), TokenError>(
                TokenError::AlreadyInitialized,
            ),
            old(self)@.admin.is_none() && decimal > u8::MAX ==> r == Err::<(), TokenError>(
                TokenError::DecimalTooLarge,
            ),
            old(self)@.admin.is_none() && decimal <= u8::MAX ==> r == Ok::<(), TokenError>(()),
            r is Err ==> final(self)@ == old(self)@,
            r is Ok ==> final(self)@ == (TokenView {
                admin: Some(admin),
                decimal,
                name: name@,
                symbol: symbol@,
                ..old(self)@
            }),
    {
        if self.access.has_administrator() {
            return Err(TokenError::AlreadyInitialized);
        }
        if decimal > 255 {
            return Err(TokenError::DecimalTooLarge);
        }
        self.access.write_administrator(&admin);
        self.metadata = TokenMetadata { decimal, name, symbol };
        Ok(())
    }

    /// Creates `amount` and credits it to `to`.
    pub fn mint(&mut self, auth: &Auth, to: Address, amount: i128) -> (r: Result<(), TokenError>)
        requires
            old(self).wf(),
            old(self)@.admin matches Some(admin) && auth.covers(admin),
        ensures
            final(self).wf(),
            r == mint_outcome(old(self)@, to, amount),
            r is Err ==> final(self)@ == old(self)@,
            r is Ok ==> final(self)@ == (TokenView {
                balances: credited(old(self)@.balances, to, amount),
                ..old(self)@
            }),
    {
        match check_nonnegative_amount(amount) {
            Err(e) => {
                return Err(e);
            },
            Ok(()) => {},
        }
        match self.balances.credit(&to, amount) {
            Err(e) => Err(TokenError::from_ledger(e)),
            Ok(()) => Ok(()),
        }
    }

    /// Hands the administration over to `new_admin`.
    pub fn set_admin(&mut self, auth: &Auth, new_admin: Address)
        requires
            old(self).wf(),
            old(self)@.admin matches Some(admin) && auth.covers(admin),
        ensures
            final(self).wf(),
            final(self)@ == (TokenView { admin: Some(new_admin), ..old(self)@ }),
    {
        self.access.write_administrator(&new_admin);
    }

    /// Freezes `account`: it can no longer spend. Freezing a frozen account
    /// changes nothing.
    pub fn freeze_account(&mut self, auth: &Auth, account: Address)
        requires
            old(self).wf(),
            old(self)@.admin matches Some(admin) && auth.covers(admin),
        ensures
            final(self).wf(),
            final(self)@ == (TokenView {
                frozen: old(self)@.frozen.insert(account),
                ..old(self)@
            }),
    {
        self.access.freeze(&account);
    }

    /// Lifts the freeze on `account`. Unfreezing an account that is not
    /// frozen changes nothing.
    pub fn unfreeze_account(&mut self, auth: &Auth, account: Address)
        requires
            old(self).wf(),
            old(self)@.admin matches Some(admin) && auth.covers(admin),
        ensures
            final(self).wf(),
            final(self)@ == (TokenView {
                frozen: old(self)@.frozen.remove(account),
                ..old(self)@
            }),
    {
        self.access.unfreeze(&account);
    }

    /// Whether `account` is frozen.
    pub fn is_frozen(&self, account: Address) -> (r: bool)
        requires
            self.wf(),
        ensures
            r == self@.frozen.contains(account),
    {
        is_account_frozen(&self.access, &account)
    }

    /// What `from` lets `spender` spend at `now`: the recorded amount, and
    /// nothing once the allowance has expired.
    pub fn allowance(&self, from: Address, spender: Address, now: u32) -> (amount: i128)
        requires
            self.wf(),
        ensures
            amount == spendable(self@.allowances[AllowanceKey { from, spender }], now),
            amount >= 0,
    {
        self.allowances.spendable_at(&from, &spender, now)
    }

    /// The allowance of `spender` on the funds of `from` as it is on record,
    /// expired or not.
    pub fn allowance_record(&self, from: Address, spender: Address) -> (allowance: AllowanceValue)
        requires
            self.wf(),
        ensures
            allowance == self@.allowances[AllowanceKey { from, spender }],
            allowance.amount >= 0,
    {
        self.allowances.read_allowance(&from, &spender)
    }

    /// Lets `spender` spend `amount` of what `from` holds until
    /// `expiration_ledger`, replacing what was granted to the pair before.
    pub fn approve(
        &mut self,
        auth: &Auth,
        from: Address,
        spender: Address,
        amount: i128,
        expiration_ledger: u32,
    ) -> (r: Result<(), TokenError>)
        requires
            old(self).wf(),
            auth.covers(from),
        ensures
            final(self).wf(),
            amount < 0 ==> r == Err::<(), TokenError>(TokenError::NegativeAmount) && final(self)@
                == old(self)@,
            amount >= 0 ==> r == Ok::<(), TokenError>(()) && final(self)@ == (TokenView {
                allowances: old(self)@.allowances.insert(
                    AllowanceKey { from, spender },
                    AllowanceValue { amount, expiration_ledger },
                ),
                ..old(self)@
            }),
    {
        match check_nonnegative_amount(amount) {
            Err(e) => {
                return Err(e);
            },
            Ok(()) => {},
        }
        self.allowances.write_allowance(&from, &spender, amount, expiration_ledger);
        Ok(())
    }

    /// What `id` holds.
    pub fn balance(&self, id: Address) -> (amount: i128)
        requires
            self.wf(),
        ensures
            amount == self@.balances[id],
            amount >= 0,
    {
        self.balances.balance_of(&id)
    }

    /// Moves `amount` from `from` to `to`.
    pub fn transfer(&mut self, auth: &Auth, from: Address, to: Address, amount: i128) -> (r: Result<
        (),
        TokenError,
    >)
        requires
            old(self).wf(),
            auth.covers(from),
        ensures
            final(self).wf(),
            r == transfer_outcome(old(self)@, from, to, amount),
            r is Err ==> final(self)@ == old(self)@,
            r is Ok ==> final(self)@ == (TokenView {
                balances: after_move(old(self)@.balances, from, to, amount),
                ..old(self)@
            }),
    {
        match check_nonnegative_amount(amount) {
            Err(e) => {
                return Err(e);
            },
            Ok(()) => {},
        }
        if self.access.is_frozen(&from) {
            return Err(TokenError::AccountFrozen);
        }
        match self.balances.transfer(&from, &to, amount) {
            Err(e) => Err(TokenError::from_ledger(e)),
            Ok(()) => Ok(()),
        }
    }

    /// Moves `amount` from `from` to `to` on behalf of `spender`, against
    /// what `from` lets `spender` spend.
    pub fn transfer_from(
        &mut self,
        auth: &Auth,
        spender: Address,
        from: Address,
        to: Address,
        amount: i128,
        now: u32,
    ) -> (r: Result<(), TokenError>)
        requires
            old(self).wf(),
            auth.covers(spender),
        ensures
            final(self).wf(),
            r == transfer_from_outcome(old(self)@, spender, from, to, amount, now),
            r is Err ==> final(self)@ == old(self)@,
            r is Ok ==> final(self)@ == (TokenView {
                allowances: allowances_after_spend(
                    old(self)@.allowances,
                    spender,
                    from,
                    amount,
                    now,
                ),
                balances: after_move(old(self)@.balances, from, to, amount),
                ..old(self)@
            }),
    {
        match check_nonnegative_amount(amount) {
            Err(e) => {
                return Err(e);
            },
            Ok(()) => {},
        }
        if self.access.is_frozen(&from) {
            return Err(TokenError::AccountFrozen);
        }
        match self.allowances.check_spend(&from, &spender, amount, now) {
            Err(e) => {
                return Err(TokenError::from_allowance(e));
            },
            Ok(()) => {},
        }
        match self.balances.check_move(&from, &to, amount) {
            Err(e) => {
                return Err(TokenError::from_ledger(e));
            },
            Ok(()) => {},
        }
        let _ = self.allowances.spend_allowance(&from, &spender, amount, now);
        let _ = self.balances.transfer(&from, &to, amount);
        Ok(())
    }

    /// Destroys `amount` of what `from` holds.
    pub fn burn(&mut self, auth: &Auth, from: Address, amount: i128) -> (r: Result<(), TokenError>)
        requires
            old(self).wf(),
            auth.covers(from),
        ensures
            final(self).wf(),
            r == burn_outcome(old(self)@, from, amount),
            r is Err ==> final(self)@ == old(self)@,
            r is Ok ==> final(self)@ == (TokenView {
                balances: debited(old(self)@.balances, from, amount),
                ..old(self)@
            }),
    {
        match check_nonnegative_amount(amount) {
            Err(e) => {
                return Err(e);
            },
            Ok(()) => {},
        }
        if self.access.is_frozen(&from) {
            return Err(TokenError::AccountFrozen);
        }
        match self.balances.debit(&from, amount) {
            Err(e) => Err(TokenError::from_ledger(e)),
            Ok(()) => Ok(()),
        }
    }

    /// Destroys `amount` of what `from` holds on behalf of `spender`, against
    /// what `from` lets `spender` spend.
    pub fn burn_from(&mut self, auth: &Auth, spender: Address, from: Address, amount: i128, now: u32) -> (r:
        Result<(), TokenError>)
        requires
            old(self).wf(),
            auth.covers(spender),
        ensures
            final(self).wf(),
            r == burn_from_outcome(old(self)@, spender, from, amount, now),
            r is Err ==> final(self)@ == old(self)@,
            r is Ok ==> final(self)@ == (TokenView {
                allowances: allowances_after_spend(
                    old(self)@.allowances,
                    spender,
                    from,
                    amount,
                    now,
                ),
                balances: debited(old(self)@.balances, from, amount),
                ..old(self)@
            }),
    {
        match check_nonnegative_amount(amount) {
            Err(e) => {
                return Err(e);
            },
            Ok(()) => {},
        }
        if self.access.is_frozen(&from) {
            return Err(TokenError::AccountFrozen);
        }
        match self.allowances.check_spend(&from, &spender, amount, now) {
            Err(e) => {
                return Err(TokenError::from_allowance(e));
            },
            Ok(()) => {},
        }
        if self.balances.balance_of(&from) < amount {
            return Err(TokenError::InsufficientBalance);
        }
        let _ = self.allowances.spend_allowance(&from, &spender, amount, now);
        let _ = self.balances.debit(&from, amount);
        Ok(())
    }

    /// Puts a schedule for `beneficiary` on record and credits custody with
    /// the amount to be released.
    pub fn create_vesting(
        &mut self,
        auth: &Auth,
        beneficiary: Address,
        total_amount: i128,
        start_ledger: u32,
        duration_ledgers: u32,
        vesting_type: VestingType,
        steps: u32,
        cliff_ledger: u32,
    ) -> (r: Result<(), VestingError>)
        requires
            old(self).wf(),
            old(self)@.admin matches Some(admin) && auth.covers(admin),
        ensures
            final(self).wf(),
            r == create_vesting_outcome(old(self)@, beneficiary, total_amount, duration_ledgers),
            r is Err ==> final(self)@ == old(self)@,
            r is Ok ==> final(self)@ == (TokenView {
                balances: credited(old(self)@.balances, old(self)@.custody, total_amount),
                schedules: old(self)@.schedules.insert(
                    beneficiary,
                    VestingSchedule {
                        beneficiary,
                        total_amount,
                        start_ledger,
                        duration_ledgers,
                        vesting_type,
                        claimed_amount: 0,
                        steps,
                        cliff_ledger,
                    },
                ),
                ..old(self)@
            }),
    {
        if total_amount <= 0 || duration_ledgers == 0 {
            return Err(VestingError::InvalidVestingParameters);
        }
        match crate::vesting::get_vesting_schedule(&self.vesting, &beneficiary) {
            Ok(_) => {
                return Err(VestingError::VestingScheduleAlreadyExists);
            },
            Err(_) => {},
        }
        match self.balances.credit(&self.custody, total_amount) {
            Err(e) => {
                return Err(VestingError::from_ledger(e));
            },
            Ok(()) => {},
        }
        crate::vesting::create_vesting_schedule(
            &mut self.vesting,
            beneficiary,
            total_amount,
            start_ledger,
            duration_ledgers,
            vesting_type,
            steps,
            cliff_ledger,
        )
    }

    /// Pays out to `beneficiary` what has vested at `now` and was not claimed
    /// before: the amount leaves custody, and the schedule counts it as
    /// claimed. Returns the amount paid. The release is the ledger's own act:
    /// no freeze flag is consulted, neither that of custody nor that of the
    /// beneficiary, who only receives.
    pub fn claim_vesting(&mut self, auth: &Auth, beneficiary: Address, now: u32) -> (r: Result<
        i128,
        VestingError,
    >)
        requires
            old(self).wf(),
            auth.covers(beneficiary),
        ensures
            final(self).wf(),
            r == claim_vesting_outcome(old(self)@, beneficiary, now),
            r is Err ==> final(self)@ == old(self)@,
            r matches Ok(paid) ==> {
                &&& paid > 0
                &&& paid == old(self)@.schedules[beneficiary].vested_at(now) - old(
                    self,
                )@.schedules[beneficiary].claimed_amount
                &&& final(self)@ == (TokenView {
                    balances: after_move(
                        old(self)@.balances,
                        old(self)@.custody,
                        beneficiary,
                        paid,
                    ),
                    schedules: crate::vesting::after_claim(
                        old(self)@.schedules,
                        beneficiary,
                        now,
                    ),
                    ..old(self)@
                })
            },
    {
        let claimable = match crate::vesting::claimable_amount(&self.vesting, &beneficiary, now) {
            Err(e) => {
                return Err(e);
            },
            Ok(claimable) => claimable,
        };
        match self.balances.check_move(&self.custody, &beneficiary, claimable) {
            Err(e) => {
                return Err(VestingError::from_ledger(e));
            },
            Ok(()) => {},
        }
        let _ = crate::vesting::claim_vested_tokens(&mut self.vesting, auth, beneficiary, now);
        let _ = self.balances.transfer(&self.custody, &beneficiary, claimable);
        Ok(claimable)
    }

    /// The schedule of `beneficiary`, as it stands.
    pub fn get_vesting_info(&self, beneficiary: Address) -> (r: Result<
        VestingSchedule,
        VestingError,
    >)
        requires
            self.wf(),
        ensures
            r == if self@.schedules.contains_key(beneficiary) {
                Ok::<VestingSchedule, VestingError>(self@.schedules[beneficiary])
            } else {
                Err::<VestingSchedule, VestingError>(VestingError::VestingScheduleDoesNotExist)
            },
    {
        crate::vesting::get_vesting_schedule(&self.vesting, &beneficiary)
    }

    /// The amount of the schedule of `beneficiary` that has vested at `now`.
    pub fn get_vested_amount(&self, beneficiary: Address, now: u32) -> (r: Result<
        i128,
        VestingError,
    >)
        requires
            self.wf(),
        ensures
            r == crate::vesting::vested_outcome(self@.schedules, beneficiary, now),
    {
        crate::vesting::calculate_vested_amount(&self.vesting, &beneficiary, now)
    }

    /// Whether a batch transfer of these lists from `from` comes to ask for
    /// the sender's authorization, so that the sender must have authorized
    /// the invocation.
    pub fn batch_needs_authorization(
        &self,
        from: Address,
        recipients: &Vec<Address>,
        amounts: &Vec<i128>,
    ) -> (r: bool)
        requires
            self.wf(),
        ensures
            r == needs_authorization(self@.frozen, from, recipients@, amounts@),
    {
        crate::batch::batch_needs_authorization(&self.access, &from, recipients, amounts)
    }

    /// Moves `amounts[i]` from `from` to `recipients[i]`, for every `i`, all
    /// of them or none.
    pub fn batch_transfer(
        &mut self,
        auth: &Auth,
        from: Address,
        recipients: Vec<Address>,
        amounts: Vec<i128>,
    ) -> (r: Result<(), BatchError>)
        requires
            old(self).wf(),
            needs_authorization(old(self)@.frozen, from, recipients@, amounts@) ==> auth.covers(
                from,
            ),
        ensures
            final(self).wf(),
            r == batch_outcome(
                old(self)@.balances,
                old(self)@.frozen,
                from,
                recipients@,
                amounts@,
            ),
            r is Err ==> final(self)@ == old(self)@,
            r is Ok ==> final(self)@ == (TokenView {
                balances: after_batch(
                    old(self)@.balances,
                    old(self)@.frozen,
                    from,
                    recipients@,
                    amounts@,
                ),
                ..old(self)@
            }),
    {
        crate::batch::batch_transfer(
            &mut self.balances,
            &self.access,
            auth,
            from,
            &recipients,
            &amounts,
        )
    }

    /// The id that a creation of a conditional transfer at `now` takes: the
    /// least id from the current tick on under which no transfer is on
    /// record; `None` where every id from the current tick on is taken.
    pub fn next_conditional_id(&self, now: u32) -> (r: Option<u32>)
        requires
            self.wf(),
        ensures
            match r {
                Some(id) => is_next_id(self@.transfers, now, id),
                None => !has_next_id(self@.transfers, now),
            },
    {
        self.conditional.next_id(now)
    }

    /// Puts a pending transfer of `amount` from `from` to `to` on record and
    /// returns its id: the least id from the current tick on under which no
    /// transfer is on record. No record is replaced and no balance changes.
    /// Refused where the amount is not positive, before the sender's
    /// authorization is asked for.
    pub fn create_conditional(
        &mut self,
        auth: &Auth,
        from: Address,
        to: Address,
        amount: i128,
        condition_type: ConditionType,
        expiration_ledger: u32,
        now: u32,
    ) -> (r: Result<u32, ConditionalError>)
        requires
            old(self).wf(),
            amount > 0 ==> auth.covers(from),
            amount > 0 ==> has_next_id(old(self)@.transfers, now),
        ensures
            final(self).wf(),
            amount <= 0 ==> r == Err::<u32, ConditionalError>(
                ConditionalError::InvalidTransferAmount,
            ) && final(self)@ == old(self)@,
            amount > 0 ==> r is Ok,
        r matches Ok(id) ==> {
                &&& is_next_id(old(self)@.transfers, now, id)
                &&& final(self)@ == (TokenView {
                    transfers: old(self)@.transfers.insert(
                        id,
                        ConditionalTransfer {
                            from,
                            to,
                            amount,
                            condition: condition_type,
                            executed: false,
                            expiration_ledger,
                        },
                    ),
                    ..old(self)@
                })
            },
            records_persist(old(self)@.transfers, final(self)@.transfers),
    {
        crate::conditional::create_conditional_transfer(
            &mut self.conditional,
            auth,
            from,
            to,
            amount,
            condition_type,
            expiration_ledger,
            now,
        )
    }

    /// The conditional transfer on record under `transfer_id`, if there is
    /// one.
    pub fn get_conditional(&self, transfer_id: u32) -> (r: Option<ConditionalTransfer>)
        requires
            self.wf(),
        ensures
            r == if self@.transfers.contains_key(transfer_id) {
                Some(self@.transfers[transfer_id])
            } else {
                None::<ConditionalTransfer>
            },
    {
        self.conditional.get(transfer_id)
    }

    /// Whether executing the transfer under `transfer_id` at `now` comes to
    /// rest on the approval of `approver`, who must then have authorized the
    /// invocation.
    pub fn awaits_approval(&self, transfer_id: u32, approver: &Option<Address>, now: u32) -> (r:
        bool)
        requires
            self.wf(),
        ensures
            r == (self@.transfers.contains_key(transfer_id) && self@.transfers[transfer_id].awaits(
                *approver,
                now,
            )),
    {
        self.conditional.awaits_approval(transfer_id, approver, now)
    }

    /// Executes the transfer under `transfer_id`: moves its amount and marks
    /// it executed, both or neither. A transfer whose sender is frozen is
    /// refused.
    pub fn execute_conditional(
        &mut self,
        auth: &Auth,
        transfer_id: u32,
        approver: Option<Address>,
        now: u32,
    ) -> (r: Result<(), ConditionalError>)
        requires
            old(self).wf(),
            old(self)@.transfers.contains_key(transfer_id) && old(
                self,
            )@.transfers[transfer_id].awaits(approver, now) ==> approver is Some && auth.covers(
                approver->Some_0,
            ),
        ensures
            final(self).wf(),
            r == execute_outcome(
                old(self)@.transfers,
                old(self)@.balances,
                old(self)@.frozen,
                transfer_id,
                approver,
                now,
            ),
            r is Err ==> final(self)@ == old(self)@,
            r is Ok ==> final(self)@ == (TokenView {
                transfers: transfers_after_execute(
                    old(self)@.transfers,
                    old(self)@.balances,
                    old(self)@.frozen,
                    transfer_id,
                    approver,
                    now,
                ),
                balances: balances_after_execute(
                    old(self)@.transfers,
                    old(self)@.balances,
                    old(self)@.frozen,
                    transfer_id,
                    approver,
                    now,
                ),
                ..old(self)@
            }),
            records_persist(old(self)@.transfers, final(self)@.transfers),
    {
        crate::conditional::execute_conditional_transfer(
            &mut self.conditional,
            &mut self.balances,
            &self.access,
            auth,
            transfer_id,
            approver,
            now,
        )
    }

    /// The number of decimals in which amounts are shown; 0 until the ledger
    /// is initialized.
    pub fn decimals(&self) -> (decimal: u32)
        ensures
            decimal == self@.decimal,
    {
        self.metadata.decimal
    }

    /// The name of the asset; empty until the ledger is initialized.
    pub fn name(&self) -> (name: String)
        ensures
            name@ == self@.name,
    {
        self.metadata.name.clone()
    }

    /// The symbol of the asset; empty until the ledger is initialized.
    pub fn symbol(&self) -> (symbol: String)
        ensures
            symbol@ == self@.symbol,
    {
        self.metadata.symbol.clone()
    }
}

} // verus!
