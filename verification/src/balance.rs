use crate::address::Address;
use crate::store::Table;
use vstd::prelude::*;

verus! {

/// Why the ledger refused to move funds.
#[derive(Clone, Copy, Debug, PartialEq, Eq, Structural)]
pub enum LedgerError {
    /// The holder has less than the amount asked for.
    InsufficientBalance,
    /// The receiving balance would leave the range of amounts.
    Overflow,
}

/// The balances as a debit of `amount` from `who` leaves them.
pub open spec fn debited(balances: Map<Address, i128>, who: Address, amount: i128) -> Map<
    Address,
    i128,
> {
    balances.insert(who, (balances[who] - amount) as i128)
}

/// The balances as a credit of `amount` to `who` leaves them.
pub open spec fn credited(balances: Map<Address, i128>, who: Address, amount: i128) -> Map<
    Address,
    i128,
> {
    balances.insert(who, (balances[who] + amount) as i128)
}

/// Whether `who` holds at least `amount`.
pub open spec fn can_debit(balances: Map<Address, i128>, who: Address, amount: i128) -> bool {
    balances[who] >= amount
}

/// Whether `who` can receive `amount` within the range of amounts.
pub open spec fn can_credit(balances: Map<Address, i128>, who: Address, amount: i128) -> bool {
    balances[who] + amount <= i128::MAX
}

/// What moving `amount` from `from` to `to` returns.
pub open spec fn move_outcome(
    balances: Map<Address, i128>,
    from: Address,
    to: Address,
    amount: i128,
) -> Result<(), LedgerError> {
    if !can_debit(balances, from, amount) {
        Err(LedgerError::InsufficientBalance)
    } else if !can_credit(debited(balances, from, amount), to, amount) {
        Err(LedgerError::Overflow)
    } else {
        Ok(())
    }
}

/// The balances as moving `amount` from `from` to `to` leaves them: changed
/// where the move succeeds, untouched where it is refused.
pub open spec fn after_move(
    balances: Map<Address, i128>,
    from: Address,
    to: Address,
    amount: i128,
) -> Map<Address, i128> {
    if move_outcome(balances, from, to, amount) is Ok {
        credited(debited(balances, from, amount), to, amount)
    } else {
        balances
    }
}

/// Whether no balance is negative.
pub open spec fn balances_valid(balances: Map<Address, i128>) -> bool {
    forall|who: Address| #[trigger] balances[who] >= 0
}

/// Crediting an amount that is not negative, where it fits, leaves no
/// balance negative.
pub proof fn lemma_credit_keeps_valid(balances: Map<Address, i128>, who: Address, amount: i128)
    requires
        balances_valid(balances),
        amount >= 0,
        can_credit(balances, who, amount),
    ensures
        balances_valid(credited(balances, who, amount)),
{
    assert forall|other: Address| #[trigger] credited(balances, who, amount)[other] >= 0 by {
        assert(balances[other] >= 0);
        assert(balances[who] >= 0);
    }
}

/// Debiting an amount that the holder has leaves no balance negative.
pub proof fn lemma_debit_keeps_valid(balances: Map<Address, i128>, who: Address, amount: i128)
    requires
        balances_valid(balances),
        amount >= 0,
        can_debit(balances, who, amount),
    ensures
        balances_valid(debited(balances, who, amount)),
{
    assert forall|other: Address| #[trigger] debited(balances, who, amount)[other] >= 0 by {
        assert(balances[other] >= 0);
        assert(balances[who] >= 0);
    }
}

/// A move leaves no balance negative, whether it succeeds or is refused; a
/// move of more than the sender holds is refused for want of funds and
/// changes nothing.
pub proof fn lemma_move_keeps_valid(
    balances: Map<Address, i128>,
    from: Address,
    to: Address,
    amount: i128,
)
    requires
        balances_valid(balances),
        amount >= 0,
    ensures
        balances_valid(after_move(balances, from, to, amount)),
        balances[from] < amount ==> move_outcome(balances, from, to, amount) == Err::<
            (),
            LedgerError,
        >(LedgerError::InsufficientBalance) && after_move(balances, from, to, amount) == balances,
{
    if move_outcome(balances, from, to, amount) is Ok {
        lemma_debit_keeps_valid(balances, from, amount);
        lemma_credit_keeps_valid(debited(balances, from, amount), to, amount);
    }
}

/// The balance of every holder. A holder never seen holds nothing.
pub struct Balances {
    accounts: Table<Address, i128>,
}

impl View for Balances {
    type V = Map<Address, i128>;

    closed spec fn view(&self) -> Map<Address, i128> {
        Map::total(
            |who: Address|
                if self.accounts@.contains_key(who) {
                    self.accounts@[who]
                } else {
                    0i128
                },
        )
    }
}

impl Balances {
    /// No balance is negative.
    pub closed spec fn wf(&self) -> bool {
        &&& self.accounts.wf()
        &&& forall|who: Address| #[trigger]
            self.accounts@.contains_key(who) ==> self.accounts@[who] >= 0
    }

    /// In a well-formed ledger no balance is negative.
    pub proof fn lemma_never_negative(&self)
        requires
            self.wf(),
        ensures
            balances_valid(self@),
    {
    }

    /// A ledger in which nobody holds anything.
    pub fn new() -> (b: Balances)
        ensures
            b.wf(),
            forall|who: Address| #[trigger] b@[who] == 0,
            balances_valid(b@),
    {
        Balances { accounts: Table::new() }
    }

    /// What `who` holds.
    pub fn balance_of(&self, who: &Address) -> (amount: i128)
        requires
            self.wf(),
        ensures
            amount == self@[*who],
            amount >= 0,
    {
        match self.accounts.get(who) {
            Some(amount) => amount,
            None => 0,
        }
    }

    /// Adds `amount` to what `who` holds, unless the sum leaves the range of
    /// amounts.
    pub fn credit(&mut self, who: &Address, amount: i128) -> (r: Result<(), LedgerError>)
        requires
            old(self).wf(),
            amount >= 0,
        ensures
            final(self).wf(),
            can_credit(old(self)@, *who, amount) ==> r == Ok::<(), LedgerError>(()) && final(self)@
                == credited(old(self)@, *who, amount),
            !can_credit(old(self)@, *who, amount) ==> r == Err::<(), LedgerError>(
                LedgerError::Overflow,
            ) && final(self)@ == old(self)@,
    {
        let held = self.balance_of(who);
        if amount > i128::MAX - held {
            return Err(LedgerError::Overflow);
        }
        self.accounts.set(*who, held + amount);
        assert(self@ =~= credited(old(self)@, *who, amount));
        Ok(())
    }

    /// Takes `amount` from what `who` holds, unless `who` holds less.
    pub fn debit(&mut self, who: &Address, amount: i128) -> (r: Result<(), LedgerError>)
        requires
            old(self).wf(),
            amount >= 0,
        ensures
            final(self).wf(),
            can_debit(old(self)@, *who, amount) ==> r == Ok::<(), LedgerError>(()) && final(self)@
                == debited(old(self)@, *who, amount),
            !can_debit(old(self)@, *who, amount) ==> r == Err::<(), LedgerError>(
                LedgerError::InsufficientBalance,
            ) && final(self)@ == old(self)@,
    {
        let held = self.balance_of(who);
        if held < amount {
            return Err(LedgerError::InsufficientBalance);
        }
        self.accounts.set(*who, held - amount);
        assert(self@ =~= debited(old(self)@, *who, amount));
        Ok(())
    }

    /// What moving `amount` from `from` to `to` would return, without moving
    /// anything.
    pub fn check_move(&self, from: &Address, to: &Address, amount: i128) -> (r: Result<
        (),
        LedgerError,
    >)
        requires
            self.wf(),
            amount >= 0,
        ensures
            r == move_outcome(self@, *from, *to, amount),
    {
        let held = self.balance_of(from);
        if held < amount {
            return Err(LedgerError::InsufficientBalance);
        }
        if !from.same(to) {
            let target = self.balance_of(to);
            if amount > i128::MAX - target {
                return Err(LedgerError::Overflow);
            }
        }
        Ok(())
    }

    /// Moves `amount` from `from` to `to`. Either both balances change or,
    /// where the move is refused, neither does.
    pub fn transfer(&mut self, from: &Address, to: &Address, amount: i128) -> (r: Result<
        (),
        LedgerError,
    >)
        requires
            old(self).wf(),
            amount >= 0,
        ensures
            final(self).wf(),
            r == move_outcome(old(self)@, *from, *to, amount),
            final(self)@ == after_move(old(self)@, *from, *to, amount),
    {
        match self.check_move(from, to, amount) {
            Err(e) => Err(e),
            Ok(()) => {
                let _ = self.debit(from, amount);
                let _ = self.credit(to, amount);
                Ok(())
            },
        }
    }

    /// A second ledger with the same balances.
    pub fn duplicate(&self) -> (b: Balances)
        requires
            self.wf(),
        ensures
            b.wf(),
            b@ == self@,
    {
        let b = Balances { accounts: self.accounts.duplicate() };
        assert(b@ =~= self@);
        b
    }
}

} // verus!
