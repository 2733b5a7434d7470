use crate::address::Address;
use crate::store::{Key, Table};
use vstd::prelude::*;

verus! {

/// Why a delegated spend was refused.
#[derive(Clone, Copy, Debug, PartialEq, Eq, Structural)]
pub enum AllowanceError {
    /// The spender may spend less than the amount asked for.
    InsufficientAllowance,
    /// The allowance has passed its expiration.
    AllowanceExpired,
}

/// The pair that an allowance is recorded under.
#[derive(Clone, Copy, Debug, PartialEq, Eq)]
pub struct AllowanceKey {
    /// The holder whose funds may be spent.
    pub from: Address,
    /// The principal who may spend them.
    pub spender: Address,
}

impl Key for AllowanceKey {
    fn same(&self, other: &AllowanceKey) -> (r: bool) {
        self.from.same(&other.from) && self.spender.same(&other.spender)
    }
}

/// What a holder lets a spender spend, and until when.
#[derive(Clone, Copy, Debug, PartialEq, Eq, Structural)]
pub struct AllowanceValue {
    pub amount: i128,
    pub expiration_ledger: u32,
}

/// Whether `allowance` has passed its expiration at `now`. An allowance of
/// nothing has nothing that could expire.
pub open spec fn has_expired(allowance: AllowanceValue, now: u32) -> bool {
    allowance.amount > 0 && now > allowance.expiration_ledger
}

/// What `allowance` lets the spender spend at `now`: the recorded amount, and
/// nothing once it has expired.
pub open spec fn spendable(allowance: AllowanceValue, now: u32) -> i128 {
    if has_expired(allowance, now) {
        0
    } else {
        allowance.amount
    }
}

/// What a spend of `amount` at `now` against `allowance` returns: refused
/// where the recorded amount is less, and refused, whatever the amount, where
/// the allowance has expired.
pub open spec fn spend_outcome(allowance: AllowanceValue, amount: i128, now: u32) -> Result<
    (),
    AllowanceError,
> {
    if allowance.amount < amount {
        Err(AllowanceError::InsufficientAllowance)
    } else if has_expired(allowance, now) {
        Err(AllowanceError::AllowanceExpired)
    } else {
        Ok(())
    }
}

/// The allowance as a spend of `amount` at `now` leaves it.
pub open spec fn after_spend(allowance: AllowanceValue, amount: i128, now: u32) -> AllowanceValue {
    if spend_outcome(allowance, amount, now) is Ok {
        AllowanceValue { amount: (allowance.amount - amount) as i128, ..allowance }
    } else {
        allowance
    }
}

/// Whether no allowance is negative.
pub open spec fn allowances_valid(allowances: Map<AllowanceKey, AllowanceValue>) -> bool {
    forall|pair: AllowanceKey| #[trigger] allowances[pair].amount >= 0
}

/// The allowances that holders have granted. A pair never seen has an
/// allowance of nothing.
pub struct Allowances {
    records: Table<AllowanceKey, AllowanceValue>,
}

impl View for Allowances {
    type V = Map<AllowanceKey, AllowanceValue>;

    closed spec fn view(&self) -> Map<AllowanceKey, AllowanceValue> {
        Map::total(
            |pair: AllowanceKey|
                if self.records@.contains_key(pair) {
                    self.records@[pair]
                } else {
                    AllowanceValue { amount: 0, expiration_ledger: 0 }
                },
        )
    }
}

impl Allowances {
    /// No allowance is negative.
    pub closed spec fn wf(&self) -> bool {
        &&& self.records.wf()
        &&& forall|pair: AllowanceKey| #[trigger]
            self.records@.contains_key(pair) ==> self.records@[pair].amount >= 0
    }

    /// In a well-formed record no allowance is negative.
    pub proof fn lemma_never_negative(&self)
        requires
            self.wf(),
        ensures
            allowances_valid(self@),
    {
    }

    /// No allowance granted.
    pub fn new() -> (a: Allowances)
        ensures
            a.wf(),
            forall|pair: AllowanceKey| #[trigger]
                a@[pair] == (AllowanceValue { amount: 0, expiration_ledger: 0 }),
    {
        Allowances { records: Table::new() }
    }

    /// What `from` lets `spender` spend, as recorded; an expired record is
    /// reported as it stands.
    pub fn read_allowance(&self, from: &Address, spender: &Address) -> (allowance: AllowanceValue)
        requires
            self.wf(),
        ensures
            allowance == self@[AllowanceKey { from: *from, spender: *spender }],
            allowance.amount >= 0,
    {
        match self.records.get(&AllowanceKey { from: *from, spender: *spender }) {
            Some(allowance) => allowance,
            None => AllowanceValue { amount: 0, expiration_ledger: 0 },
        }
    }

    /// Records that `from` lets `spender` spend `amount` until
    /// `expiration_ledger`, replacing what was recorded for the pair.
    pub fn write_allowance(
        &mut self,
        from: &Address,
        spender: &Address,
        amount: i128,
        expiration_ledger: u32,
    )
        requires
            old(self).wf(),
            amount >= 0,
        ensures
            final(self).wf(),
            final(self)@ == old(self)@.insert(
                AllowanceKey { from: *from, spender: *spender },
                AllowanceValue { amount, expiration_ledger },
            ),
    {
        let pair = AllowanceKey { from: *from, spender: *spender };
        self.records.set(pair, AllowanceValue { amount, expiration_ledger });
        assert(self@ =~= old(self)@.insert(pair, AllowanceValue { amount, expiration_ledger }));
    }

    /// What a spend of `amount` by `spender` from the funds of `from` would
    /// return at `now`, without recording anything.
    pub fn check_spend(&self, from: &Address, spender: &Address, amount: i128, now: u32) -> (r:
        Result<(), AllowanceError>)
        requires
            self.wf(),
            amount >= 0,
        ensures
            r == spend_outcome(self@[AllowanceKey { from: *from, spender: *spender }], amount, now),
    {
        let allowance = self.read_allowance(from, spender);
        if allowance.amount < amount {
            Err(AllowanceError::InsufficientAllowance)
        } else if allowance.amount > 0 && now > allowance.expiration_ledger {
            Err(AllowanceError::AllowanceExpired)
        } else {
            Ok(())
        }
    }

    /// What `from` lets `spender` spend at `now`: the recorded amount, and
    /// nothing once the allowance has expired.
    pub fn spendable_at(&self, from: &Address, spender: &Address, now: u32) -> (amount: i128)
        requires
            self.wf(),
        ensures
            amount == spendable(self@[AllowanceKey { from: *from, spender: *spender }], now),
            amount >= 0,
    {
        let allowance = self.read_allowance(from, spender);
        if allowance.amount > 0 && now > allowance.expiration_ledger {
            0
        } else {
            allowance.amount
        }
    }

    /// Spends `amount` of what `from` lets `spender` spend. The recorded
    /// amount shrinks by `amount`, or, where the spend is refused, stays.
    pub fn spend_allowance(&mut self, from: &Address, spender: &Address, amount: i128, now: u32) -> (r:
        Result<(), AllowanceError>)
        requires
            old(self).wf(),
            amount >= 0,
        ensures
            final(self).wf(),
            r == spend_outcome(
                old(self)@[AllowanceKey { from: *from, spender: *spender }],
                amount,
                now,
            ),
            final(self)@ == old(self)@.insert(
                AllowanceKey { from: *from, spender: *spender },
                after_spend(
                    old(self)@[AllowanceKey { from: *from, spender: *spender }],
                    amount,
                    now,
                ),
            ),
    {
        let pair = AllowanceKey { from: *from, spender: *spender };
        let allowance = self.read_allowance(from, spender);
        match self.check_spend(from, spender, amount, now) {
            Err(e) => {
                assert(self@ =~= old(self)@.insert(pair, allowance));
                Err(e)
            },
            Ok(()) => {
                let left = AllowanceValue { amount: allowance.amount - amount, ..allowance };
                self.records.set(pair, left);
                assert(self@ =~= old(self)@.insert(pair, left));
                Ok(())
            },
        }
    }
}

} // verus!
