use crate::address::Address;
use crate::store::Table;
use vstd::prelude::*;

verus! {

/// The administrator and the frozen accounts, as contracts speak of them.
pub ghost struct AccessView {
    /// The administrator, once the ledger is initialized.
    pub admin: Option<Address>,
    /// The accounts that may not spend.
    pub frozen: Set<Address>,
}

/// Who administers the ledger, and which accounts are frozen.
pub struct AccessControl {
    admin: Option<Address>,
    flags: Table<Address, bool>,
}

impl View for AccessControl {
    type V = AccessView;

    closed spec fn view(&self) -> AccessView {
        AccessView {
            admin: self.admin,
            frozen: Set::new(|who: Address| self.flags@.contains_key(who) && self.flags@[who]),
        }
    }
}

impl AccessControl {
    /// The records are consistent.
    pub closed spec fn wf(&self) -> bool {
        self.flags.wf()
    }

    /// No administrator and no frozen account.
    pub fn new() -> (access: AccessControl)
        ensures
            access.wf(),
            access@.admin == None::<Address>,
            access@.frozen == Set::<Address>::empty(),
    {
        let access = AccessControl { admin: None, flags: Table::new() };
        assert(access@.frozen =~= Set::<Address>::empty());
        access
    }

    /// Whether an administrator has been set.
    pub fn has_administrator(&self) -> (r: bool)
        ensures
            r == self@.admin.is_some(),
    {
        self.admin.is_some()
    }

    /// The administrator.
    pub fn read_administrator(&self) -> (admin: Address)
        requires
            self@.admin.is_some(),
        ensures
            self@.admin == Some(admin),
    {
        self.admin.unwrap()
    }

    /// Makes `admin` the administrator.
    pub fn write_administrator(&mut self, admin: &Address)
        requires
            old(self).wf(),
        ensures
            final(self).wf(),
            final(self)@ == (AccessView { admin: Some(*admin), ..old(self)@ }),
    {
        self.admin = Some(*admin);
        assert(self@.frozen =~= old(self)@.frozen);
    }

    /// Whether `account` is frozen.
    pub fn is_frozen(&self, account: &Address) -> (r: bool)
        requires
            self.wf(),
        ensures
            r == self@.frozen.contains(*account),
    {
        match self.flags.get(account) {
            Some(flag) => flag,
            None => false,
        }
    }

    /// Freezes `account`. Freezing a frozen account changes nothing.
    pub fn freeze(&mut self, account: &Address)
        requires
            old(self).wf(),
        ensures
            final(self).wf(),
            final(self)@ == (AccessView {
                frozen: old(self)@.frozen.insert(*account),
                ..old(self)@
            }),
    {
        self.flags.set(*account, true);
        assert(self@.frozen =~= old(self)@.frozen.insert(*account));
    }

    /// Lifts the freeze on `account`. Unfreezing an account that is not frozen
    /// changes nothing.
    pub fn unfreeze(&mut self, account: &Address)
        requires
            old(self).wf(),
        ensures
            final(self).wf(),
            final(self)@ == (AccessView {
                frozen: old(self)@.frozen.remove(*account),
                ..old(self)@
            }),
    {
        self.flags.remove(account);
        assert(self@.frozen =~= old(self)@.frozen.remove(*account));
    }
}

/// Whether `account` is barred from spending.
pub fn is_account_frozen(access: &AccessControl, account: &Address) -> (r: bool)
    requires
        access.wf(),
    ensures
        r == access@.frozen.contains(*account),
{
    access.is_frozen(account)
}

} // verus!
