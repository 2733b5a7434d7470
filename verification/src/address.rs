use crate::store::Key;
use vstd::prelude::*;

verus! {

/// Number of characters in the textual key that identifies a principal.
pub const ADDRESS_LEN: usize = 56;

/// A principal of the ledger: a holder, a spender, an administrator or the
/// ledger's own custody account. Two addresses denote the same principal
/// exactly when their keys agree character by character.
#[derive(Clone, Copy, Debug, PartialEq, Eq)]
pub struct Address {
    pub key: [u8; ADDRESS_LEN],
}

impl Address {
    /// The address with the given textual key.
    pub fn new(key: [u8; ADDRESS_LEN]) -> (a: Address)
        ensures
            a.key == key,
    {
        Address { key }
    }

    /// Whether two addresses denote the same principal.
    pub fn same(&self, other: &Address) -> (r: bool)
        ensures
            r == (*self == *other),
    {
        let mut i: usize = 0;
        while i < ADDRESS_LEN
            invariant
                i <= ADDRESS_LEN,
                forall|j: int| 0 <= j < i ==> self.key[j] == other.key[j],
            decreases ADDRESS_LEN - i,
        {
            if self.key[i] != other.key[i] {
                return false;
            }
            i = i + 1;
        }
        assert(self.key =~= other.key);
        true
    }
}

impl Key for Address {
    fn same(&self, other: &Address) -> (r: bool) {
        Address::same(self, other)
    }
}

/// Failure of the authorization gate.
#[derive(Clone, Copy, Debug, PartialEq, Eq, Structural)]
pub enum AccessError {
    /// The principal has not authorized the invocation.
    NotAuthorized,
}

/// The principals that have authorized the current invocation. Every
/// operation that acts for a principal demands that it is among them.
pub struct Auth {
    signers: Vec<Address>,
}

impl Auth {
    /// Whether `who` has authorized the invocation.
    pub closed spec fn covers(&self, who: Address) -> bool {
        self.signers@.contains(who)
    }

    /// An invocation that nobody has authorized.
    pub fn none() -> (auth: Auth)
        ensures
            forall|who: Address| !auth.covers(who),
    {
        Auth { signers: Vec::new() }
    }

    /// An invocation authorized by `signer` alone.
    pub fn of(signer: Address) -> (auth: Auth)
        ensures
            forall|who: Address| auth.covers(who) <==> who == signer,
    {
        let mut signers: Vec<Address> = Vec::new();
        signers.push(signer);
        let auth = Auth { signers };
        assert(auth.signers@[0] == signer);
        auth
    }

    /// The same invocation, authorized by `signer` as well.
    pub fn and(self, signer: Address) -> (auth: Auth)
        ensures
            forall|who: Address| auth.covers(who) <==> (self.covers(who) || who == signer),
    {
        let mut signers = self.signers;
        signers.push(signer);
        let auth = Auth { signers };
        proof {
            assert(auth.signers@ == self.signers@.push(signer));
            assert forall|who: Address| auth.covers(who) <==> (self.covers(who) || who
                == signer) by {
                if self.covers(who) {
                    let i = choose|i: int|
                        0 <= i < self.signers@.len() && self.signers@[i] == who;
                    assert(auth.signers@[i] == who);
                }
                if who == signer {
                    assert(auth.signers@[self.signers@.len() as int] == who);
                }
            }
        }
        auth
    }

    /// The authorization gate: passes exactly when `who` has authorized the
    /// invocation.
    pub fn authorize(&self, who: &Address) -> (r: Result<(), AccessError>)
        ensures
            r == if self.covers(*who) {
                Ok::<(), AccessError>(())
            } else {
                Err::<(), AccessError>(AccessError::NotAuthorized)
            },
    {
        let mut i: usize = 0;
        while i < self.signers.len()
            invariant
                i <= self.signers@.len(),
                forall|j: int| 0 <= j < i ==> self.signers@[j] != *who,
            decreases self.signers@.len() - i,
        {
            if self.signers[i].same(who) {
                return Ok(());
            }
            i = i + 1;
        }
        Err(AccessError::NotAuthorized)
    }
}

} // verus!
