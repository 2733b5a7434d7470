use crate::address::{Address, Auth};
use crate::admin::AccessControl;
use crate::balance::{
    balances_valid, can_credit, credited, debited, lemma_credit_keeps_valid,
    lemma_debit_keeps_valid, Balances,
};
use vstd::prelude::*;

verus! {

/// Why a batch transfer was refused.
#[derive(Clone, Copy, Debug, PartialEq, Eq, Structural)]
pub enum BatchError {
    /// No recipient was named.
    EmptyRecipientsList,
    /// No amount was given.
    EmptyAmountsList,
    /// There are not as many amounts as recipients.
    ListLengthMismatch,
    /// The sender holds less than the amounts in sum.
    InsufficientBalance,
    /// The sender is frozen.
    AccountFrozen,
    /// One of the amounts is negative.
    NegativeAmount,
    /// A receiving balance would leave the range of amounts.
    Overflow,
}

impl BatchError {
    /// The numeric code under which the failure is reported.
    pub fn code(&self) -> (c: u32)
        ensures
            c == match *self {
                BatchError::EmptyRecipientsList => 1u32,
                BatchError::EmptyAmountsList => 2u32,
                BatchError::ListLengthMismatch => 3u32,
                BatchError::InsufficientBalance => 4u32,
                BatchError::AccountFrozen => 5u32,
                BatchError::NegativeAmount => 6u32,
                BatchError::Overflow => 7u32,
            },
    {
        match self {
            BatchError::EmptyRecipientsList => 1,
            BatchError::EmptyAmountsList => 2,
            BatchError::ListLengthMismatch => 3,
            BatchError::InsufficientBalance => 4,
            BatchError::AccountFrozen => 5,
            BatchError::NegativeAmount => 6,
            BatchError::Overflow => 7,
        }
    }
}

/// The sum of the amounts.
pub open spec fn total_of(amounts: Seq<i128>) -> int
    decreases amounts.len(),
{
    if amounts.len() == 0 {
        0
    } else {
        total_of(amounts.drop_last()) + amounts.last()
    }
}

/// Whether one of the amounts is negative.
pub open spec fn has_negative(amounts: Seq<i128>) -> bool {
    exists|i: int| 0 <= i < amounts.len() && amounts[i] < 0
}

/// The balances after each recipient was credited with its amount, in order;
/// `None` where one of the credits would leave the range of amounts.
pub open spec fn credit_each(
    balances: Map<Address, i128>,
    recipients: Seq<Address>,
    amounts: Seq<i128>,
) -> Option<Map<Address, i128>>
    recommends
        recipients.len() == amounts.len(),
    decreases recipients.len(),
{
    if recipients.len() == 0 {
        Some(balances)
    } else if !can_credit(balances, recipients[0], amounts[0]) {
        None
    } else {
        credit_each(
            credited(balances, recipients[0], amounts[0]),
            recipients.drop_first(),
            amounts.drop_first(),
        )
    }
}

/// What a batch transfer returns.
pub open spec fn batch_outcome(
    balances: Map<Address, i128>,
    frozen: Set<Address>,
    from: Address,
    recipients: Seq<Address>,
    amounts: Seq<i128>,
) -> Result<(), BatchError> {
    if recipients.len() == 0 {
        Err(BatchError::EmptyRecipientsList)
    } else if amounts.len() == 0 {
        Err(BatchError::EmptyAmountsList)
    } else if recipients.len() != amounts.len() {
        Err(BatchError::ListLengthMismatch)
    } else if frozen.contains(from) {
        Err(BatchError::AccountFrozen)
    } else if has_negative(amounts) {
        Err(BatchError::NegativeAmount)
    } else if balances[from] < total_of(amounts) {
        Err(BatchError::InsufficientBalance)
    } else if credit_each(
        debited(balances, from, total_of(amounts) as i128),
        recipients,
        amounts,
    ) is None {
        Err(BatchError::Overflow)
    } else {
        Ok(())
    }
}

/// The balances as a batch transfer leaves them: the sender debited once by
/// the sum and every recipient credited with its amount, or, where the batch
/// is refused, nothing changed.
pub open spec fn after_batch(
    balances: Map<Address, i128>,
    frozen: Set<Address>,
    from: Address,
    recipients: Seq<Address>,
    amounts: Seq<i128>,
) -> Map<Address, i128> {
    if batch_outcome(balances, frozen, from, recipients, amounts) is Ok {
        credit_each(
            debited(balances, from, total_of(amounts) as i128),
            recipients,
            amounts,
        )->Some_0
    } else {
        balances
    }
}

/// Where no amount is negative, the sum of the first `n` amounts is not
/// negative and does not pass the sum of all.
pub proof fn lemma_total_of_prefix(amounts: Seq<i128>, n: int)
    requires
        !has_negative(amounts),
        0 <= n <= amounts.len(),
    ensures
        0 <= total_of(amounts.subrange(0, n)) <= total_of(amounts),
    decreases amounts.len() - n,
{
    if n == amounts.len() {
        assert(amounts.subrange(0, n) =~= amounts);
        lemma_total_of_nonnegative(amounts);
    } else {
        lemma_total_of_prefix(amounts, n + 1);
        assert(amounts.subrange(0, n + 1).drop_last() =~= amounts.subrange(0, n));
        assert(amounts.subrange(0, n + 1).last() == amounts[n]);
        assert(!has_negative(amounts.subrange(0, n))) by {
            if has_negative(amounts.subrange(0, n)) {
                let i = choose|i: int|
                    0 <= i < amounts.subrange(0, n).len() && amounts.subrange(0, n)[i] < 0;
                assert(amounts[i] < 0);
            }
        }
        lemma_total_of_nonnegative(amounts.subrange(0, n));
    }
}

/// Where no amount is negative, neither is the sum.
pub proof fn lemma_total_of_nonnegative(amounts: Seq<i128>)
    requires
        !has_negative(amounts),
    ensures
        0 <= total_of(amounts),
    decreases amounts.len(),
{
    if amounts.len() > 0 {
        assert(!has_negative(amounts.drop_last())) by {
            if has_negative(amounts.drop_last()) {
                let i = choose|i: int|
                    0 <= i < amounts.drop_last().len() && amounts.drop_last()[i] < 0;
                assert(amounts[i] < 0);
            }
        }
        lemma_total_of_nonnegative(amounts.drop_last());
        assert(amounts[amounts.len() - 1] >= 0);
    }
}

/// Crediting recipients with amounts that are not negative leaves no balance
/// negative.
pub proof fn lemma_credit_each_keeps_valid(
    balances: Map<Address, i128>,
    recipients: Seq<Address>,
    amounts: Seq<i128>,
)
    requires
        balances_valid(balances),
        recipients.len() == amounts.len(),
        !has_negative(amounts),
    ensures
        credit_each(balances, recipients, amounts) matches Some(after) ==> balances_valid(after),
    decreases recipients.len(),
{
    if recipients.len() > 0 && can_credit(balances, recipients[0], amounts[0]) {
        assert(amounts[0] >= 0);
        lemma_credit_keeps_valid(balances, recipients[0], amounts[0]);
        assert(!has_negative(amounts.drop_first())) by {
            if has_negative(amounts.drop_first()) {
                let i = choose|i: int|
                    0 <= i < amounts.drop_first().len() && amounts.drop_first()[i] < 0;
                assert(amounts[i + 1] < 0);
            }
        }
        lemma_credit_each_keeps_valid(
            credited(balances, recipients[0], amounts[0]),
            recipients.drop_first(),
            amounts.drop_first(),
        );
    }
}

/// A batch transfer leaves no balance negative, whether it succeeds or is
/// refused, and a refused one changes nothing: in particular one with a
/// negative amount, and one whose amounts come to more than the sender holds.
pub proof fn lemma_batch_all_or_nothing(
    balances: Map<Address, i128>,
    frozen: Set<Address>,
    from: Address,
    recipients: Seq<Address>,
    amounts: Seq<i128>,
)
    requires
        balances_valid(balances),
    ensures
        balances_valid(after_batch(balances, frozen, from, recipients, amounts)),
        batch_outcome(balances, frozen, from, recipients, amounts) is Err ==> after_batch(
            balances,
            frozen,
            from,
            recipients,
            amounts,
        ) == balances,
        0 < recipients.len() == amounts.len() && !frozen.contains(from) && has_negative(amounts)
            ==> batch_outcome(balances, frozen, from, recipients, amounts) == Err::<
            (),
            BatchError,
        >(BatchError::NegativeAmount),
        0 < recipients.len() == amounts.len() && !frozen.contains(from) && !has_negative(amounts)
            && balances[from] < total_of(amounts) ==> batch_outcome(
            balances,
            frozen,
            from,
            recipients,
            amounts,
        ) == Err::<(), BatchError>(BatchError::InsufficientBalance),
{
    if batch_outcome(balances, frozen, from, recipients, amounts) is Ok {
        lemma_total_of_nonnegative(amounts);
        assert(balances[from] >= 0);
        lemma_debit_keeps_valid(balances, from, total_of(amounts) as i128);
        lemma_credit_each_keeps_valid(
            debited(balances, from, total_of(amounts) as i128),
            recipients,
            amounts,
        );
    }
}

/// Whether a batch transfer comes to ask for the sender's authorization:
/// there is at least one recipient, there are as many amounts as recipients,
/// and the sender is not frozen. A batch that is refused before that point is
/// refused whoever calls.
pub open spec fn needs_authorization(
    frozen: Set<Address>,
    from: Address,
    recipients: Seq<Address>,
    amounts: Seq<i128>,
) -> bool {
    &&& recipients.len() > 0
    &&& amounts.len() == recipients.len()
    &&& !frozen.contains(from)
}

/// Whether a batch transfer of these lists from `from` comes to ask for the
/// sender's authorization, so that the sender must have authorized the
/// invocation.
pub fn batch_needs_authorization(
    access: &AccessControl,
    from: &Address,
    recipients: &Vec<Address>,
    amounts: &Vec<i128>,
) -> (r: bool)
    requires
        access.wf(),
    ensures
        r == needs_authorization(access@.frozen, *from, recipients@, amounts@),
{
    recipients.len() > 0 && amounts.len() == recipients.len() && !access.is_frozen(from)
}

/// Moves `amounts[i]` from `from` to `recipients[i]`, for every `i`, as one
/// unit: the sender is debited once by the sum, then the recipients are
/// credited in order. Where the batch is refused, no balance changes. The
/// lists and the sender's freeze flag are looked at before the sender's
/// authorization is asked for.
#[verifier::loop_isolation(false)]
pub fn batch_transfer(
    balances: &mut Balances,
    access: &AccessControl,
    auth: &Auth,
    from: Address,
    recipients: &Vec<Address>,
    amounts: &Vec<i128>,
) -> (r: Result<(), BatchError>)
    requires
        old(balances).wf(),
        access.wf(),
        needs_authorization(access@.frozen, from, recipients@, amounts@) ==> auth.covers(from),
    ensures
        final(balances).wf(),
        r == batch_outcome(old(balances)@, access@.frozen, from, recipients@, amounts@),
        final(balances)@ == after_batch(
            old(balances)@,
            access@.frozen,
            from,
            recipients@,
            amounts@,
        ),
        r is Err ==> final(balances)@ == old(balances)@,
{
    if recipients.len() == 0 {
        return Err(BatchError::EmptyRecipientsList);
    }
    if amounts.len() == 0 {
        return Err(BatchError::EmptyAmountsList);
    }
    if recipients.len() != amounts.len() {
        return Err(BatchError::ListLengthMismatch);
    }
    if access.is_frozen(&from) {
        return Err(BatchError::AccountFrozen);
    }
    let n = amounts.len();
    let mut i: usize = 0;
    while i < n
        invariant
            n == amounts@.len(),
            i <= n,
            forall|j: int| 0 <= j < i ==> amounts@[j] >= 0,
        decreases n - i,
    {
        if amounts[i] < 0 {
            return Err(BatchError::NegativeAmount);
        }
        i = i + 1;
    }
    assert(!has_negative(amounts@));
    let sender_balance = balances.balance_of(&from);
    let mut total_amount: i128 = 0;
    i = 0;
    while i < n
        invariant
            n == amounts@.len(),
            i <= n,
            !has_negative(amounts@),
            total_amount == total_of(amounts@.subrange(0, i as int)),
            0 <= total_amount <= sender_balance,
        decreases n - i,
    {
        proof {
            lemma_total_of_prefix(amounts@, i + 1);
            assert(amounts@.subrange(0, i + 1).drop_last() =~= amounts@.subrange(0, i as int));
            assert(amounts@.subrange(0, i + 1).last() == amounts@[i as int]);
        }
        if amounts[i] > sender_balance - total_amount {
            return Err(BatchError::InsufficientBalance);
        }
        total_amount = total_amount + amounts[i];
        i = i + 1;
    }
    assert(amounts@.subrange(0, n as int) =~= amounts@);
    let mut work = balances.duplicate();
    let _ = work.debit(&from, total_amount);
    let ghost start = work@;
    i = 0;
    assert(recipients@.subrange(0, n as int) =~= recipients@);
    while i < n
        invariant
            n == amounts@.len(),
            n == recipients@.len(),
            i <= n,
            work.wf(),
            !has_negative(amounts@),
            credit_each(
                work@,
                recipients@.subrange(i as int, n as int),
                amounts@.subrange(i as int, n as int),
            ) == credit_each(start, recipients@, amounts@),
        decreases n - i,
    {
        let recipient = recipients[i];
        let amount = amounts[i];
        proof {
            let rest_r = recipients@.subrange(i as int, n as int);
            let rest_a = amounts@.subrange(i as int, n as int);
            assert(rest_r[0] == recipient);
            assert(rest_a[0] == amount);
            assert(rest_r.drop_first() =~= recipients@.subrange(i + 1, n as int));
            assert(rest_a.drop_first() =~= amounts@.subrange(i + 1, n as int));
        }
        match work.credit(&recipient, amount) {
            Err(_) => {
                return Err(BatchError::Overflow);
            },
            Ok(()) => {},
        }
        i = i + 1;
    }
    assert(recipients@.subrange(n as int, n as int) =~= Seq::<Address>::empty());
    *balances = work;
    Ok(())
}

} // verus!
