use tokenflex::address::{Address, Auth};
use tokenflex::admin::AccessControl;
use tokenflex::allowance::{AllowanceError, Allowances};
use tokenflex::balance::{Balances, LedgerError};
use tokenflex::batch::BatchError;
use tokenflex::conditional::{ConditionType, ConditionalError, ConditionalTransfers};
use tokenflex::contract::{check_nonnegative_amount, Token, TokenError, TokenMetadata};
use tokenflex::vesting::{VestingBook, VestingError, VestingSchedule, VestingType};

fn addr(tag: u8) -> Address {
    Address::new([tag; 56])
}

fn admin() -> Address {
    addr(b'M')
}

fn custody() -> Address {
    addr(b'C')
}

fn ready() -> Token {
    let mut token = Token::new(custody());
    token.initialize(admin(), 7, String::from("Flex"), String::from("FLX")).unwrap();
    token
}

fn ready_with(holder: Address, amount: i128) -> Token {
    let mut token = ready();
    token.mint(&Auth::of(admin()), holder, amount).unwrap();
    token
}

#[test]
fn negative_amounts_are_refused() {
    assert_eq!(check_nonnegative_amount(-1), Err(TokenError::NegativeAmount));
    assert_eq!(check_nonnegative_amount(i128::MIN), Err(TokenError::NegativeAmount));
    assert_eq!(check_nonnegative_amount(0), Ok(()));
    assert_eq!(check_nonnegative_amount(i128::MAX), Ok(()));
}

#[test]
fn a_new_ledger_is_empty_and_not_initialized() {
    let token = Token::new(custody());
    assert!(!token.is_initialized());
    assert_eq!(token.custody(), custody());
    assert_eq!(token.balance(addr(b'A')), 0);
    assert_eq!(token.allowance(addr(b'A'), addr(b'B'), 5), 0);
    assert!(!token.is_frozen(addr(b'A')));
    assert_eq!(token.decimals(), 0);
    assert_eq!(token.name(), "");
    assert_eq!(token.symbol(), "");
    assert_eq!(token.get_conditional(0), None);
}

#[test]
fn initialize_sets_the_administrator_and_the_presentation() {
    let token = ready();
    assert!(token.is_initialized());
    assert_eq!(token.admin(), admin());
    assert_eq!(token.decimals(), 7);
    assert_eq!(token.name(), "Flex");
    assert_eq!(token.symbol(), "FLX");
}

#[test]
fn initialize_happens_once() {
    let mut token = ready();
    assert_eq!(
        token.initialize(addr(b'X'), 2, String::from("Other"), String::from("OTH")),
        Err(TokenError::AlreadyInitialized)
    );
    assert_eq!(token.admin(), admin());
    assert_eq!(token.decimals(), 7);
    assert_eq!(token.name(), "Flex");
}

#[test]
fn initialize_rejects_decimals_beyond_eight_bits() {
    let mut token = Token::new(custody());
    assert_eq!(
        token.initialize(admin(), 256, String::from("Flex"), String::from("FLX")),
        Err(TokenError::DecimalTooLarge)
    );
    assert!(!token.is_initialized());
    assert_eq!(token.initialize(admin(), 255, String::from("Flex"), String::from("FLX")), Ok(()));
    assert_eq!(token.decimals(), 255);
}

#[test]
fn mint_credits_the_receiver() {
    let mut token = ready();
    let auth = Auth::of(admin());
    assert_eq!(token.mint(&auth, addr(b'A'), 100), Ok(()));
    assert_eq!(token.mint(&auth, addr(b'A'), 0), Ok(()));
    assert_eq!(token.balance(addr(b'A')), 100);
}

#[test]
fn mint_rejects_negative_amounts_and_overflow() {
    let mut token = ready();
    let auth = Auth::of(admin());
    assert_eq!(token.mint(&auth, addr(b'A'), -1), Err(TokenError::NegativeAmount));
    assert_eq!(token.mint(&auth, addr(b'A'), i128::MAX), Ok(()));
    assert_eq!(token.mint(&auth, addr(b'A'), 1), Err(TokenError::Overflow));
    assert_eq!(token.balance(addr(b'A')), i128::MAX);
}

#[test]
fn set_admin_hands_the_administration_over() {
    let mut token = ready();
    token.set_admin(&Auth::of(admin()), addr(b'N'));
    assert_eq!(token.admin(), addr(b'N'));
    assert_eq!(token.mint(&Auth::of(addr(b'N')), addr(b'A'), 1), Ok(()));
}

#[test]
fn transfer_moves_funds() {
    let a = addr(b'A');
    let b = addr(b'B');
    let mut token = ready_with(a, 100);
    assert_eq!(token.transfer(&Auth::of(a), a, b, 30), Ok(()));
    assert_eq!(token.balance(a), 70);
    assert_eq!(token.balance(b), 30);
}

#[test]
fn transfer_beyond_the_balance_is_refused_and_changes_nothing() {
    let a = addr(b'A');
    let b = addr(b'B');
    let mut token = ready_with(a, 100);
    assert_eq!(token.transfer(&Auth::of(a), a, b, 101), Err(TokenError::InsufficientBalance));
    assert_eq!(token.balance(a), 100);
    assert_eq!(token.balance(b), 0);
}

#[test]
fn transfer_rejects_negative_amounts_and_overflow() {
    let a = addr(b'A');
    let b = addr(b'B');
    let mut token = ready_with(a, 100);
    token.mint(&Auth::of(admin()), b, i128::MAX).unwrap();
    assert_eq!(token.transfer(&Auth::of(a), a, b, -1), Err(TokenError::NegativeAmount));
    assert_eq!(token.transfer(&Auth::of(a), a, b, 1), Err(TokenError::Overflow));
    assert_eq!(token.balance(a), 100);
    assert_eq!(token.balance(b), i128::MAX);
}

#[test]
fn approve_records_the_allowance_and_rejects_negative_amounts() {
    let a = addr(b'A');
    let s = addr(b'S');
    let mut token = ready();
    assert_eq!(token.approve(&Auth::of(a), a, s, -1, 10), Err(TokenError::NegativeAmount));
    assert_eq!(token.allowance(a, s, 5), 0);
    assert_eq!(token.approve(&Auth::of(a), a, s, 50, 10), Ok(()));
    assert_eq!(token.allowance(a, s, 5), 50);
    assert_eq!(token.approve(&Auth::of(a), a, s, 5, 10), Ok(()));
    assert_eq!(token.allowance(a, s, 5), 5);
    assert_eq!(token.allowance(s, a, 5), 0);
}

#[test]
fn transfer_from_spends_the_allowance() {
    let a = addr(b'A');
    let b = addr(b'B');
    let s = addr(b'S');
    let mut token = ready_with(a, 100);
    token.approve(&Auth::of(a), a, s, 50, 10).unwrap();
    assert_eq!(token.transfer_from(&Auth::of(s), s, a, b, 30, 10), Ok(()));
    assert_eq!(token.balance(a), 70);
    assert_eq!(token.balance(b), 30);
    assert_eq!(token.allowance(a, s, 5), 20);
}

#[test]
fn transfer_from_is_refused_as_a_whole() {
    let a = addr(b'A');
    let b = addr(b'B');
    let s = addr(b'S');
    let mut token = ready_with(a, 100);
    token.approve(&Auth::of(a), a, s, 500, 10).unwrap();
    let auth = Auth::of(s);
    assert_eq!(token.transfer_from(&auth, s, a, b, -1, 5), Err(TokenError::NegativeAmount));
    assert_eq!(token.transfer_from(&auth, s, a, b, 501, 5), Err(TokenError::InsufficientAllowance));
    assert_eq!(token.transfer_from(&auth, s, a, b, 1, 11), Err(TokenError::AllowanceExpired));
    assert_eq!(token.transfer_from(&auth, s, a, b, 101, 5), Err(TokenError::InsufficientBalance));
    assert_eq!(token.transfer_from(&auth, b, a, b, 1, 5), Err(TokenError::InsufficientAllowance));
    assert_eq!(token.balance(a), 100);
    assert_eq!(token.balance(b), 0);
    assert_eq!(token.allowance(a, s, 5), 500);
}

#[test]
fn burn_destroys_funds() {
    let a = addr(b'A');
    let mut token = ready_with(a, 100);
    assert_eq!(token.burn(&Auth::of(a), a, 30), Ok(()));
    assert_eq!(token.balance(a), 70);
    assert_eq!(token.burn(&Auth::of(a), a, 71), Err(TokenError::InsufficientBalance));
    assert_eq!(token.burn(&Auth::of(a), a, -1), Err(TokenError::NegativeAmount));
    assert_eq!(token.balance(a), 70);
}

#[test]
fn burn_from_spends_the_allowance() {
    let a = addr(b'A');
    let s = addr(b'S');
    let mut token = ready_with(a, 100);
    token.approve(&Auth::of(a), a, s, 50, 10).unwrap();
    let auth = Auth::of(s);
    assert_eq!(token.burn_from(&auth, s, a, 30, 10), Ok(()));
    assert_eq!(token.balance(a), 70);
    assert_eq!(token.allowance(a, s, 5), 20);
    assert_eq!(token.burn_from(&auth, s, a, 21, 10), Err(TokenError::InsufficientAllowance));
    assert_eq!(token.burn_from(&auth, s, a, 1, 11), Err(TokenError::AllowanceExpired));
    assert_eq!(token.burn_from(&auth, s, a, -1, 10), Err(TokenError::NegativeAmount));
    token.approve(&Auth::of(a), a, s, 500, 10).unwrap();
    assert_eq!(token.burn_from(&auth, s, a, 71, 10), Err(TokenError::InsufficientBalance));
    assert_eq!(token.balance(a), 70);
    assert_eq!(token.allowance(a, s, 5), 500);
}

#[test]
fn a_frozen_sender_cannot_spend_until_it_is_unfrozen() {
    let a = addr(b'A');
    let b = addr(b'B');
    let s = addr(b'S');
    let mut token = ready_with(a, 100);
    token.approve(&Auth::of(a), a, s, 50, 10).unwrap();
    token.freeze_account(&Auth::of(admin()), a);
    token.freeze_account(&Auth::of(admin()), a);
    assert!(token.is_frozen(a));
    assert_eq!(token.transfer(&Auth::of(a), a, b, 1), Err(TokenError::AccountFrozen));
    assert_eq!(token.transfer_from(&Auth::of(s), s, a, b, 1, 5), Err(TokenError::AccountFrozen));
    assert_eq!(token.burn(&Auth::of(a), a, 1), Err(TokenError::AccountFrozen));
    assert_eq!(token.burn_from(&Auth::of(s), s, a, 1, 5), Err(TokenError::AccountFrozen));
    assert_eq!(token.batch_transfer(&Auth::of(a), a, vec![b], vec![1]), Err(BatchError::AccountFrozen));
    assert_eq!(token.balance(a), 100);
    assert_eq!(token.balance(b), 0);
    assert_eq!(token.allowance(a, s, 5), 50);
    token.unfreeze_account(&Auth::of(admin()), a);
    assert!(!token.is_frozen(a));
    assert_eq!(token.transfer(&Auth::of(a), a, b, 1), Ok(()));
    assert_eq!(token.transfer_from(&Auth::of(s), s, a, b, 1, 5), Ok(()));
    assert_eq!(token.burn(&Auth::of(a), a, 1), Ok(()));
    assert_eq!(token.burn_from(&Auth::of(s), s, a, 1, 5), Ok(()));
    assert_eq!(token.batch_transfer(&Auth::of(a), a, vec![b], vec![1]), Ok(()));
    assert_eq!(token.balance(a), 95);
    assert_eq!(token.balance(b), 3);
}

#[test]
fn a_frozen_account_can_still_receive() {
    let a = addr(b'A');
    let b = addr(b'B');
    let mut token = ready_with(a, 100);
    token.freeze_account(&Auth::of(admin()), b);
    assert_eq!(token.transfer(&Auth::of(a), a, b, 10), Ok(()));
    assert_eq!(token.balance(b), 10);
}

#[test]
fn create_vesting_puts_the_amount_in_custody() {
    let b = addr(b'B');
    let mut token = ready();
    let auth = Auth::of(admin());
    assert_eq!(token.create_vesting(&auth, b, 1000, 100, 100, VestingType::Linear, 0, 0), Ok(()));
    assert_eq!(token.balance(custody()), 1000);
    assert_eq!(token.balance(b), 0);
    assert_eq!(
        token.get_vesting_info(b),
        Ok(VestingSchedule {
            beneficiary: b,
            total_amount: 1000,
            start_ledger: 100,
            duration_ledgers: 100,
            vesting_type: VestingType::Linear,
            claimed_amount: 0,
            steps: 0,
            cliff_ledger: 0,
        })
    );
    assert_eq!(token.get_vested_amount(b, 150), Ok(500));
}

#[test]
fn create_vesting_that_is_refused_changes_nothing() {
    let b = addr(b'B');
    let mut token = ready();
    let auth = Auth::of(admin());
    assert_eq!(
        token.create_vesting(&auth, b, 0, 100, 100, VestingType::Linear, 0, 0),
        Err(VestingError::InvalidVestingParameters)
    );
    assert_eq!(
        token.create_vesting(&auth, b, 10, 100, 0, VestingType::Linear, 0, 0),
        Err(VestingError::InvalidVestingParameters)
    );
    assert_eq!(token.balance(custody()), 0);
    assert_eq!(token.get_vesting_info(b), Err(VestingError::VestingScheduleDoesNotExist));
    assert_eq!(token.get_vested_amount(b, 5), Err(VestingError::VestingScheduleDoesNotExist));
    token.create_vesting(&auth, b, 10, 100, 10, VestingType::Linear, 0, 0).unwrap();
    assert_eq!(
        token.create_vesting(&auth, b, 20, 100, 10, VestingType::Linear, 0, 0),
        Err(VestingError::VestingScheduleAlreadyExists)
    );
    assert_eq!(token.balance(custody()), 10);
    token.mint(&auth, custody(), i128::MAX - 10).unwrap();
    assert_eq!(
        token.create_vesting(&auth, addr(b'D'), 1, 100, 10, VestingType::Linear, 0, 0),
        Err(VestingError::Overflow)
    );
    assert_eq!(token.get_vesting_info(addr(b'D')), Err(VestingError::VestingScheduleDoesNotExist));
    assert_eq!(token.balance(custody()), i128::MAX);
}

#[test]
fn claim_vesting_pays_out_of_custody() {
    let b = addr(b'B');
    let mut token = ready();
    token.create_vesting(&Auth::of(admin()), b, 1000, 100, 100, VestingType::Linear, 0, 0).unwrap();
    let auth = Auth::of(b);
    assert_eq!(token.claim_vesting(&auth, b, 99), Err(VestingError::InsufficientVestedTokens));
    assert_eq!(token.claim_vesting(&auth, b, 150), Ok(500));
    assert_eq!(token.balance(custody()), 500);
    assert_eq!(token.balance(b), 500);
    assert_eq!(token.get_vesting_info(b).unwrap().claimed_amount, 500);
    assert_eq!(token.claim_vesting(&auth, b, 150), Err(VestingError::InsufficientVestedTokens));
    assert_eq!(token.claim_vesting(&auth, b, 200), Ok(500));
    assert_eq!(token.balance(custody()), 0);
    assert_eq!(token.balance(b), 1000);
    assert_eq!(token.claim_vesting(&auth, b, 900), Err(VestingError::InsufficientVestedTokens));
    assert_eq!(token.claim_vesting(&auth, addr(b'D'), 900), Err(VestingError::VestingScheduleDoesNotExist));
}

#[test]
fn claim_vesting_that_custody_cannot_pay_changes_nothing() {
    let b = addr(b'B');
    let mut token = ready();
    token.create_vesting(&Auth::of(admin()), b, 1000, 100, 100, VestingType::Linear, 0, 0).unwrap();
    token.burn(&Auth::of(custody()), custody(), 600).unwrap();
    assert_eq!(token.claim_vesting(&Auth::of(b), b, 150), Err(VestingError::InsufficientBalance));
    assert_eq!(token.get_vesting_info(b).unwrap().claimed_amount, 0);
    assert_eq!(token.balance(custody()), 400);
    assert_eq!(token.balance(b), 0);
    assert_eq!(token.claim_vesting(&Auth::of(b), b, 140), Ok(400));
    assert_eq!(token.balance(b), 400);
}

#[test]
fn claim_vesting_into_a_full_balance_changes_nothing() {
    let b = addr(b'B');
    let mut token = ready_with(b, i128::MAX);
    token.create_vesting(&Auth::of(admin()), b, 1000, 100, 100, VestingType::Linear, 0, 0).unwrap();
    assert_eq!(token.claim_vesting(&Auth::of(b), b, 150), Err(VestingError::Overflow));
    assert_eq!(token.get_vesting_info(b).unwrap().claimed_amount, 0);
    assert_eq!(token.balance(custody()), 1000);
}

#[test]
fn batch_transfer_is_all_or_nothing() {
    let a = addr(b'A');
    let b = addr(b'B');
    let f = addr(b'F');
    let mut token = ready_with(f, 100);
    assert_eq!(token.batch_transfer(&Auth::of(f), f, vec![a, b], vec![50, -1]), Err(BatchError::NegativeAmount));
    assert_eq!(token.balance(f), 100);
    assert_eq!(token.balance(a), 0);
    assert_eq!(token.batch_transfer(&Auth::of(f), f, vec![a, b], vec![50, 51]), Err(BatchError::InsufficientBalance));
    assert_eq!(token.balance(a), 0);
    assert_eq!(token.batch_transfer(&Auth::of(f), f, vec![a, b], vec![50, 50]), Ok(()));
    assert_eq!(token.balance(f), 0);
    assert_eq!(token.balance(a), 50);
    assert_eq!(token.balance(b), 50);
}

#[test]
fn execute_conditional_moves_the_funds_once() {
    let a = addr(b'A');
    let b = addr(b'B');
    let mut token = ready_with(a, 100);
    let id: u32 = token
        .create_conditional(&Auth::of(a), a, b, 40, ConditionType::TimeBasedRelease(20), 30, 7)
        .unwrap();
    assert_eq!(id, 7);
    assert_eq!(token.execute_conditional(&Auth::none(), id, None, 19), Err(ConditionalError::ConditionNotMet));
    assert_eq!(token.execute_conditional(&Auth::none(), id, None, 31), Err(ConditionalError::TransferExpired));
    assert_eq!(token.balance(a), 100);
    assert_eq!(token.execute_conditional(&Auth::none(), id, None, 30), Ok(()));
    assert_eq!(token.balance(a), 60);
    assert_eq!(token.balance(b), 40);
    assert!(token.get_conditional(id).unwrap().executed);
    assert_eq!(
        token.execute_conditional(&Auth::none(), id, None, 30),
        Err(ConditionalError::TransferAlreadyExecuted)
    );
    assert_eq!(token.balance(a), 60);
    assert_eq!(token.balance(b), 40);
    assert_eq!(token.execute_conditional(&Auth::none(), 99, None, 30), Err(ConditionalError::InvalidCondition));
}

#[test]
fn execute_conditional_with_approval() {
    let a = addr(b'A');
    let b = addr(b'B');
    let judge = addr(b'J');
    let mut token = ready_with(a, 100);
    assert_eq!(
        token.create_conditional(&Auth::of(a), a, b, 0, ConditionType::ApprovalRequired(judge), 0, 7),
        Err(ConditionalError::InvalidTransferAmount)
    );
    let id: u32 = token
        .create_conditional(&Auth::of(a), a, b, 40, ConditionType::ApprovalRequired(judge), 0, 7)
        .unwrap();
    assert!(!token.awaits_approval(id, &Some(a), 8));
    assert_eq!(token.execute_conditional(&Auth::none(), id, Some(a), 8), Err(ConditionalError::ConditionNotMet));
    assert!(token.awaits_approval(id, &Some(judge), 8));
    assert_eq!(token.execute_conditional(&Auth::of(judge), id, Some(judge), 8), Ok(()));
    assert_eq!(token.balance(b), 40);
}

#[test]
fn a_ledger_can_be_put_together_from_persisted_records() {
    let a = addr(b'A');
    let b = addr(b'B');
    let mut access = AccessControl::new();
    access.write_administrator(&admin());
    access.freeze(&b);
    let mut balances = Balances::new();
    balances.credit(&a, 100).unwrap();
    balances.credit(&custody(), 1000).unwrap();
    let mut allowances = Allowances::new();
    allowances.write_allowance(&a, &b, 5, 9);
    let mut vesting = VestingBook::new();
    let schedule = VestingSchedule {
        beneficiary: b,
        total_amount: 1000,
        start_ledger: 0,
        duration_ledgers: 10,
        vesting_type: VestingType::Linear,
        claimed_amount: 300,
        steps: 0,
        cliff_ledger: 0,
    };
    assert_eq!(vesting.restore(schedule), Ok(()));
    assert_eq!(
        vesting.restore(VestingSchedule { claimed_amount: 1001, ..schedule }),
        Err(VestingError::InvalidVestingParameters)
    );
    assert_eq!(
        vesting.restore(VestingSchedule { total_amount: 0, claimed_amount: 0, ..schedule }),
        Err(VestingError::InvalidVestingParameters)
    );
    assert_eq!(
        vesting.restore(VestingSchedule { claimed_amount: 0, ..schedule }),
        Err(VestingError::VestingScheduleAlreadyExists)
    );
    let metadata = TokenMetadata { decimal: 7, name: String::from("Flex"), symbol: String::from("FLX") };
    let mut token = Token::from_parts(
        custody(),
        metadata,
        access,
        balances,
        allowances,
        vesting,
        ConditionalTransfers::new(),
    );
    assert_eq!(token.admin(), admin());
    assert_eq!(token.custody(), custody());
    assert_eq!(token.symbol(), "FLX");
    assert_eq!(token.balance(a), 100);
    assert_eq!(token.allowance(a, b, 5), 5);
    assert!(token.is_frozen(b));
    assert_eq!(token.get_vesting_info(b), Ok(schedule));
    assert_eq!(token.claim_vesting(&Auth::of(b), b, 5), Ok(200));
    assert_eq!(token.balance(b), 200);
    assert_eq!(token.balance(custody()), 800);
}

#[test]
fn token_errors_map_from_the_components() {
    assert_eq!(TokenError::from_ledger(LedgerError::InsufficientBalance), TokenError::InsufficientBalance);
    assert_eq!(TokenError::from_ledger(LedgerError::Overflow), TokenError::Overflow);
    assert_eq!(TokenError::from_allowance(AllowanceError::InsufficientAllowance), TokenError::InsufficientAllowance);
    assert_eq!(TokenError::from_allowance(AllowanceError::AllowanceExpired), TokenError::AllowanceExpired);
}

#[test]
fn create_conditional_takes_the_next_free_id_from_the_current_tick() {
    let a = addr(b'A');
    let b = addr(b'B');
    let mut token = ready_with(a, 20);
    let auth = Auth::of(a);
    assert_eq!(token.next_conditional_id(7), Some(7));
    assert_eq!(token.create_conditional(&auth, a, b, 10, ConditionType::TimeBasedRelease(0), 0, 7), Ok(7));
    assert_eq!(token.execute_conditional(&Auth::none(), 7, None, 7), Ok(()));
    assert_eq!(token.next_conditional_id(7), Some(8));
    assert_eq!(token.create_conditional(&auth, a, b, 10, ConditionType::TimeBasedRelease(0), 0, 7), Ok(8));
    assert!(token.get_conditional(7).unwrap().executed);
    assert!(!token.get_conditional(8).unwrap().executed);
    assert_eq!(token.execute_conditional(&Auth::none(), 7, None, 7), Err(ConditionalError::TransferAlreadyExecuted));
    assert_eq!(token.balance(a), 10);
    assert_eq!(token.balance(b), 10);
    assert_eq!(token.create_conditional(&auth, a, b, 10, ConditionType::TimeBasedRelease(0), 0, 8), Ok(9));
    assert_eq!(token.create_conditional(&auth, a, b, 10, ConditionType::TimeBasedRelease(0), 0, 3), Ok(3));
    assert_eq!(token.next_conditional_id(3), Some(4));
    assert_eq!(token.next_conditional_id(7), Some(10));
}

#[test]
fn create_conditional_refuses_an_amount_that_is_not_positive_whoever_calls() {
    let a = addr(b'A');
    let b = addr(b'B');
    let mut token = ready_with(a, 20);
    assert_eq!(
        token.create_conditional(&Auth::none(), a, b, 0, ConditionType::TimeBasedRelease(0), 0, 7),
        Err(ConditionalError::InvalidTransferAmount)
    );
    assert_eq!(
        token.create_conditional(&Auth::none(), a, b, -3, ConditionType::TimeBasedRelease(0), 0, 7),
        Err(ConditionalError::InvalidTransferAmount)
    );
    assert_eq!(token.get_conditional(7), None);
    assert_eq!(token.balance(a), 20);
}

#[test]
fn the_allowance_query_counts_an_expired_allowance_as_nothing() {
    let a = addr(b'A');
    let s = addr(b'S');
    let mut token = ready_with(a, 100);
    token.approve(&Auth::of(a), a, s, 50, 10).unwrap();
    assert_eq!(token.allowance(a, s, 10), 50);
    assert_eq!(token.allowance(a, s, 11), 0);
    assert_eq!(token.allowance_record(a, s).amount, 50);
    assert_eq!(token.allowance_record(a, s).expiration_ledger, 10);
    assert_eq!(token.transfer_from(&Auth::of(s), s, a, addr(b'B'), 0, 11), Err(TokenError::AllowanceExpired));
    assert_eq!(token.transfer_from(&Auth::of(s), s, a, addr(b'B'), 0, 10), Ok(()));
    assert_eq!(token.transfer_from(&Auth::of(addr(b'X')), addr(b'X'), a, addr(b'B'), 0, 11), Ok(()));
    assert_eq!(token.balance(a), 100);
}

#[test]
fn execute_conditional_from_a_frozen_sender_is_refused() {
    let a = addr(b'A');
    let b = addr(b'B');
    let mut token = ready_with(a, 100);
    token.create_conditional(&Auth::of(a), a, b, 40, ConditionType::TimeBasedRelease(0), 0, 7).unwrap();
    token.freeze_account(&Auth::of(admin()), a);
    assert_eq!(token.execute_conditional(&Auth::none(), 7, None, 8), Err(ConditionalError::AccountFrozen));
    assert_eq!(token.balance(a), 100);
    assert_eq!(token.balance(b), 0);
    assert!(!token.get_conditional(7).unwrap().executed);
    token.unfreeze_account(&Auth::of(admin()), a);
    assert_eq!(token.execute_conditional(&Auth::none(), 7, None, 8), Ok(()));
    assert_eq!(token.balance(b), 40);
}

#[test]
fn batch_transfer_refuses_bad_lists_and_frozen_senders_whoever_calls() {
    let a = addr(b'A');
    let f = addr(b'F');
    let mut token = ready_with(f, 100);
    let nobody = Auth::none();
    assert!(!token.batch_needs_authorization(f, &vec![], &vec![1]));
    assert_eq!(token.batch_transfer(&nobody, f, vec![], vec![1]), Err(BatchError::EmptyRecipientsList));
    assert_eq!(token.batch_transfer(&nobody, f, vec![a], vec![]), Err(BatchError::EmptyAmountsList));
    assert_eq!(token.batch_transfer(&nobody, f, vec![a], vec![1, 2]), Err(BatchError::ListLengthMismatch));
    token.freeze_account(&Auth::of(admin()), f);
    assert!(!token.batch_needs_authorization(f, &vec![a], &vec![1]));
    assert_eq!(token.batch_transfer(&nobody, f, vec![a], vec![1]), Err(BatchError::AccountFrozen));
    token.unfreeze_account(&Auth::of(admin()), f);
    assert!(token.batch_needs_authorization(f, &vec![a], &vec![1]));
    assert_eq!(token.balance(f), 100);
    assert_eq!(token.balance(a), 0);
}
