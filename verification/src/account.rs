//! One client's account: its funds, its deposits and the rules by which a
//! transaction changes them.
//!
//! [`AccountView`] is the mathematical state of an account and
//! [`AccountView::step`] its transition function. [`AccountState::transact`]
//! is proved to compute exactly that function.

use vstd::prelude::*;
use std::collections::HashMap;
use crate::amount::{
    lemma_difference_in_full, lemma_four_digits_in_full, lemma_sum_in_full, Amount, AmountView,
    MODEST_MANTISSA,
};
use crate::transaction::Transaction;

verus! {

/// What an account remembers of one deposit.
#[derive(Clone, Copy, Debug)]
pub struct DepositState {
    pub amount: Amount,
    pub dispute: bool,
    pub chargeback: bool,
}

impl DepositState {
    /// A deposit that is neither disputed nor charged back.
    pub open spec fn fresh(amount: Amount) -> DepositState {
        DepositState { amount, dispute: false, chargeback: false }
    }

    /// A deposit that is neither disputed nor charged back.
    pub fn new(amount: Amount) -> (r: DepositState)
        ensures
            r == DepositState::fresh(amount),
    {
        DepositState { amount, dispute: false, chargeback: false }
    }
}

/// Why a transaction left an account as it was.
#[derive(Clone, Copy, Debug, PartialEq, Eq, Structural)]
pub enum RejectReason {
    /// A deposit or withdrawal reached a locked account.
    AccountLocked,
    /// A withdrawal asked for as much as is available, or more.
    InsufficientFunds,
    /// The account holds no deposit under the transaction id.
    UnknownDeposit,
    /// The deposit to resolve or charge back is not under dispute.
    NotDisputed,
    /// A balance, or the available funds, would leave the range of amounts.
    OutOfRange,
    /// There is no shard to hold the account.
    NoShard,
}

/// What a transaction did to an account.
#[derive(Clone, Copy, Debug, PartialEq, Eq, Structural)]
pub enum TransitionOutcome {
    /// The account changed as the transaction asks.
    Applied,
    /// The account is as it was before.
    Rejected(RejectReason),
}

/// The state of an account.
pub struct AccountView {
    /// Funds under dispute.
    pub held: AmountView,
    /// All funds of the account.
    pub total: AmountView,
    /// How many chargebacks were applied; the count stops at `u32::MAX`.
    pub chargebacks: u32,
    /// The deposits made, by transaction id.
    pub deposits: Map<u32, DepositState>,
}

impl AccountView {
    /// An account to which nothing has happened yet.
    pub open spec fn fresh() -> AccountView {
        AccountView {
            held: AmountView { mantissa: 0, scale: 0 },
            total: AmountView { mantissa: 0, scale: 0 },
            chargebacks: 0,
            deposits: Map::empty(),
        }
    }

    /// A locked account takes no deposit and no withdrawal.
    pub open spec fn locked(self) -> bool {
        self.chargebacks != 0
    }

    /// Total funds less held funds.
    pub open spec fn available(self) -> Option<AmountView> {
        self.total.minus(self.held)
    }

    /// The available funds can be computed.
    pub open spec fn wf(self) -> bool {
        self.available() is Some
    }

    /// Whether both balances are in range and the available funds are known
    /// in full: their value is the value of the total less that of the held
    /// funds.
    pub open spec fn in_full(self) -> bool {
        &&& self.total.in_range()
        &&& self.held.in_range()
        &&& self.total.subtracts_in_full(self.held)
    }

    /// The account with its funds replaced, where both balances and the
    /// available funds that follow from them are in range.
    pub open spec fn with_funds(self, total: Option<AmountView>, held: Option<AmountView>) -> Option<
        AccountView,
    > {
        if total is Some && held is Some && total->0.minus(held->0) is Some {
            Some(AccountView { total: total->0, held: held->0, ..self })
        } else {
            None
        }
    }

    /// The account with deposit `tx` replaced by `deposit`.
    pub open spec fn with_deposit(self, tx: u32, deposit: DepositState) -> AccountView {
        AccountView { deposits: self.deposits.insert(tx, deposit), ..self }
    }

    /// A deposit adds to the total and is remembered under its id, replacing
    /// an earlier deposit of that id.
    pub open spec fn deposit(self, tx: u32, amount: Amount) -> (AccountView, TransitionOutcome) {
        if self.locked() {
            (self, TransitionOutcome::Rejected(RejectReason::AccountLocked))
        } else {
            match self.with_funds(self.total.plus(amount@), Some(self.held)) {
                Some(next) => (
                    next.with_deposit(tx, DepositState::fresh(amount)),
                    TransitionOutcome::Applied,
                ),
                None => (self, TransitionOutcome::Rejected(RejectReason::OutOfRange)),
            }
        }
    }

    /// A withdrawal takes from the total, if strictly more than the amount is
    /// available. Nothing is remembered of it.
    pub open spec fn withdrawal(self, amount: Amount) -> (AccountView, TransitionOutcome) {
        if self.locked() {
            (self, TransitionOutcome::Rejected(RejectReason::AccountLocked))
        } else if !(self.available() matches Some(a) && a.value() > amount@.value()) {
            (self, TransitionOutcome::Rejected(RejectReason::InsufficientFunds))
        } else {
            match self.with_funds(self.total.minus(amount@), Some(self.held)) {
                Some(next) => (next, TransitionOutcome::Applied),
                None => (self, TransitionOutcome::Rejected(RejectReason::OutOfRange)),
            }
        }
    }

    /// A dispute marks a known deposit and holds its amount. The total stays,
    /// so the available funds fall by the amount.
    pub open spec fn dispute(self, tx: u32) -> (AccountView, TransitionOutcome) {
        if !self.deposits.contains_key(tx) {
            (self, TransitionOutcome::Rejected(RejectReason::UnknownDeposit))
        } else {
            let d = self.deposits[tx];
            match self.with_funds(Some(self.total), self.held.plus(d.amount@)) {
                Some(next) => (
                    next.with_deposit(tx, DepositState { dispute: true, ..d }),
                    TransitionOutcome::Applied,
                ),
                None => (self, TransitionOutcome::Rejected(RejectReason::OutOfRange)),
            }
        }
    }

    /// Resolving a disputed deposit clears the mark, releases the amount from
    /// the held funds and adds it to the total.
    pub open spec fn resolve(self, tx: u32) -> (AccountView, TransitionOutcome) {
        if !self.deposits.contains_key(tx) {
            (self, TransitionOutcome::Rejected(RejectReason::UnknownDeposit))
        } else if !self.deposits[tx].dispute {
            (self, TransitionOutcome::Rejected(RejectReason::NotDisputed))
        } else {
            let d = self.deposits[tx];
            match self.with_funds(self.total.plus(d.amount@), self.held.minus(d.amount@)) {
                Some(next) => (
                    next.with_deposit(tx, DepositState { dispute: false, ..d }),
                    TransitionOutcome::Applied,
                ),
                None => (self, TransitionOutcome::Rejected(RejectReason::OutOfRange)),
            }
        }
    }

    /// Charging back a disputed deposit marks it and counts one chargeback
    /// more, which locks the account. The funds stay as they are.
    pub open spec fn chargeback(self, tx: u32) -> (AccountView, TransitionOutcome) {
        if !self.deposits.contains_key(tx) {
            (self, TransitionOutcome::Rejected(RejectReason::UnknownDeposit))
        } else if !self.deposits[tx].dispute {
            (self, TransitionOutcome::Rejected(RejectReason::NotDisputed))
        } else {
            let d = self.deposits[tx];
            let count = if self.chargebacks < u32::MAX {
                (self.chargebacks + 1) as u32
            } else {
                self.chargebacks
            };
            (
                AccountView { chargebacks: count, ..self }.with_deposit(
                    tx,
                    DepositState { chargeback: true, ..d },
                ),
                TransitionOutcome::Applied,
            )
        }
    }

    /// The account after `transaction`, and what the transaction did. A
    /// rejected transaction leaves the account unchanged.
    pub open spec fn step(self, transaction: Transaction) -> (AccountView, TransitionOutcome) {
        match transaction {
            Transaction::Deposit { tx, amount, .. } => self.deposit(tx, amount),
            Transaction::Withdrawal { amount, .. } => self.withdrawal(amount),
            Transaction::Dispute { tx, .. } => self.dispute(tx),
            Transaction::Resolve { tx, .. } => self.resolve(tx),
            Transaction::Chargeback { tx, .. } => self.chargeback(tx),
        }
    }

    /// The account after `transaction`.
    pub open spec fn apply(self, transaction: Transaction) -> AccountView {
        self.step(transaction).0
    }

    /// The account after each of `transactions` in turn.
    pub open spec fn apply_all(self, transactions: Seq<Transaction>) -> AccountView
        decreases transactions.len(),
    {
        if transactions.len() == 0 {
            self
        } else {
            self.apply_all(transactions.drop_last()).apply(transactions.last())
        }
    }
}

/// A fresh account has nothing available, which is its total less its held
/// funds.
pub proof fn lemma_fresh_account_has_nothing_available()
    ensures
        AccountView::fresh().wf(),
        AccountView::fresh().available() == Some(AmountView { mantissa: 0, scale: 0 }),
{
}

/// A transaction never takes an account out of the states in which its
/// available funds are its total less its held funds, in range.
pub proof fn lemma_step_keeps_available_defined(account: AccountView, transaction: Transaction)
    requires
        account.wf(),
    ensures
        account.apply(transaction).wf(),
{
}

/// Whatever transactions reach a fresh account, after every one of them its
/// available funds are its total less its held funds, in range.
pub proof fn lemma_available_defined_from_the_start(transactions: Seq<Transaction>)
    ensures
        forall|n: int|
            0 <= n <= transactions.len() ==> (#[trigger] AccountView::fresh().apply_all(
                transactions.take(n),
            )).wf(),
{
    lemma_fresh_account_has_nothing_available();
    lemma_available_defined_throughout(AccountView::fresh(), transactions);
}

/// The same of any account that starts out with its available funds in
/// range.
pub proof fn lemma_available_defined_throughout(account: AccountView, transactions: Seq<Transaction>)
    requires
        account.wf(),
    ensures
        forall|n: int|
            0 <= n <= transactions.len() ==> (#[trigger] account.apply_all(
                transactions.take(n),
            )).wf(),
    decreases transactions.len(),
{
    assert forall|n: int| 0 <= n <= transactions.len() implies (#[trigger] account.apply_all(
        transactions.take(n),
    )).wf() by {
        if n == transactions.len() {
            assert(transactions.take(n) =~= transactions);
            if n > 0 {
                lemma_available_defined_throughout(account, transactions.drop_last());
                assert(transactions.drop_last().take(n - 1) =~= transactions.drop_last());
                lemma_step_keeps_available_defined(
                    account.apply_all(transactions.drop_last()),
                    transactions.last(),
                );
            }
        } else {
            lemma_available_defined_throughout(account, transactions.drop_last());
            assert(transactions.drop_last().take(n) =~= transactions.take(n));
        }
    }
}

/// A rejected transaction leaves the account exactly as it was.
pub proof fn lemma_rejected_changes_nothing(account: AccountView, transaction: Transaction)
    ensures
        account.step(transaction).1 is Rejected ==> account.apply(transaction) == account,
{
}

/// On an account that is not locked, and where the lower total is in range,
/// a withdrawal is applied if and only if its amount is strictly less than
/// the available funds.
pub proof fn lemma_withdrawal_needs_more_than_its_amount(
    account: AccountView,
    client: u16,
    tx: u32,
    amount: Amount,
)
    requires
        account.wf(),
        !account.locked(),
        account.with_funds(account.total.minus(amount@), Some(account.held)) is Some,
    ensures
        account.step(Transaction::Withdrawal { client, tx, amount }).1 == TransitionOutcome::Applied
            <==> amount@.value() < account.available()->0.value(),
{
}

/// On an account that is not locked and has modest balances, a withdrawal
/// of a modest amount is applied if and only if the amount is strictly less
/// than the available funds. Applied, it lowers the total and the available
/// funds by the amount and changes nothing else; rejected, it changes
/// nothing.
pub proof fn lemma_withdrawal_iff_less_than_available(
    account: AccountView,
    client: u16,
    tx: u32,
    amount: Amount,
)
    requires
        !account.locked(),
        account.total.modest(),
        account.held.modest(),
        amount@.modest(),
    ensures
        ({
            let available = account.available();
            let (after, outcome) = account.step(Transaction::Withdrawal { client, tx, amount });
            &&& available is Some
            &&& available->0.value() == account.total.value() - account.held.value()
            &&& outcome == TransitionOutcome::Applied <==> amount@.value() < available->0.value()
            &&& outcome == TransitionOutcome::Applied ==> {
                &&& after.total.value() == account.total.value() - amount@.value()
                &&& after.held == account.held
                &&& after.chargebacks == account.chargebacks
                &&& after.deposits == account.deposits
                &&& after.available() is Some
                &&& after.available()->0.value() == available->0.value() - amount@.value()
            }
            &&& outcome != TransitionOutcome::Applied ==> after == account
        }),
{
    let modest = MODEST_MANTISSA as int;
    lemma_four_digits_in_full(account.total, account.held, modest, modest);
    lemma_difference_in_full(account.total, account.held);
    lemma_four_digits_in_full(account.total, amount@, modest, modest);
    lemma_difference_in_full(account.total, amount@);
    let lower = account.total.minus(amount@)->0;
    lemma_four_digits_in_full(lower, account.held, 2 * modest * 10_000, modest);
    lemma_difference_in_full(lower, account.held);
}

/// A withdrawal of all that is available, or of more, changes nothing.
pub proof fn lemma_withdrawal_of_all_is_rejected(
    account: AccountView,
    client: u16,
    tx: u32,
    amount: Amount,
)
    requires
        account.wf(),
        amount@.value() >= account.available()->0.value(),
    ensures
        account.step(Transaction::Withdrawal { client, tx, amount }).1 is Rejected,
        account.apply(Transaction::Withdrawal { client, tx, amount }) == account,
{
}

/// The first deposit into a fresh account cannot be withdrawn whole: the
/// deposit makes exactly its amount available, and a withdrawal of exactly
/// that amount is rejected.
pub proof fn lemma_first_deposit_cannot_be_withdrawn_whole(
    client: u16,
    deposit: u32,
    withdrawal: u32,
    amount: Amount,
)
    ensures
        ({
            let funded = AccountView::fresh().apply(
                Transaction::Deposit { client, tx: deposit, amount },
            );
            &&& AccountView::fresh().step(Transaction::Deposit { client, tx: deposit, amount }).1
                == TransitionOutcome::Applied
            &&& funded.total == amount@
            &&& funded.available() is Some
            &&& funded.available()->0.value() == amount@.value()
            &&& funded.step(Transaction::Withdrawal { client, tx: withdrawal, amount })
                == (funded, TransitionOutcome::Rejected(RejectReason::InsufficientFunds))
        }),
{
}

/// Where the decimal library keeps full precision, a deposit into an account
/// that is not locked is applied, and raises the total and the available
/// funds by its amount.
pub proof fn lemma_deposit_in_full(account: AccountView, client: u16, tx: u32, amount: Amount)
    requires
        !account.locked(),
        account.in_full(),
        amount@.in_range(),
        account.total.adds_in_full(amount@),
        account.total.plus(amount@) matches Some(total) && total.subtracts_in_full(account.held),
    ensures
        ({
            let (after, outcome) = account.step(Transaction::Deposit { client, tx, amount });
            &&& outcome == TransitionOutcome::Applied
            &&& after.total.value() == account.total.value() + amount@.value()
            &&& after.held == account.held
            &&& after.available()->0.value() == account.available()->0.value() + amount@.value()
            &&& after.deposits == account.deposits.insert(tx, DepositState::fresh(amount))
            &&& after.in_full()
        }),
{
    lemma_sum_in_full(account.total, amount@);
    lemma_difference_in_full(account.total, account.held);
    lemma_difference_in_full(account.total.plus(amount@)->0, account.held);
}

/// Where the decimal library keeps full precision, a withdrawal of less than
/// is available from an account that is not locked is applied, and lowers
/// the total and the available funds by its amount.
pub proof fn lemma_withdrawal_in_full(account: AccountView, client: u16, tx: u32, amount: Amount)
    requires
        !account.locked(),
        account.in_full(),
        amount@.in_range(),
        amount@.value() < account.available()->0.value(),
        account.total.subtracts_in_full(amount@),
        account.total.minus(amount@) matches Some(total) && total.subtracts_in_full(account.held),
    ensures
        ({
            let (after, outcome) = account.step(Transaction::Withdrawal { client, tx, amount });
            &&& outcome == TransitionOutcome::Applied
            &&& after.total.value() == account.total.value() - amount@.value()
            &&& after.held == account.held
            &&& after.available()->0.value() == account.available()->0.value() - amount@.value()
            &&& after.deposits == account.deposits
            &&& after.in_full()
        }),
{
    lemma_difference_in_full(account.total, amount@);
    lemma_difference_in_full(account.total, account.held);
    lemma_difference_in_full(account.total.minus(amount@)->0, account.held);
}

/// Where the decimal library keeps full precision, a dispute of a known
/// deposit is applied: the held funds rise by the amount of the deposit, the
/// available funds fall by it, and the total stays.
pub proof fn lemma_dispute_in_full(account: AccountView, client: u16, tx: u32)
    requires
        account.deposits.contains_key(tx),
        account.in_full(),
        account.deposits[tx].amount@.in_range(),
        account.held.adds_in_full(account.deposits[tx].amount@),
        account.held.plus(account.deposits[tx].amount@) matches Some(held)
            && account.total.subtracts_in_full(held),
    ensures
        ({
            let amount = account.deposits[tx].amount@;
            let (after, outcome) = account.step(Transaction::Dispute { client, tx });
            &&& outcome == TransitionOutcome::Applied
            &&& after.total == account.total
            &&& after.held.value() == account.held.value() + amount.value()
            &&& after.available()->0.value() == account.available()->0.value() - amount.value()
            &&& after.deposits == account.deposits.insert(
                tx,
                DepositState { dispute: true, ..account.deposits[tx] },
            )
            &&& after.in_full()
        }),
{
    let amount = account.deposits[tx].amount@;
    lemma_sum_in_full(account.held, amount);
    lemma_difference_in_full(account.total, account.held);
    lemma_difference_in_full(account.total, account.held.plus(amount)->0);
}

/// Where the decimal library keeps full precision, the resolution of a
/// disputed deposit is applied: the held funds fall by the amount of the
/// deposit and the total rises by it.
pub proof fn lemma_resolve_in_full(account: AccountView, client: u16, tx: u32)
    requires
        account.deposits.contains_key(tx),
        account.deposits[tx].dispute,
        account.in_full(),
        account.deposits[tx].amount@.in_range(),
        account.total.adds_in_full(account.deposits[tx].amount@),
        account.held.subtracts_in_full(account.deposits[tx].amount@),
        account.total.plus(account.deposits[tx].amount@)->0.subtracts_in_full(
            account.held.minus(account.deposits[tx].amount@)->0,
        ),
    ensures
        ({
            let amount = account.deposits[tx].amount@;
            let (after, outcome) = account.step(Transaction::Resolve { client, tx });
            &&& outcome == TransitionOutcome::Applied
            &&& after.total.value() == account.total.value() + amount.value()
            &&& after.held.value() == account.held.value() - amount.value()
            &&& after.deposits == account.deposits.insert(
                tx,
                DepositState { dispute: false, ..account.deposits[tx] },
            )
            &&& after.in_full()
        }),
{
    let amount = account.deposits[tx].amount@;
    lemma_sum_in_full(account.total, amount);
    lemma_difference_in_full(account.held, amount);
    lemma_difference_in_full(account.total.plus(amount)->0, account.held.minus(amount)->0);
}

/// A dispute, a resolution or a chargeback that names no deposit of the
/// account changes nothing.
pub proof fn lemma_unknown_deposit_changes_nothing(account: AccountView, client: u16, tx: u32)
    requires
        !account.deposits.contains_key(tx),
    ensures
        account.apply(Transaction::Dispute { client, tx }) == account,
        account.apply(Transaction::Resolve { client, tx }) == account,
        account.apply(Transaction::Chargeback { client, tx }) == account,
{
}

/// Resolving or charging back a deposit that is not under dispute changes
/// nothing; in particular it does not lock the account.
pub proof fn lemma_undisputed_deposit_changes_nothing(account: AccountView, client: u16, tx: u32)
    requires
        !(account.deposits.contains_key(tx) && account.deposits[tx].dispute),
    ensures
        account.apply(Transaction::Resolve { client, tx }) == account,
        account.apply(Transaction::Chargeback { client, tx }) == account,
{
}

/// Where the decimal library keeps full precision, two disputes, one after
/// the other, lower the available funds by the sum of the amounts of the two
/// deposits, and leave the total alone.
pub proof fn lemma_disputes_add_up(account: AccountView, client: u16, first: u32, second: u32)
    requires
        account.deposits.contains_key(first),
        account.deposits.contains_key(second),
        first != second,
        account.in_full(),
        account.deposits[first].amount@.in_range(),
        account.deposits[second].amount@.in_range(),
        account.held.adds_in_full(account.deposits[first].amount@),
        account.held.plus(account.deposits[first].amount@) matches Some(held)
            && account.total.subtracts_in_full(held) && held.adds_in_full(
            account.deposits[second].amount@,
        ) && (held.plus(account.deposits[second].amount@) matches Some(both)
            && account.total.subtracts_in_full(both)),
    ensures
        ({
            let (once, first_outcome) = account.step(Transaction::Dispute { client, tx: first });
            let (after, second_outcome) = once.step(Transaction::Dispute { client, tx: second });
            let sum = account.deposits[first].amount@.value()
                + account.deposits[second].amount@.value();
            &&& first_outcome == TransitionOutcome::Applied
            &&& second_outcome == TransitionOutcome::Applied
            &&& after.total == account.total
            &&& after.held.value() == account.held.value() + sum
            &&& after.available()->0.value() == account.available()->0.value() - sum
            &&& after.deposits[first].dispute
            &&& after.deposits[second].dispute
        }),
{
    lemma_dispute_in_full(account, client, first);
    lemma_dispute_in_full(account.apply(Transaction::Dispute { client, tx: first }), client, second);
}

/// A chargeback of a disputed deposit locks the account, and no transaction
/// unlocks it again.
pub proof fn lemma_lock_is_permanent(account: AccountView, transaction: Transaction)
    ensures
        transaction matches Transaction::Chargeback { tx, .. } && account.deposits.contains_key(tx)
            && account.deposits[tx].dispute ==> account.apply(transaction).locked(),
        account.locked() ==> account.apply(transaction).locked(),
{
}

/// A locked account takes no deposit and no withdrawal. Disputes,
/// resolutions and chargebacks do not ask whether the account is locked:
/// they do to a locked account what they do to the same account unlocked.
pub proof fn lemma_lock_blocks_deposits_and_withdrawals_only(
    account: AccountView,
    transaction: Transaction,
)
    requires
        account.locked(),
    ensures
        transaction is Deposit || transaction is Withdrawal ==> account.apply(transaction)
            == account && account.step(transaction).1 == TransitionOutcome::Rejected(
            RejectReason::AccountLocked,
        ),
        !(transaction is Deposit || transaction is Withdrawal) ==> ({
            let unlocked = AccountView { chargebacks: 0, ..account };
            &&& account.step(transaction).1 == unlocked.step(transaction).1
            &&& account.apply(transaction).total == unlocked.apply(transaction).total
            &&& account.apply(transaction).held == unlocked.apply(transaction).held
            &&& account.apply(transaction).deposits == unlocked.apply(transaction).deposits
        }),
{
}

/// One row of a report: the balances of one client's account.
#[derive(Clone, Copy, Debug)]
pub struct AccountSnapshot {
    pub client: u16,
    pub available: Amount,
    pub held: Amount,
    pub total: Amount,
    pub locked: bool,
}

impl AccountSnapshot {
    /// Whether the row shows the balances and the lock of `account`.
    pub open spec fn shows(self, account: AccountView) -> bool {
        &&& account.available() == Some(self.available@)
        &&& self.held@ == account.held
        &&& self.total@ == account.total
        &&& self.locked == account.locked()
    }
}

/// The two balances of an account with the available funds that follow
/// from them. They are only ever held together where that difference is in
/// range.
struct Funds {
    total: Amount,
    held: Amount,
    available: Amount,
}

impl Funds {
    /// The available funds are the total less the held funds.
    #[verifier::type_invariant]
    closed spec fn available_is_difference(self) -> bool {
        self.total@.minus(self.held@) == Some(self.available@)
    }

    /// The two balances as funds, if both are there and their difference is
    /// in range.
    fn checked(total: Option<Amount>, held: Option<Amount>) -> (r: Option<Funds>)
        ensures
            r is Some <==> (total is Some && held is Some && total->0@.minus(held->0@) is Some),
            r matches Some(f) ==> f.total == total->0 && f.held == held->0,
    {
        match (total, held) {
            (Some(t), Some(h)) => {
                match t.checked_sub(h) {
                    Some(a) => Some(Funds { total: t, held: h, available: a }),
                    None => None,
                }
            },
            _ => None,
        }
    }
}

/// One client's account.
pub struct AccountState {
    funds: Funds,
    chargebacks: u32,
    deposits: HashMap<u32, DepositState>,
}

impl View for AccountState {
    type V = AccountView;

    closed spec fn view(&self) -> AccountView {
        AccountView {
            held: self.funds.held@,
            total: self.funds.total@,
            chargebacks: self.chargebacks,
            deposits: self.deposits@,
        }
    }
}

impl AccountState {
    /// An account to which nothing has happened yet.
    pub fn new() -> (r: AccountState)
        ensures
            r@ == AccountView::fresh(),
    {
        let zero = Amount::zero();
        let funds = Funds::checked(Some(zero), Some(zero)).unwrap();
        proof {
            use_type_invariant(&funds);
        }
        AccountState { funds, chargebacks: 0, deposits: HashMap::new() }
    }

    /// Total funds less held funds.
    pub fn available(&self) -> (r: Amount)
        ensures
            self@.available() == Some(r@),
    {
        proof {
            use_type_invariant(&self.funds);
        }
        self.funds.available
    }

    /// Funds under dispute.
    pub fn held(&self) -> (r: Amount)
        ensures
            r@ == self@.held,
    {
        self.funds.held
    }

    /// All funds of the account.
    pub fn total(&self) -> (r: Amount)
        ensures
            r@ == self@.total,
    {
        self.funds.total
    }

    /// How many chargebacks were applied to the account.
    pub fn chargebacks(&self) -> (r: u32)
        ensures
            r == self@.chargebacks,
    {
        self.chargebacks
    }

    /// Whether a chargeback has locked the account.
    pub fn locked(&self) -> (r: bool)
        ensures
            r == self@.locked(),
    {
        self.chargebacks != 0
    }

    /// The account's row in a report, under the name of `client`.
    pub fn snapshot(&self, client: u16) -> (r: AccountSnapshot)
        ensures
            r.client == client,
            r.shows(self@),
    {
        AccountSnapshot {
            client,
            available: self.available(),
            held: self.held(),
            total: self.total(),
            locked: self.locked(),
        }
    }

    /// What the account remembers of deposit `tx`, if it was made.
    pub fn deposit(&self, tx: u32) -> (r: Option<DepositState>)
        ensures
            r == self@.deposits.get(tx),
    {
        match self.deposits.get(&tx) {
            Some(d) => Some(*d),
            None => None,
        }
    }

    /// Applies `transaction` to the account and says what it did. The
    /// transaction's client is not looked at.
    pub fn transact(&mut self, transaction: Transaction) -> (r: TransitionOutcome)
        ensures
            (final(self)@, r) == old(self)@.step(transaction),
            final(self)@.wf(),
    {
        proof {
            use_type_invariant(&self.funds);
        }
        match transaction {
            Transaction::Deposit { tx, amount, .. } => {
                if self.locked() {
                    return TransitionOutcome::Rejected(RejectReason::AccountLocked);
                }
                let total = self.funds.total.checked_add(amount);
                match Funds::checked(total, Some(self.funds.held)) {
                    Some(funds) => {
                        self.funds = funds;
                        self.deposits.insert(tx, DepositState::new(amount));
                        TransitionOutcome::Applied
                    },
                    None => TransitionOutcome::Rejected(RejectReason::OutOfRange),
                }
            },
            Transaction::Withdrawal { amount, .. } => {
                if self.locked() {
                    return TransitionOutcome::Rejected(RejectReason::AccountLocked);
                }
                if !self.funds.available.gt(amount) {
                    return TransitionOutcome::Rejected(RejectReason::InsufficientFunds);
                }
                let total = self.funds.total.checked_sub(amount);
                match Funds::checked(total, Some(self.funds.held)) {
                    Some(funds) => {
                        self.funds = funds;
                        TransitionOutcome::Applied
                    },
                    None => TransitionOutcome::Rejected(RejectReason::OutOfRange),
                }
            },
            Transaction::Dispute { tx, .. } => {
                let deposit = match self.deposit(tx) {
                    Some(d) => d,
                    None => {
                        return TransitionOutcome::Rejected(RejectReason::UnknownDeposit);
                    },
                };
                let held = self.funds.held.checked_add(deposit.amount);
                match Funds::checked(Some(self.funds.total), held) {
                    Some(funds) => {
                        self.funds = funds;
                        self.deposits.insert(tx, DepositState { dispute: true, ..deposit });
                        TransitionOutcome::Applied
                    },
                    None => TransitionOutcome::Rejected(RejectReason::OutOfRange),
                }
            },
            Transaction::Resolve { tx, .. } => {
                let deposit = match self.deposit(tx) {
                    Some(d) => d,
                    None => {
                        return TransitionOutcome::Rejected(RejectReason::UnknownDeposit);
                    },
                };
                if !deposit.dispute {
                    return TransitionOutcome::Rejected(RejectReason::NotDisputed);
                }
                let total = self.funds.total.checked_add(deposit.amount);
                let held = self.funds.held.checked_sub(deposit.amount);
                match Funds::checked(total, held) {
                    Some(funds) => {
                        self.funds = funds;
                        self.deposits.insert(tx, DepositState { dispute: false, ..deposit });
                        TransitionOutcome::Applied
                    },
                    None => TransitionOutcome::Rejected(RejectReason::OutOfRange),
                }
            },
            Transaction::Chargeback { tx, .. } => {
                let deposit = match self.deposit(tx) {
                    Some(d) => d,
                    None => {
                        return TransitionOutcome::Rejected(RejectReason::UnknownDeposit);
                    },
                };
                if !deposit.dispute {
                    return TransitionOutcome::Rejected(RejectReason::NotDisputed);
                }
                self.deposits.insert(tx, DepositState { chargeback: true, ..deposit });
                if self.chargebacks < u32::MAX {
                    self.chargebacks = self.chargebacks + 1;
                }
                TransitionOutcome::Applied
            },
        }
    }
}

} // verus!
