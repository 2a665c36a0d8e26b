//! The five kinds of transaction an account understands.

use vstd::prelude::*;
use crate::amount::Amount;

verus! {

/// One validated input record. `client` names the account it is for; `tx`
/// names the deposit or withdrawal itself or, for the other three kinds, the
/// deposit that is being disputed, resolved or charged back.
#[derive(Clone, Copy, Debug)]
pub enum Transaction {
    Deposit { client: u16, tx: u32, amount: Amount },
    Withdrawal { client: u16, tx: u32, amount: Amount },
    Dispute { client: u16, tx: u32 },
    Resolve { client: u16, tx: u32 },
    Chargeback { client: u16, tx: u32 },
}

impl Transaction {
    /// The client whose account the transaction is for.
    pub open spec fn client(self) -> u16 {
        match self {
            Transaction::Deposit { client, .. } => client,
            Transaction::Withdrawal { client, .. } => client,
            Transaction::Dispute { client, .. } => client,
            Transaction::Resolve { client, .. } => client,
            Transaction::Chargeback { client, .. } => client,
        }
    }

    /// The client whose account the transaction is for.
    pub fn id(&self) -> (r: &u16)
        ensures
            *r == self.client(),
    {
        match self {
            Self::Deposit { client, .. } => client,
            Self::Withdrawal { client, .. } => client,
            Self::Dispute { client, .. } => client,
            Self::Resolve { client, .. } => client,
            Self::Chargeback { client, .. } => client,
        }
    }
}

/// Why a record is no transaction.
#[derive(Clone, Copy, Debug, PartialEq, Eq, Structural)]
pub enum RecordError {
    /// The kind is none of the five that exist.
    UnknownKind,
    /// A deposit or a withdrawal came without an amount.
    MissingAmount,
}

/// The number of fractional digits that an amount keeps on the way in.
pub const AMOUNT_DIGITS: u32 = 4;

/// Whether `result` is what the record `(kind, client, tx, amount)` stands
/// for. The kind is one of five lower-case words. A deposit and a withdrawal
/// carry the amount, rounded to four fractional digits; for the other kinds
/// the amount is not looked at.
pub open spec fn reads_as(
    kind: Seq<char>,
    client: u16,
    tx: u32,
    amount: Option<Amount>,
    result: Result<Transaction, RecordError>,
) -> bool {
    if kind == "deposit"@ {
        match amount {
            Some(a) => result matches Ok(Transaction::Deposit { client: c, tx: t, amount: m }) && c
                == client && t == tx && m@ == a@.rounded(AMOUNT_DIGITS as int),
            None => result == Err::<Transaction, RecordError>(RecordError::MissingAmount),
        }
    } else if kind == "withdrawal"@ {
        match amount {
            Some(a) => result matches Ok(Transaction::Withdrawal { client: c, tx: t, amount: m })
                && c == client && t == tx && m@ == a@.rounded(AMOUNT_DIGITS as int),
            None => result == Err::<Transaction, RecordError>(RecordError::MissingAmount),
        }
    } else if kind == "dispute"@ {
        result == Ok::<Transaction, RecordError>(Transaction::Dispute { client, tx })
    } else if kind == "resolve"@ {
        result == Ok::<Transaction, RecordError>(Transaction::Resolve { client, tx })
    } else if kind == "chargeback"@ {
        result == Ok::<Transaction, RecordError>(Transaction::Chargeback { client, tx })
    } else {
        result == Err::<Transaction, RecordError>(RecordError::UnknownKind)
    }
}

/// Whether two texts are the same.
fn same_text(a: &str, b: &str) -> (r: bool)
    ensures
        r == (a@ == b@),
{
    let len = a.unicode_len();
    if len != b.unicode_len() {
        return false;
    }
    let mut i: usize = 0;
    while i < len
        invariant
            len == a@.len(),
            len == b@.len(),
            i <= len,
            forall|j: int| 0 <= j < i ==> a@[j] == b@[j],
        decreases len - i,
    {
        if a.get_char(i) != b.get_char(i) {
            return false;
        }
        i = i + 1;
    }
    assert(a@ =~= b@);
    true
}

impl Transaction {
    /// The transaction that one input record stands for.
    pub fn from_record(kind: &str, client: u16, tx: u32, amount: Option<Amount>) -> (r: Result<
        Transaction,
        RecordError,
    >)
        ensures
            reads_as(kind@, client, tx, amount, r),
    {
        if same_text(kind, "deposit") {
            match amount {
                Some(a) => Ok(Transaction::Deposit { client, tx, amount: a.round_dp(AMOUNT_DIGITS) }),
                None => Err(RecordError::MissingAmount),
            }
        } else if same_text(kind, "withdrawal") {
            match amount {
                Some(a) => Ok(
                    Transaction::Withdrawal { client, tx, amount: a.round_dp(AMOUNT_DIGITS) },
                ),
                None => Err(RecordError::MissingAmount),
            }
        } else if same_text(kind, "dispute") {
            Ok(Transaction::Dispute { client, tx })
        } else if same_text(kind, "resolve") {
            Ok(Transaction::Resolve { client, tx })
        } else if same_text(kind, "chargeback") {
            Ok(Transaction::Chargeback { client, tx })
        } else {
            Err(RecordError::UnknownKind)
        }
    }
}

} // verus!
