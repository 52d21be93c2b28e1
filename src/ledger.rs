//! The payment verifier: payment intents, and their matching against the
//! transfers that the external ledger recorded.
use vstd::prelude::*;

use crate::principal::{PrincipalId, MAX_PRINCIPAL_LEN};

verus! {

/// The flat fee, in the ledger's smallest unit, that a payment intent asks for.
pub const PAYMENT_AMOUNT: u64 = 100_000_000;

/// The ledger account text of `owner`'s default sub-account.
pub uninterp spec fn account_text_of(owner: Seq<u8>) -> Seq<char>;

/// Relies on `ic_ledger_types::AccountIdentifier::new` with the default
/// sub-account: the account of an identity depends on its bytes alone; the
/// account's text is its hex form.
#[verifier::external_body]
fn account_text(owner: &PrincipalId) -> (r: String)
    requires
        owner@.len() <= MAX_PRINCIPAL_LEN,
    ensures
        r@ == account_text_of(owner@),
{
    let principal = candid::Principal::from_slice(owner.as_bytes().as_slice());
    ic_ledger_types::AccountIdentifier::new(&principal, &ic_ledger_types::DEFAULT_SUBACCOUNT).to_string()
}

/// Whether an intent has been paid for.
#[derive(Clone, Copy, Debug, PartialEq, Eq, Structural)]
pub enum PaymentStatus {
    Unpaid,
    Paid,
}

/// A payment intent: who pays whom, how much, under which memo.
#[derive(Debug)]
pub struct TransactionItem {
    pub from: String,
    pub to: String,
    pub memo: u64,
    pub amount: u64,
    pub status: PaymentStatus,
}

impl Clone for TransactionItem {
    fn clone(&self) -> (r: Self)
        ensures
            r == *self,
    {
        TransactionItem {
            from: self.from.clone(),
            to: self.to.clone(),
            memo: self.memo,
            amount: self.amount,
            status: self.status,
        }
    }
}

/// What a ledger block records, as far as payments are concerned.
#[derive(Clone, Debug)]
pub enum LedgerOperation {
    /// A transfer between two accounts, given by their text.
    Transfer { from: String, to: String, amount: u64 },
    /// Any other operation.
    Other,
}

/// A ledger block: the memo of its transaction and what it did.
#[derive(Clone, Debug)]
pub struct LedgerBlock {
    pub memo: u64,
    pub operation: LedgerOperation,
}

/// Why a payment could not be verified.
#[derive(Clone, Debug, PartialEq, Eq)]
pub enum VerificationError {
    /// No unpaid intent of the caller carries the memo.
    NoSuchIntent,
    /// The block could not be fetched from the ledger.
    BlockFetchError(String),
    /// The block does not record a transfer.
    NotATransfer,
    /// The transfer differs from the intent.
    Mismatch,
}

/// Why no payment intent could be made.
#[derive(Clone, Copy, Debug, PartialEq, Eq, Structural)]
pub enum PaymentError {
    /// The randomness source returned no bytes.
    NoRandomness,
}

/// The big-endian value of the bytes `s`.
pub open spec fn be_value(s: Seq<u8>) -> nat
    decreases s.len(),
{
    if s.len() == 0 {
        0
    } else {
        be_value(s.drop_last()) * 256 + s.last() as nat
    }
}

/// The memo drawn from random bytes: the big-endian value of the first
/// eight of them (or of all, where there are fewer).
pub open spec fn memo_of_random(r: Seq<u8>) -> nat {
    if r.len() <= 8 {
        be_value(r)
    } else {
        be_value(r.subrange(0, 8))
    }
}

/// 256 to the power `n`.
pub open spec fn pow256(n: nat) -> nat
    decreases n,
{
    if n == 0 {
        1
    } else {
        256 * pow256((n - 1) as nat)
    }
}

proof fn lemma_be_value_bound(s: Seq<u8>)
    ensures
        be_value(s) < pow256(s.len()),
    decreases s.len(),
{
    if s.len() > 0 {
        lemma_be_value_bound(s.drop_last());
        let p = pow256((s.len() - 1) as nat);
        let v = be_value(s.drop_last());
        let b = s.last() as nat;
        assert(v * 256 + b < p * 256) by (nonlinear_arith)
            requires
                v < p,
                b < 256,
        ;
    }
}

proof fn lemma_pow256_mono(i: nat, j: nat)
    requires
        i <= j,
    ensures
        pow256(i) <= pow256(j),
    decreases j,
{
    if i < j {
        lemma_pow256_mono(i, (j - 1) as nat);
    }
}

/// The memo for a new intent, drawn from `random`; `None` where it is empty.
pub fn memo_from_random(random: &Vec<u8>) -> (r: Option<u64>)
    ensures
        r is None <==> random@.len() == 0,
        r matches Some(m) ==> m as nat == memo_of_random(random@),
{
    let n = random.len();
    if n == 0 {
        return None;
    }
    let k: usize = if n < 8 {
        n
    } else {
        8
    };
    let mut acc: u64 = 0;
    let mut i: usize = 0;
    while i < k
        invariant
            k <= 8,
            k <= random@.len(),
            0 <= i <= k,
            acc as nat == be_value(random@.subrange(0, i as int)),
        decreases k - i,
    {
        proof {
            let s = random@.subrange(0, i as int);
            lemma_be_value_bound(s);
            lemma_pow256_mono(i as nat, 7);
            reveal_with_fuel(pow256, 8);
            assert(pow256(7) == 72057594037927936);
            assert(random@.subrange(0, i + 1).drop_last() =~= s);
        }
        acc = acc * 256 + random[i] as u64;
        i = i + 1;
    }
    proof {
        if n <= 8 {
            assert(random@.subrange(0, n as int) =~= random@);
        }
    }
    Some(acc)
}

/// Whether `t` is an unpaid intent from `from` to `to` under `memo`.
pub open spec fn intent_matches(t: TransactionItem, from: Seq<char>, to: Seq<char>, memo: u64) -> bool {
    &&& t.from@ == from
    &&& t.to@ == to
    &&& t.memo == memo
    &&& t.status == PaymentStatus::Unpaid
}

/// The position of the first unpaid intent from `from` to `to` under `memo`.
pub open spec fn first_match(s: Seq<TransactionItem>, from: Seq<char>, to: Seq<char>, memo: u64) -> Option<int>
    decreases s.len(),
{
    if s.len() == 0 {
        None
    } else {
        match first_match(s.drop_last(), from, to, memo) {
            Some(k) => Some(k),
            None => if intent_matches(s.last(), from, to, memo) {
                Some(s.len() - 1)
            } else {
                None
            },
        }
    }
}

/// What checking the fetched block against an intent gives.
pub open spec fn transfer_result(
    payer: Seq<char>,
    receiver: Seq<char>,
    memo: u64,
    price: u64,
    fetched: Result<LedgerBlock, String>,
) -> Result<bool, VerificationError> {
    match fetched {
        Err(msg) => Err(VerificationError::BlockFetchError(msg)),
        Ok(block) => match block.operation {
            LedgerOperation::Transfer { from, to, amount } => {
                if from@ == payer && to@ == receiver && amount == price && block.memo == memo {
                    Ok(true)
                } else {
                    Err(VerificationError::Mismatch)
                }
            },
            LedgerOperation::Other => Err(VerificationError::NotATransfer),
        },
    }
}

/// What a verification does to the intents, and what it returns: it finds
/// the intent, checks the block against it, and where `consume` is set and
/// the check passed, marks the intent paid.
pub open spec fn verify_step(
    s: Seq<TransactionItem>,
    from: Seq<char>,
    to: Seq<char>,
    memo: u64,
    fetched: Result<LedgerBlock, String>,
    consume: bool,
) -> (Seq<TransactionItem>, Result<bool, VerificationError>) {
    match first_match(s, from, to, memo) {
        None => (s, Err(VerificationError::NoSuchIntent)),
        Some(k) => {
            let r = transfer_result(from, to, memo, s[k].amount, fetched);
            if consume && r is Ok {
                (s.update(k, TransactionItem { status: PaymentStatus::Paid, ..s[k] }), r)
            } else {
                (s, r)
            }
        },
    }
}

/// Checks the fetched block against an intent: it must be a transfer from
/// `payer` to `receiver` of exactly `price` under `memo`.
pub fn check_transfer(
    payer: &String,
    receiver: &String,
    memo: u64,
    price: u64,
    fetched: &Result<LedgerBlock, String>,
) -> (r: Result<bool, VerificationError>)
    ensures
        r == transfer_result(payer@, receiver@, memo, price, *fetched),
{
    match fetched {
        Err(msg) => Err(VerificationError::BlockFetchError(msg.clone())),
        Ok(block) => match &block.operation {
            LedgerOperation::Transfer { from, to, amount } => {
                if *from == *payer && *to == *receiver && *amount == price && block.memo == memo {
                    Ok(true)
                } else {
                    Err(VerificationError::Mismatch)
                }
            },
            LedgerOperation::Other => Err(VerificationError::NotATransfer),
        },
    }
}

/// The payment intents made so far, in the order they were made.
pub struct ICPService {
    pub transactions: Vec<TransactionItem>,
}

impl ICPService {
    /// No intents.
    pub fn new() -> (r: ICPService)
        ensures
            r.transactions@ == Seq::<TransactionItem>::empty(),
    {
        ICPService { transactions: Vec::new() }
    }

    /// Makes, records and returns an unpaid intent for the flat fee from
    /// `caller`'s account to `self_id`'s, under a memo drawn from `random`.
    pub fn get_pay_info(&mut self, caller: &PrincipalId, self_id: &PrincipalId, random: &Vec<u8>) -> (r: Result<TransactionItem, PaymentError>)
        ensures
            r is Err <==> random@.len() == 0,
            r is Err ==> final(self).transactions@ == old(self).transactions@,
            r matches Ok(item) ==> {
                &&& item.from@ == account_text_of(caller@)
                &&& item.to@ == account_text_of(self_id@)
                &&& item.memo as nat == memo_of_random(random@)
                &&& item.amount == PAYMENT_AMOUNT
                &&& item.status == PaymentStatus::Unpaid
                &&& final(self).transactions@ == old(self).transactions@.push(item)
            },
    {
        let memo = match memo_from_random(random) {
            Some(m) => m,
            None => return Err(PaymentError::NoRandomness),
        };
        // the identities' length bound, which the account derivation needs
        let _ = caller.len();
        let _ = self_id.len();
        let item = TransactionItem {
            from: account_text(caller),
            to: account_text(self_id),
            memo,
            amount: PAYMENT_AMOUNT,
            status: PaymentStatus::Unpaid,
        };
        self.transactions.push(item.clone());
        Ok(item)
    }

    /// The position of the first unpaid intent from `from` to `to` under `memo`.
    fn find_intent(&self, from: &String, to: &String, memo: u64) -> (r: Option<usize>)
        ensures
            r is None <==> first_match(self.transactions@, from@, to@, memo) is None,
            r matches Some(k) ==> first_match(self.transactions@, from@, to@, memo) == Some(k as int)
                && k < self.transactions@.len(),
    {
        proof {
            lemma_first_match_found(self.transactions@, from@, to@, memo);
        }
        let mut i: usize = 0;
        while i < self.transactions.len()
            invariant
                0 <= i <= self.transactions@.len(),
                first_match(self.transactions@.subrange(0, i as int), from@, to@, memo) is None,
            decreases self.transactions@.len() - i,
        {
            let t = &self.transactions[i];
            proof {
                assert(self.transactions@.subrange(0, i + 1).drop_last() =~= self.transactions@.subrange(0, i as int));
            }
            if t.from == *from && t.to == *to && t.memo == memo && t.status == PaymentStatus::Unpaid {
                proof {
                    lemma_first_match_prefix(self.transactions@, from@, to@, memo, i as int);
                }
                return Some(i);
            }
            i = i + 1;
        }
        proof {
            assert(self.transactions@.subrange(0, i as int) =~= self.transactions@);
        }
        None
    }

    /// Verifies a payment of `caller` to `self_id` under `memo` against the
    /// block fetched from the ledger, and where `consume` is set and the check
    /// passed, marks the intent paid. Nothing changes otherwise.
    pub fn validate_transfer(
        &mut self,
        caller: &PrincipalId,
        self_id: &PrincipalId,
        memo: u64,
        fetched: &Result<LedgerBlock, String>,
        consume: bool,
    ) -> (r: Result<bool, VerificationError>)
        ensures
            (final(self).transactions@, r) == verify_step(
                old(self).transactions@,
                account_text_of(caller@),
                account_text_of(self_id@),
                memo,
                *fetched,
                consume,
            ),
    {
        // the identities' length bound, which the account derivation needs
        let _ = caller.len();
        let _ = self_id.len();
        let from = account_text(caller);
        let to = account_text(self_id);
        let k = match self.find_intent(&from, &to, memo) {
            Some(k) => k,
            None => return Err(VerificationError::NoSuchIntent),
        };
        let amount = self.transactions[k].amount;
        let r = check_transfer(&from, &to, memo, amount, fetched);
        if consume && r.is_ok() {
            let mut item = self.transactions[k].clone();
            item.status = PaymentStatus::Paid;
            proof {
                let t = old(self).transactions@[k as int];
                assert(item == TransactionItem { status: PaymentStatus::Paid, ..t });
            }
            self.transactions.set(k, item);
        }
        r
    }

    /// The intents made so far.
    pub fn transaction_log(&self) -> (r: Vec<TransactionItem>)
        ensures
            r@ == self.transactions@,
    {
        let mut out: Vec<TransactionItem> = Vec::new();
        let mut i: usize = 0;
        while i < self.transactions.len()
            invariant
                0 <= i <= self.transactions@.len(),
                out@ == self.transactions@.subrange(0, i as int),
            decreases self.transactions@.len() - i,
        {
            out.push(self.transactions[i].clone());
            i = i + 1;
            proof {
                assert(out@ =~= self.transactions@.subrange(0, i as int));
            }
        }
        proof {
            assert(self.transactions@.subrange(0, i as int) =~= self.transactions@);
        }
        out
    }
}

proof fn lemma_first_match_found(s: Seq<TransactionItem>, from: Seq<char>, to: Seq<char>, memo: u64)
    ensures
        first_match(s, from, to, memo) matches Some(k) ==> 0 <= k < s.len() && intent_matches(s[k], from, to, memo),
    decreases s.len(),
{
    if s.len() > 0 {
        lemma_first_match_found(s.drop_last(), from, to, memo);
    }
}

proof fn lemma_first_match_prefix(s: Seq<TransactionItem>, from: Seq<char>, to: Seq<char>, memo: u64, i: int)
    requires
        0 <= i < s.len(),
        first_match(s.subrange(0, i), from, to, memo) is None,
        intent_matches(s[i], from, to, memo),
    ensures
        first_match(s, from, to, memo) == Some(i),
    decreases s.len(),
{
    if i == s.len() - 1 {
        assert(s.drop_last() =~= s.subrange(0, i));
    } else {
        assert(s.drop_last().subrange(0, i) =~= s.subrange(0, i));
        lemma_first_match_prefix(s.drop_last(), from, to, memo, i);
    }
}

/// Verifying twice with the same coordinates, without consuming, returns the
/// same result both times and leaves every intent as it was.
pub proof fn lemma_verify_idempotent(
    s: Seq<TransactionItem>,
    from: Seq<char>,
    to: Seq<char>,
    memo: u64,
    fetched: Result<LedgerBlock, String>,
)
    ensures
        verify_step(s, from, to, memo, fetched, false).0 == s,
        verify_step(verify_step(s, from, to, memo, fetched, false).0, from, to, memo, fetched, false)
            == verify_step(s, from, to, memo, fetched, false),
{
}

/// A transfer passes the check of an intent exactly when its payer, receiver,
/// amount and memo are all those of the intent; changing any one of them
/// makes it fail.
pub proof fn lemma_exact_match_gate(
    payer: Seq<char>,
    receiver: Seq<char>,
    memo: u64,
    price: u64,
    block: LedgerBlock,
    from: String,
    to: String,
    amount: u64,
)
    requires
        block.operation == (LedgerOperation::Transfer { from, to, amount }),
    ensures
        transfer_result(payer, receiver, memo, price, Ok(block)) is Ok <==> (from@ == payer
            && to@ == receiver && amount == price && block.memo == memo),
        transfer_result(payer, receiver, memo, price, Ok(block)) is Ok ==> transfer_result(
            payer,
            receiver,
            memo,
            price,
            Ok(block),
        ) == Ok::<bool, VerificationError>(true),
{
}

} // verus!
