use vstd::prelude::*;
use vstd::string::StringSliceAdditionalSpecFns;

verus! {

/// The persisted record is `{"tokens_left":N}`; this is the text before `N`.
pub const RECORD_OPENING: &'static str = "{\"tokens_left\":";

/// The byte after `N` in the persisted record (`}`).
pub const RECORD_CLOSING: u8 = 125u8;

/// The ASCII decimal digits of `n`, with no leading zero.
pub open spec fn decimal(n: nat) -> Seq<u8>
    decreases n,
{
    if n < 10 {
        seq![(48 + n) as u8]
    } else {
        decimal(n / 10).push((48 + n % 10) as u8)
    }
}

/// What `serde_json::from_slice::<u64>` makes of `text`.
pub uninterp spec fn json_u64_of(text: Seq<u8>) -> Option<u64>;

/// The bytes of `RECORD_OPENING`.
pub open spec fn opening_bytes() -> Seq<u8> {
    RECORD_OPENING.spec_bytes()
}

/// The persisted record that holds the balance `n`.
pub open spec fn record_bytes(n: nat) -> Seq<u8> {
    opening_bytes() + decimal(n) + seq![RECORD_CLOSING]
}

/// The balance that a persisted record holds, or `None` where it is corrupt.
pub open spec fn record_balance(b: Seq<u8>) -> Option<u64> {
    let k = opening_bytes().len();
    if b.len() > k && b.take(k as int) == opening_bytes() && b.last() == RECORD_CLOSING {
        json_u64_of(b.subrange(k as int, b.len() - 1))
    } else {
        None
    }
}

/// The balance after a debit of `amount` from `credits`: a debit larger than the
/// balance exhausts it.
pub open spec fn debited(credits: int, amount: int) -> int {
    if amount <= credits {
        credits - amount
    } else {
        0
    }
}

/// The balance after each debit of `debits` in turn.
pub open spec fn balance_after(credits: int, debits: Seq<int>) -> int
    decreases debits.len(),
{
    if debits.len() == 0 {
        credits
    } else {
        debited(balance_after(credits, debits.drop_last()), debits.last())
    }
}

/// Relies on `serde_json::to_vec` for a `u64`, which writes the number's decimal
/// digits (through `itoa`) and cannot fail for an integer.
#[verifier::external_body]
fn json_of_u64(n: u64) -> (r: Vec<u8>)
    ensures
        r@ == decimal(n as nat),
{
    serde_json::to_vec(&n).unwrap_or_default()
}

/// Relies on `serde_json::from_slice::<u64>`: the result depends on the bytes
/// alone, and the decimal digits of a `u64` read back as that number.
#[verifier::external_body]
fn u64_of_json(text: &[u8]) -> (r: Option<u64>)
    ensures
        r == json_u64_of(text@),
        forall|n: u64| text@ == #[trigger] decimal(n as nat) ==> r == Some(n),
{
    serde_json::from_slice::<u64>(text).ok()
}

/// Why a persisted ledger could not be loaded.
#[derive(Clone, Copy, Debug, PartialEq, Eq, Structural)]
pub enum LedgerError {
    /// The stored record exists but does not hold a balance.
    Corrupt,
}

/// The balance of credits that all chats spend from.
#[derive(Debug, PartialEq, Eq, Structural)]
pub struct TokenDispenser {
    tokens_left: u64,
}

impl View for TokenDispenser {
    type V = nat;

    closed spec fn view(&self) -> nat {
        self.tokens_left as nat
    }
}

impl TokenDispenser {
    /// Loads the ledger from the stored record, or starts it at `initial_tokens`
    /// where nothing is stored yet (the caller then stores `record()`).
    pub fn new(stored: Option<Vec<u8>>, initial_tokens: u64) -> (r: Result<
        TokenDispenser,
        LedgerError,
    >)
        ensures
            stored is None ==> r is Ok && r->Ok_0@ == initial_tokens,
            stored is Some ==> match record_balance(stored->Some_0@) {
                Some(n) => r is Ok && r->Ok_0@ == n,
                None => r == Err::<TokenDispenser, LedgerError>(LedgerError::Corrupt),
            },
            forall|n: u64|
                stored is Some && stored->Some_0@ == #[trigger] record_bytes(n as nat) ==> r is Ok && r->Ok_0@ == n,
    {
        match stored {
            None => Ok(TokenDispenser { tokens_left: initial_tokens }),
            Some(bytes) => match Self::balance_of_record(&bytes) {
                Some(n) => Ok(TokenDispenser { tokens_left: n }),
                None => Err(LedgerError::Corrupt),
            },
        }
    }

    /// Reads the balance out of a persisted record.
    pub fn balance_of_record(bytes: &Vec<u8>) -> (r: Option<u64>)
        ensures
            r == record_balance(bytes@),
            forall|n: u64| bytes@ == #[trigger] record_bytes(n as nat) ==> r == Some(n),
    {
        let head = RECORD_OPENING.as_bytes();
        let k = head.len();
        if bytes.len() <= k || bytes[bytes.len() - 1] != RECORD_CLOSING {
            return None;
        }
        let mut i: usize = 0;
        while i < k
            invariant
                head@ == opening_bytes(),
                k == opening_bytes().len(),
                k < bytes@.len(),
                i <= k,
                bytes@.take(i as int) == opening_bytes().take(i as int),
            decreases k - i,
        {
            if bytes[i] != head[i] {
                assert(bytes@.take(k as int)[i as int] != opening_bytes()[i as int]);
                return None;
            }
            assert(bytes@.take(i + 1) =~= bytes@.take(i as int).push(bytes@[i as int]));
            assert(opening_bytes().take(i + 1) =~= opening_bytes().take(i as int).push(
                opening_bytes()[i as int],
            ));
            i = i + 1;
        }
        assert(opening_bytes().take(k as int) =~= opening_bytes());
        let mut middle: Vec<u8> = Vec::new();
        let end = bytes.len() - 1;
        let mut j: usize = k;
        while j < end
            invariant
                k <= j <= end,
                end == bytes@.len() - 1,
                middle@ == bytes@.subrange(k as int, j as int),
            decreases end - j,
        {
            middle.push(bytes[j]);
            j = j + 1;
            assert(middle@ =~= bytes@.subrange(k as int, j as int));
        }
        let r = u64_of_json(middle.as_slice());
        proof {
            assert forall|n: u64| bytes@ == #[trigger] record_bytes(n as nat) implies r == Some(
                n,
            ) by {
                assert(bytes@.subrange(k as int, end as int) =~= decimal(n as nat));
            }
        }
        r
    }

    /// The credits that remain.
    pub fn tokens_left(&self) -> (r: u64)
        ensures
            r == self@,
    {
        self.tokens_left
    }

    /// Whether the balance covers `credits_needed`.
    pub fn is_deductible(&self, credits_needed: u64) -> (r: bool)
        ensures
            r == (self@ >= credits_needed),
    {
        self.tokens_left >= credits_needed
    }

    /// Takes `credits_needed` from the balance; a debit larger than the balance
    /// leaves it at zero. The balance must not be exhausted already.
    pub fn subtract_credits(&mut self, credits_needed: u64)
        requires
            old(self)@ > 0,
        ensures
            final(self)@ == debited(old(self)@ as int, credits_needed as int),
    {
        if credits_needed <= self.tokens_left {
            self.tokens_left = self.tokens_left - credits_needed;
        } else {
            self.tokens_left = 0;
        }
    }

    /// The record to persist for the current balance.
    pub fn record(&self) -> (r: Vec<u8>)
        ensures
            r@ == record_bytes(self@),
    {
        let mut r: Vec<u8> = Vec::new();
        let head = RECORD_OPENING.as_bytes();
        let k = head.len();
        let mut i: usize = 0;
        while i < k
            invariant
                head@ == opening_bytes(),
                k == opening_bytes().len(),
                i <= k,
                r@ == opening_bytes().take(i as int),
            decreases k - i,
        {
            r.push(head[i]);
            i = i + 1;
            assert(r@ =~= opening_bytes().take(i as int));
        }
        assert(opening_bytes().take(k as int) =~= opening_bytes());
        let digits = json_of_u64(self.tokens_left);
        let mut j: usize = 0;
        while j < digits.len()
            invariant
                j <= digits@.len(),
                r@ == opening_bytes() + digits@.take(j as int),
            decreases digits.len() - j,
        {
            r.push(digits[j]);
            j = j + 1;
            assert(r@ =~= opening_bytes() + digits@.take(j as int));
        }
        assert(digits@.take(j as int) =~= digits@);
        r.push(RECORD_CLOSING);
        r
    }
}

/// A debit that the balance covers leaves exactly the difference, which is never
/// negative.
pub proof fn lemma_affordable_debit(credits: nat, amount: nat)
    requires
        credits >= amount,
    ensures
        debited(credits as int, amount as int) == credits - amount,
        debited(credits as int, amount as int) >= 0,
{
}

/// Over any sequence of debits the balance never grows and never drops below zero.
pub proof fn lemma_debits_never_increase(credits: int, debits: Seq<int>, i: int, j: int)
    requires
        credits >= 0,
        forall|k: int| 0 <= k < debits.len() ==> debits[k] >= 0,
        0 <= i <= j <= debits.len(),
    ensures
        0 <= balance_after(credits, debits.take(j)) <= balance_after(credits, debits.take(i))
            <= credits,
    decreases j - i,
{
    if i == j {
        lemma_balance_bounds(credits, debits.take(i));
    } else {
        lemma_debits_never_increase(credits, debits, i, j - 1);
        assert(debits.take(j).drop_last() =~= debits.take(j - 1));
        lemma_balance_bounds(credits, debits.take(j - 1));
    }
}

proof fn lemma_balance_bounds(credits: int, debits: Seq<int>)
    requires
        credits >= 0,
        forall|k: int| 0 <= k < debits.len() ==> debits[k] >= 0,
    ensures
        0 <= balance_after(credits, debits) <= credits,
    decreases debits.len(),
{
    if debits.len() > 0 {
        lemma_balance_bounds(credits, debits.drop_last());
    }
}

} // verus!
