use chat_relay::ledger::{LedgerError, TokenDispenser, RECORD_OPENING};

fn fresh(credits: u64) -> TokenDispenser {
    TokenDispenser::new(None, credits).unwrap()
}

#[test]
fn fresh_ledger_starts_at_the_initial_amount() {
    assert_eq!(fresh(2500000).tokens_left(), 2500000);
}

#[test]
fn debit_uses_the_actual_usage() {
    let mut ledger = fresh(100);
    assert!(ledger.is_deductible(30));
    ledger.subtract_credits(25);
    assert_eq!(ledger.tokens_left(), 75);
}

#[test]
fn small_balance_cannot_afford_a_larger_estimate() {
    let ledger = fresh(5);
    assert!(!ledger.is_deductible(30));
    assert_eq!(ledger.tokens_left(), 5);
}

#[test]
fn affordability_is_inclusive() {
    let ledger = fresh(30);
    assert!(ledger.is_deductible(30));
    assert!(!ledger.is_deductible(31));
    assert!(fresh(0).is_deductible(0));
}

#[test]
fn affordable_debit_leaves_the_difference() {
    let mut ledger = fresh(30);
    assert!(ledger.is_deductible(30));
    ledger.subtract_credits(30);
    assert_eq!(ledger.tokens_left(), 0);
}

#[test]
fn overdraft_exhausts_the_balance() {
    let mut ledger = fresh(10);
    ledger.subtract_credits(25);
    assert_eq!(ledger.tokens_left(), 0);
}

#[test]
fn debits_never_raise_the_balance() {
    let mut ledger = fresh(1000);
    let mut last = ledger.tokens_left();
    for d in [0u64, 7, 300, 1, 650, 500, 3] {
        if ledger.tokens_left() == 0 {
            break;
        }
        ledger.subtract_credits(d);
        assert!(ledger.tokens_left() <= last);
        last = ledger.tokens_left();
    }
    assert_eq!(last, 0);
}

#[test]
fn record_is_compact_json() {
    let mut ledger = fresh(100);
    ledger.subtract_credits(25);
    assert_eq!(ledger.record(), b"{\"tokens_left\":75}".to_vec());
    assert_eq!(RECORD_OPENING, "{\"tokens_left\":");
    assert_eq!(fresh(0).record(), b"{\"tokens_left\":0}".to_vec());
}

#[test]
fn record_round_trips() {
    for n in [0u64, 1, 75, 2500000, u64::MAX] {
        let ledger = fresh(n);
        let reloaded = TokenDispenser::new(Some(ledger.record()), 42).unwrap();
        assert_eq!(reloaded.tokens_left(), n);
        assert_eq!(reloaded, ledger);
    }
}

#[test]
fn stored_record_wins_over_the_initial_amount() {
    let stored = b"{\"tokens_left\":1234}".to_vec();
    assert_eq!(TokenDispenser::new(Some(stored), 99).unwrap().tokens_left(), 1234);
}

#[test]
fn balance_text_is_read_as_json() {
    let stored = b"{\"tokens_left\": 12}".to_vec();
    assert_eq!(TokenDispenser::new(Some(stored), 99).unwrap().tokens_left(), 12);
    assert_eq!(
        TokenDispenser::balance_of_record(&b"{\"tokens_left\":907}".to_vec()),
        Some(907)
    );
}

#[test]
fn corrupt_records_are_refused() {
    let bad: Vec<&[u8]> = vec![
        b"",
        b"garbage",
        b"{\"tokens_left\":}",
        b"{\"tokens_left\":abc}",
        b"{\"tokens_left\":-5}",
        b"{\"tokens_left\":12",
        b"{\"tokens_left\":012}",
        b"{\"tokens_left\":1.5}",
        b"{\"credits\":12}",
        b"{\"tokens_left\":18446744073709551616}",
    ];
    for b in bad {
        assert_eq!(
            TokenDispenser::new(Some(b.to_vec()), 10),
            Err(LedgerError::Corrupt),
            "{:?}",
            String::from_utf8_lossy(b)
        );
    }
}
