use x402_gate::error::ErrorCode;
use x402_gate::identity::Pubkey;
use x402_gate::ledger::{record_payment, PaymentBook, RecordPayment};

fn key(b: u8) -> Pubkey {
    Pubkey::new_from_array([b; 32])
}

#[test]
fn payments_accumulate_per_payer() {
    let mut book = PaymentBook::new();
    let amounts = [5u64, 1, 1_000_000, 42];
    for (i, a) in amounts.iter().enumerate() {
        let ctx = RecordPayment { payer: key(1), now: 100 + i as i64 };
        let event = record_payment(&mut book, &ctx, *a).unwrap();
        assert_eq!(event.payer, key(1));
        assert_eq!(event.amount, *a);
        assert_eq!(event.total_payments, i as u64 + 1);
    }
    let l = book.get(&key(1)).unwrap();
    assert_eq!(l.payer, key(1));
    assert_eq!(l.total_payments, 4);
    assert_eq!(l.total_amount, 1_000_048);
    assert_eq!(l.last_payment, 103);
}

#[test]
fn zero_payment_is_refused_and_changes_nothing() {
    let mut book = PaymentBook::new();
    let ctx = RecordPayment { payer: key(1), now: 7 };
    assert_eq!(record_payment(&mut book, &ctx, 0).err(), Some(ErrorCode::InvalidPaymentAmount));
    assert!(book.get(&key(1)).is_none());
    record_payment(&mut book, &ctx, 9).unwrap();
    let ctx = RecordPayment { payer: key(1), now: 8 };
    assert_eq!(record_payment(&mut book, &ctx, 0).err(), Some(ErrorCode::InvalidPaymentAmount));
    let l = book.get(&key(1)).unwrap();
    assert_eq!((l.total_payments, l.total_amount, l.last_payment), (1, 9, 7));
}

#[test]
fn payers_are_kept_apart() {
    let mut book = PaymentBook::new();
    record_payment(&mut book, &RecordPayment { payer: key(1), now: 1 }, 10).unwrap();
    record_payment(&mut book, &RecordPayment { payer: key(2), now: 2 }, 20).unwrap();
    record_payment(&mut book, &RecordPayment { payer: key(1), now: 3 }, 30).unwrap();
    let a = book.get(&key(1)).unwrap();
    let b = book.get(&key(2)).unwrap();
    assert_eq!((a.total_payments, a.total_amount, a.last_payment), (2, 40, 3));
    assert_eq!((b.total_payments, b.total_amount, b.last_payment), (1, 20, 2));
    assert!(book.get(&key(3)).is_none());
}

#[test]
fn room_for_largest_totals() {
    let mut book = PaymentBook::new();
    assert!(book.has_room(&key(1), u64::MAX));
    record_payment(&mut book, &RecordPayment { payer: key(1), now: 1 }, u64::MAX - 1).unwrap();
    assert!(book.has_room(&key(1), 1));
    assert!(!book.has_room(&key(1), 2));
    assert!(book.has_room(&key(2), u64::MAX));
}

#[test]
fn existing_record_is_updated_in_place() {
    let start = x402_gate::ledger::PaymentLedger {
        payer: key(4),
        total_payments: 3,
        total_amount: 300,
        last_payment: 10,
    };
    let mut book = PaymentBook::from_record(start);
    let event = record_payment(&mut book, &RecordPayment { payer: key(4), now: 11 }, 50).unwrap();
    assert_eq!(event.total_payments, 4);
    let l = book.get(&key(4)).unwrap();
    assert_eq!((l.total_payments, l.total_amount, l.last_payment), (4, 350, 11));
}
