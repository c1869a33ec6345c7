use x402_gate::error::ErrorCode;
use x402_gate::gate::{
    enterprise_compute, free_compute, premium_compute, standard_compute, verify_payment,
    FreeCompute, PaymentGate, PremiumCompute, VerifyPayment,
};
use x402_gate::identity::Pubkey;
use x402_gate::introspection::{Instruction, TransactionInspector};
use x402_gate::payment::{decode_payment_amount, verify_sibling_payment};

fn key(b: u8) -> Pubkey {
    Pubkey::new_from_array([b; 32])
}

fn payload16(amount: u64) -> Vec<u8> {
    let mut data = vec![2u8, 0, 0, 0, 9, 9, 9, 9];
    data.extend_from_slice(&amount.to_le_bytes());
    data
}

fn transfer(data: Vec<u8>, recipient: Pubkey) -> Instruction {
    Instruction { program_id: key(0), accounts: vec![key(1), recipient], data }
}

fn gated_call() -> Instruction {
    Instruction { program_id: key(9), accounts: vec![key(1)], data: vec![] }
}

fn paid_ctx(data: Vec<u8>, recipient: Pubkey) -> PremiumCompute {
    PremiumCompute {
        payer: key(1),
        transaction: TransactionInspector::new(vec![transfer(data, recipient), gated_call()], 1),
        now: 1_700_000_000,
    }
}

#[test]
fn premium_compute_with_exact_payment_succeeds() {
    let ctx = paid_ctx(payload16(1_000_000), key(5));
    let (result, event) = premium_compute(&ctx, &key(5)).unwrap();
    assert_eq!(result.value, 42);
    assert!(result.paid);
    assert_eq!(result.owner, key(1));
    assert_eq!(event.payer, key(1));
    assert_eq!(event.result, 42);
    assert_eq!(event.timestamp, 1_700_000_000);
}

#[test]
fn premium_compute_one_unit_short_fails() {
    let ctx = paid_ctx(payload16(999_999), key(5));
    assert_eq!(premium_compute(&ctx, &key(5)).err(), Some(ErrorCode::InsufficientPayment));
}

#[test]
fn first_instruction_has_no_payment() {
    for data in [payload16(u64::MAX), vec![], vec![1u8; 8]] {
        let tx = TransactionInspector::new(vec![transfer(data, key(5)), gated_call()], 0);
        assert_eq!(
            verify_sibling_payment(&tx, 1_000_000, &key(5)),
            Err(ErrorCode::MissingPaymentInstruction)
        );
    }
}

#[test]
fn payment_to_another_recipient_fails() {
    let ctx = paid_ctx(payload16(50_000_000), key(6));
    assert_eq!(premium_compute(&ctx, &key(5)).err(), Some(ErrorCode::InvalidRecipient));
}

#[test]
fn payment_without_recipient_account_fails() {
    let ix = Instruction { program_id: key(0), accounts: vec![key(1)], data: payload16(5_000_000) };
    let tx = TransactionInspector::new(vec![ix, gated_call()], 1);
    assert_eq!(verify_sibling_payment(&tx, 1_000_000, &key(5)), Err(ErrorCode::InvalidRecipient));
}

#[test]
fn amount_checked_before_recipient() {
    let ctx = paid_ctx(payload16(10), key(6));
    assert_eq!(premium_compute(&ctx, &key(5)).err(), Some(ErrorCode::InsufficientPayment));
}

#[test]
fn missing_introspection_source() {
    let tx = TransactionInspector::unavailable();
    assert_eq!(
        verify_sibling_payment(&tx, 1, &key(5)),
        Err(ErrorCode::MissingIntrospectionSource)
    );
}

#[test]
fn predecessor_out_of_range() {
    let tx = TransactionInspector::new(vec![gated_call()], 3);
    assert_eq!(verify_sibling_payment(&tx, 1, &key(5)), Err(ErrorCode::IndexOutOfRange));
}

#[test]
fn price_boundary_is_inclusive() {
    for price in [1u64, 1_000_000, 5_000_000, 50_000_000, u64::MAX] {
        let tx = TransactionInspector::new(vec![transfer(payload16(price), key(5)), gated_call()], 1);
        assert_eq!(verify_sibling_payment(&tx, price, &key(5)), Ok(()));
        let tx = TransactionInspector::new(
            vec![transfer(payload16(price - 1), key(5)), gated_call()],
            1,
        );
        assert_eq!(
            verify_sibling_payment(&tx, price, &key(5)),
            Err(ErrorCode::InsufficientPayment)
        );
    }
}

#[test]
fn eight_byte_payload_is_amount_alone() {
    let data = 5_000_000u64.to_le_bytes().to_vec();
    assert_eq!(decode_payment_amount(&data), Ok(5_000_000));
    let ctx = paid_ctx(data, key(5));
    let (result, _) = standard_compute(&ctx, &key(5)).unwrap();
    assert_eq!(result.value, 100);
}

#[test]
fn sixteen_byte_payload_skips_selector() {
    let data = payload16(0x0102_0304_0506_0708);
    assert_eq!(decode_payment_amount(&data), Ok(0x0102_0304_0506_0708));
}

#[test]
fn longer_payload_reads_bytes_eight_to_sixteen() {
    let mut data = payload16(77);
    data.extend_from_slice(&[0xff; 9]);
    assert_eq!(data.len(), 25);
    assert_eq!(decode_payment_amount(&data), Ok(77));
}

#[test]
fn other_payload_lengths_are_malformed() {
    for n in (0usize..8).chain(9..16) {
        let data = vec![0xffu8; n];
        assert_eq!(decode_payment_amount(&data), Err(ErrorCode::MalformedPaymentPayload));
        let ctx = paid_ctx(data, key(5));
        assert_eq!(
            premium_compute(&ctx, &key(5)).err(),
            Some(ErrorCode::MalformedPaymentPayload)
        );
    }
}

#[test]
fn verification_is_repeatable() {
    let tx = TransactionInspector::new(vec![transfer(payload16(3), key(5)), gated_call()], 1);
    let first = verify_sibling_payment(&tx, 4, &key(5));
    let second = verify_sibling_payment(&tx, 4, &key(5));
    assert_eq!(first, second);
    assert_eq!(first, Err(ErrorCode::InsufficientPayment));
}

#[test]
fn tiers_charge_their_prices() {
    let ctx = paid_ctx(payload16(49_999_999), key(5));
    assert_eq!(enterprise_compute(&ctx, &key(5)).err(), Some(ErrorCode::InsufficientPayment));
    assert_eq!(standard_compute(&ctx, &key(5)).unwrap().0.value, 100);
    let ctx = paid_ctx(payload16(50_000_000), key(5));
    let (result, event) = enterprise_compute(&ctx, &key(5)).unwrap();
    assert_eq!(result.value, 1000);
    assert_eq!(event.result, 1000);
    let ctx = paid_ctx(payload16(4_999_999), key(5));
    assert_eq!(standard_compute(&ctx, &key(5)).err(), Some(ErrorCode::InsufficientPayment));
}

#[test]
fn gate_with_custom_tier() {
    let gate = PaymentGate::new(7, key(8));
    let tx = TransactionInspector::new(vec![transfer(payload16(7), key(8)), gated_call()], 1);
    assert_eq!(gate.check(&tx), Ok(()));
    let tx = TransactionInspector::new(vec![transfer(payload16(7), key(5)), gated_call()], 1);
    assert_eq!(gate.check(&tx), Err(ErrorCode::InvalidRecipient));
}

#[test]
fn free_compute_is_unpaid_zero() {
    let result = free_compute(&FreeCompute { payer: key(3) });
    assert_eq!(result.owner, key(3));
    assert_eq!(result.value, 0);
    assert!(!result.paid);
}

#[test]
fn balance_check_threshold() {
    assert_eq!(verify_payment(&VerifyPayment { payer: key(1), lamports: 1_000_000 }), Ok(()));
    assert_eq!(
        verify_payment(&VerifyPayment { payer: key(1), lamports: 999_999 }),
        Err(ErrorCode::InsufficientPayment)
    );
}

#[test]
fn identity_equality_compares_every_byte() {
    let mut bytes = [4u8; 32];
    bytes[31] = 5;
    assert_ne!(Pubkey::new_from_array(bytes), key(4));
    assert_eq!(Pubkey::new_from_array([4u8; 32]), key(4));
    assert_eq!(key(4).to_bytes(), [4u8; 32]);
}
