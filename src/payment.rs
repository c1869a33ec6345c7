use vstd::bytes::{
    lemma_auto_spec_u64_to_from_le_bytes,
    spec_u64_from_le_bytes,
    spec_u64_to_le_bytes,
    u64_from_le_bytes,
};
use vstd::prelude::*;
use vstd::slice::slice_subrange;

use crate::error::ErrorCode;
use crate::identity::Pubkey;
use crate::introspection::{
    spec_current_index,
    spec_instruction_at,
    InstructionView,
    TransactionInspector,
    TransactionView,
};

verus! {

/// The amount carried by a payment payload, under the two accepted layouts:
/// a payload of 16 bytes or more holds an 8-byte selector followed by the
/// little-endian amount; a payload of exactly 8 bytes is the little-endian
/// amount alone. Any other length carries no amount.
pub open spec fn decoded_amount(data: Seq<u8>) -> Option<u64> {
    if data.len() >= 16 {
        Some(spec_u64_from_le_bytes(data.subrange(8, 16)))
    } else if data.len() == 8 {
        Some(spec_u64_from_le_bytes(data.subrange(0, 8)))
    } else {
        None
    }
}

/// Whether the instruction names `expected` as its second account, the
/// recipient of the transfer.
pub open spec fn pays_recipient(ix: InstructionView, expected: Pubkey) -> bool {
    ix.accounts.len() > 1 && ix.accounts[1] == expected
}

/// What checking a price against an instruction that pays has as outcome.
pub open spec fn payment_check(ix: InstructionView, required: u64, expected: Pubkey) -> Result<
    (),
    ErrorCode,
> {
    match decoded_amount(ix.data) {
        None => Err(ErrorCode::MalformedPaymentPayload),
        Some(amount) => if amount < required {
            Err(ErrorCode::InsufficientPayment)
        } else if pays_recipient(ix, expected) {
            Ok(())
        } else {
            Err(ErrorCode::InvalidRecipient)
        },
    }
}

/// The outcome of verifying that the instruction just before the executing one
/// paid at least `required` to `expected`.
pub open spec fn payment_outcome(
    src: Option<TransactionView>,
    required: u64,
    expected: Pubkey,
) -> Result<(), ErrorCode> {
    match spec_current_index(src) {
        Err(e) => Err(e),
        Ok(current) => if current == 0 {
            Err(ErrorCode::MissingPaymentInstruction)
        } else {
            match spec_instruction_at(src, current - 1) {
                Err(e) => Err(e),
                Ok(ix) => payment_check(ix, required, expected),
            }
        },
    }
}

/// Reads the payment amount out of a payment payload (see [`decoded_amount`]).
pub fn decode_payment_amount(data: &[u8]) -> (r: Result<u64, ErrorCode>)
    ensures
        match decoded_amount(data@) {
            Some(a) => r == Ok::<u64, ErrorCode>(a),
            None => r == Err::<u64, ErrorCode>(ErrorCode::MalformedPaymentPayload),
        },
{
    let n = data.len();
    if n >= 16 {
        Ok(u64_from_le_bytes(slice_subrange(data, 8, 16)))
    } else if n == 8 {
        Ok(u64_from_le_bytes(slice_subrange(data, 0, 8)))
    } else {
        Err(ErrorCode::MalformedPaymentPayload)
    }
}

/// Checks that the instruction immediately before the executing one paid at
/// least `required_amount` to `expected_recipient`. Nothing is changed, and
/// the outcome depends on the transaction's content alone.
pub fn verify_sibling_payment(
    inspector: &TransactionInspector,
    required_amount: u64,
    expected_recipient: &Pubkey,
) -> (r: Result<(), ErrorCode>)
    ensures
        r == payment_outcome(inspector@, required_amount, *expected_recipient),
{
    let current = match inspector.current_index() {
        Ok(i) => i,
        Err(e) => return Err(e),
    };
    if current == 0 {
        return Err(ErrorCode::MissingPaymentInstruction);
    }
    let previous = match inspector.instruction_at(current - 1) {
        Ok(ix) => ix,
        Err(e) => return Err(e),
    };
    let amount = match decode_payment_amount(previous.data.as_slice()) {
        Ok(a) => a,
        Err(e) => return Err(e),
    };
    if amount < required_amount {
        return Err(ErrorCode::InsufficientPayment);
    }
    if previous.accounts.len() > 1 && previous.accounts[1] == *expected_recipient {
        Ok(())
    } else {
        Err(ErrorCode::InvalidRecipient)
    }
}


/// A gated instruction whose predecessor carries amount `amount` and names
/// `recipient` as the receiving account passes the check for price `required`
/// and recipient `expected` exactly when `amount >= required` and
/// `recipient == expected`; otherwise it fails with the error that names the
/// first unmet condition.
pub proof fn lemma_gate_passes_iff_paid(
    tx: TransactionView,
    amount: u64,
    recipient: Pubkey,
    required: u64,
    expected: Pubkey,
)
    requires
        0 < tx.current_index < tx.instructions.len(),
        decoded_amount(tx.instructions[tx.current_index - 1].data) == Some(amount),
        tx.instructions[tx.current_index - 1].accounts.len() > 1,
        tx.instructions[tx.current_index - 1].accounts[1] == recipient,
    ensures
        payment_outcome(Some(tx), required, expected) is Ok <==> (amount >= required && recipient
            == expected),
        amount < required ==> payment_outcome(Some(tx), required, expected) == Err::<
            (),
            ErrorCode,
        >(ErrorCode::InsufficientPayment),
        amount >= required && recipient != expected ==> payment_outcome(
            Some(tx),
            required,
            expected,
        ) == Err::<(), ErrorCode>(ErrorCode::InvalidRecipient),
{
}

/// Verifying twice against the same transaction content gives the same result:
/// the outcome is a function of that content alone.
pub proof fn lemma_verification_deterministic(
    a: TransactionInspector,
    b: TransactionInspector,
    required: u64,
    expected: Pubkey,
)
    requires
        a@ == b@,
    ensures
        payment_outcome(a@, required, expected) == payment_outcome(b@, required, expected),
{
}

/// A 16-byte payload takes its amount from bytes [8, 16), an 8-byte payload
/// from bytes [0, 8), and a payload shorter than 16 bytes of any other length
/// is rejected as malformed.
pub proof fn lemma_payload_layouts(data: Seq<u8>, required: u64, expected: Pubkey)
    ensures
        data.len() == 16 ==> decoded_amount(data) == Some(
            spec_u64_from_le_bytes(data.subrange(8, 16)),
        ),
        data.len() == 8 ==> decoded_amount(data) == Some(
            spec_u64_from_le_bytes(data.subrange(0, 8)),
        ),
        data.len() < 16 && data.len() != 8 ==> decoded_amount(data) is None,
        forall|ix: InstructionView|
            ix.data == data && data.len() < 16 && data.len() != 8 ==> #[trigger] payment_check(
                ix,
                required,
                expected,
            ) == Err::<(), ErrorCode>(ErrorCode::MalformedPaymentPayload),
{
}

/// An amount written in little-endian after an 8-byte selector, or alone, is
/// read back unchanged.
pub proof fn lemma_encoded_amount_decodes(selector: Seq<u8>, amount: u64)
    requires
        selector.len() == 8,
    ensures
        decoded_amount(selector + spec_u64_to_le_bytes(amount)) == Some(amount),
        decoded_amount(spec_u64_to_le_bytes(amount)) == Some(amount),
{
    lemma_auto_spec_u64_to_from_le_bytes();
    let data = selector + spec_u64_to_le_bytes(amount);
    assert(data.subrange(8, 16) =~= spec_u64_to_le_bytes(amount));
    assert(spec_u64_to_le_bytes(amount).subrange(0, 8) =~= spec_u64_to_le_bytes(amount));
}

/// Paying exactly the price passes; paying one unit less fails with
/// `InsufficientPayment`.
pub proof fn lemma_price_boundary(tx: TransactionView, amount: u64, price: u64, expected: Pubkey)
    requires
        0 < tx.current_index < tx.instructions.len(),
        decoded_amount(tx.instructions[tx.current_index - 1].data) == Some(amount),
        pays_recipient(tx.instructions[tx.current_index - 1], expected),
    ensures
        amount == price ==> payment_outcome(Some(tx), price, expected) == Ok::<(), ErrorCode>(()),
        amount + 1 == price ==> payment_outcome(Some(tx), price, expected) == Err::<
            (),
            ErrorCode,
        >(ErrorCode::InsufficientPayment),
{
}

/// A gated instruction that opens its transaction fails with
/// `MissingPaymentInstruction`, whatever the transaction holds.
pub proof fn lemma_first_instruction_unpaid(tx: TransactionView, required: u64, expected: Pubkey)
    requires
        tx.current_index == 0,
    ensures
        payment_outcome(Some(tx), required, expected) == Err::<(), ErrorCode>(
            ErrorCode::MissingPaymentInstruction,
        ),
{
}

} // verus!
