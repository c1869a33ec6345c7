use vstd::prelude::*;

verus! {

/// Every way in which a gated call, a balance check or a ledger update can fail.
#[derive(Clone, Copy, Debug, PartialEq, Eq, Structural)]
pub enum ErrorCode {
    /// The instruction list of the running transaction cannot be read.
    MissingIntrospectionSource,
    /// An instruction was asked for past the end of the transaction.
    IndexOutOfRange,
    /// The gated instruction is the first of its transaction: nothing can have paid.
    MissingPaymentInstruction,
    /// The paying instruction's payload has neither accepted layout.
    MalformedPaymentPayload,
    /// The amount paid, or the balance held, is below the price.
    InsufficientPayment,
    /// The paying instruction did not pay the expected recipient.
    InvalidRecipient,
    /// A ledger entry was asked for with an amount of zero.
    InvalidPaymentAmount,
    /// The payer's balance does not cover the payment.
    InsufficientBalance,
    /// The configured payment recipient is not valid.
    InvalidPaymentRecipient,
    /// The payment could not be verified.
    PaymentVerificationFailed,
}

} // verus!
