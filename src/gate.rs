use vstd::prelude::*;

use crate::error::ErrorCode;
use crate::identity::Pubkey;
use crate::introspection::TransactionInspector;
use crate::payment::{payment_outcome, verify_sibling_payment};

verus! {

/// Price of `premium_compute`, in minimal units.
pub const PREMIUM_PRICE: u64 = 1_000_000;

/// Price of `standard_compute`, in minimal units.
pub const STANDARD_PRICE: u64 = 5_000_000;

/// Price of `enterprise_compute`, in minimal units.
pub const ENTERPRISE_PRICE: u64 = 50_000_000;

/// Value produced by `premium_compute`.
pub const PREMIUM_VALUE: u64 = 42;

/// Value produced by `standard_compute`.
pub const STANDARD_VALUE: u64 = 100;

/// Value produced by `enterprise_compute`.
pub const ENTERPRISE_VALUE: u64 = 1000;

/// Balance that `verify_payment` asks of the caller, in minimal units.
pub const REQUIRED_BALANCE: u64 = 1_000_000;

/// A price tier together with the identity that must receive the payment.
#[derive(Clone, Copy, Debug)]
pub struct PaymentGate {
    pub price: u64,
    pub recipient: Pubkey,
}

impl PaymentGate {
    /// A gate that asks for `price` paid to `recipient`.
    pub fn new(price: u64, recipient: Pubkey) -> (r: PaymentGate)
        ensures
            r.price == price,
            r.recipient == recipient,
    {
        PaymentGate { price, recipient }
    }

    /// Runs the payment check of this gate against the running transaction.
    pub fn check(&self, inspector: &TransactionInspector) -> (r: Result<(), ErrorCode>)
        ensures
            r == payment_outcome(inspector@, self.price, self.recipient),
    {
        verify_sibling_payment(inspector, self.price, &self.recipient)
    }
}

/// The one-shot output record of a compute call.
#[derive(Clone, Copy, Debug)]
pub struct ComputeResult {
    pub owner: Pubkey,
    pub value: u64,
    pub paid: bool,
}

/// Log entry of a successful paid compute call.
#[derive(Clone, Copy, Debug)]
pub struct ComputeEvent {
    pub payer: Pubkey,
    pub result: u64,
    pub timestamp: i64,
}

/// Log entry of a payment from a payer to a recipient; no operation of this library emits it.
#[derive(Clone, Copy, Debug)]
pub struct X402PaymentEvent {
    pub payer: Pubkey,
    pub recipient: Pubkey,
    pub amount: u64,
    pub timestamp: i64,
}

/// What a paid compute call reads: who pays, the running transaction, and the
/// current time.
#[derive(Clone, Debug)]
pub struct PremiumCompute {
    pub payer: Pubkey,
    pub transaction: TransactionInspector,
    pub now: i64,
}

/// What the free compute call reads: who asks.
#[derive(Clone, Copy, Debug)]
pub struct FreeCompute {
    pub payer: Pubkey,
}

/// What the balance check reads: who asks and what they hold.
#[derive(Clone, Copy, Debug)]
pub struct VerifyPayment {
    pub payer: Pubkey,
    pub lamports: u64,
}

/// The accounts of a direct payment: who pays and who receives.
#[derive(Clone, Copy, Debug)]
pub struct X402Pay {
    pub payer: Pubkey,
    pub payment_recipient: Pubkey,
}

/// Whether `r` is the outcome of a paid compute call of value `value` behind
/// `gate`: the result and its event when the payment check passes, the
/// check's error otherwise.
pub open spec fn gated_outcome(
    ctx: PremiumCompute,
    gate: PaymentGate,
    value: u64,
    r: Result<(ComputeResult, ComputeEvent), ErrorCode>,
) -> bool {
    match r {
        Ok((res, ev)) => {
            &&& payment_outcome(ctx.transaction@, gate.price, gate.recipient) is Ok
            &&& res.owner == ctx.payer
            &&& res.value == value
            &&& res.paid
            &&& ev.payer == ctx.payer
            &&& ev.result == value
            &&& ev.timestamp == ctx.now
        },
        Err(e) => payment_outcome(ctx.transaction@, gate.price, gate.recipient) == Err::<
            (),
            ErrorCode,
        >(e),
    }
}

/// Runs the payment check of `gate` and, only when it passes, produces a paid
/// result of `value` owned by the payer, with its log entry.
pub fn gated_compute(ctx: &PremiumCompute, gate: &PaymentGate, value: u64) -> (r: Result<
    (ComputeResult, ComputeEvent),
    ErrorCode,
>)
    ensures
        gated_outcome(*ctx, *gate, value, r),
{
    match gate.check(&ctx.transaction) {
        Ok(()) => {},
        Err(e) => return Err(e),
    }
    let result = ComputeResult { owner: ctx.payer, value, paid: true };
    let event = ComputeEvent { payer: ctx.payer, result: value, timestamp: ctx.now };
    Ok((result, event))
}

/// The premium tier: 1,000,000 units paid to `recipient` yield the value 42.
pub fn premium_compute(ctx: &PremiumCompute, recipient: &Pubkey) -> (r: Result<
    (ComputeResult, ComputeEvent),
    ErrorCode,
>)
    ensures
        gated_outcome(
            *ctx,
            (PaymentGate { price: PREMIUM_PRICE, recipient: *recipient }),
            PREMIUM_VALUE,
            r,
        ),
{
    gated_compute(ctx, &PaymentGate::new(PREMIUM_PRICE, *recipient), PREMIUM_VALUE)
}

/// The standard tier: 5,000,000 units paid to `recipient` yield the value 100.
pub fn standard_compute(ctx: &PremiumCompute, recipient: &Pubkey) -> (r: Result<
    (ComputeResult, ComputeEvent),
    ErrorCode,
>)
    ensures
        gated_outcome(
            *ctx,
            (PaymentGate { price: STANDARD_PRICE, recipient: *recipient }),
            STANDARD_VALUE,
            r,
        ),
{
    gated_compute(ctx, &PaymentGate::new(STANDARD_PRICE, *recipient), STANDARD_VALUE)
}

/// The enterprise tier: 50,000,000 units paid to `recipient` yield the value 1000.
pub fn enterprise_compute(ctx: &PremiumCompute, recipient: &Pubkey) -> (r: Result<
    (ComputeResult, ComputeEvent),
    ErrorCode,
>)
    ensures
        gated_outcome(
            *ctx,
            (PaymentGate { price: ENTERPRISE_PRICE, recipient: *recipient }),
            ENTERPRISE_VALUE,
            r,
        ),
{
    gated_compute(ctx, &PaymentGate::new(ENTERPRISE_PRICE, *recipient), ENTERPRISE_VALUE)
}

/// The ungated path: always an unpaid result of value 0 owned by the caller.
pub fn free_compute(ctx: &FreeCompute) -> (r: ComputeResult)
    ensures
        r.owner == ctx.payer,
        r.value == 0,
        !r.paid,
{
    ComputeResult { owner: ctx.payer, value: 0, paid: false }
}

/// The flat balance check: the caller must hold at least 1,000,000 units.
pub fn verify_payment(ctx: &VerifyPayment) -> (r: Result<(), ErrorCode>)
    ensures
        ctx.lamports >= REQUIRED_BALANCE <==> r is Ok,
        ctx.lamports < REQUIRED_BALANCE ==> r == Err::<(), ErrorCode>(
            ErrorCode::InsufficientPayment,
        ),
{
    if ctx.lamports < REQUIRED_BALANCE {
        return Err(ErrorCode::InsufficientPayment);
    }
    Ok(())
}

} // verus!
