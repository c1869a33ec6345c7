use vstd::prelude::*;

use crate::error::ErrorCode;
use crate::identity::Pubkey;

verus! {

/// Cumulative payments of one payer.
#[derive(Clone, Copy, Debug)]
pub struct PaymentLedger {
    pub payer: Pubkey,
    pub total_payments: u64,
    pub total_amount: u64,
    pub last_payment: i64,
}

/// Log entry of a recorded payment.
#[derive(Clone, Copy, Debug)]
pub struct PaymentRecordedEvent {
    pub payer: Pubkey,
    pub amount: u64,
    pub total_payments: u64,
}

/// What recording a payment reads: who pays and the current time.
#[derive(Clone, Copy, Debug)]
pub struct RecordPayment {
    pub payer: Pubkey,
    pub now: i64,
}

/// The record that holds `payer`'s totals in `entries`: the last one that
/// names `payer`.
pub open spec fn lookup(entries: Seq<PaymentLedger>, payer: Pubkey) -> Option<PaymentLedger>
    decreases entries.len(),
{
    if entries.len() == 0 {
        None
    } else if entries.last().payer == payer {
        Some(entries.last())
    } else {
        lookup(entries.drop_last(), payer)
    }
}

/// The record of `payer` after one more payment of `amount` at time `now`,
/// given the record before it, if any.
pub open spec fn recorded(prev: Option<PaymentLedger>, payer: Pubkey, amount: u64, now: i64) -> PaymentLedger {
    match prev {
        Some(l) => PaymentLedger {
            payer,
            total_payments: (l.total_payments + 1) as u64,
            total_amount: (l.total_amount + amount) as u64,
            last_payment: now,
        },
        None => PaymentLedger { payer, total_payments: 1, total_amount: amount, last_payment: now },
    }
}

/// Whether one more payment of `amount` keeps `payer`'s totals within `u64`.
pub open spec fn has_room(book: Map<Pubkey, PaymentLedger>, payer: Pubkey, amount: u64) -> bool {
    book.contains_key(payer) ==> {
        &&& book[payer].total_payments + 1 <= u64::MAX
        &&& book[payer].total_amount + amount <= u64::MAX
    }
}

/// The records after one more payment of `amount` by `payer` at time `now`.
pub open spec fn after_payment(
    book: Map<Pubkey, PaymentLedger>,
    payer: Pubkey,
    amount: u64,
    now: i64,
) -> Map<Pubkey, PaymentLedger> {
    let prev = if book.contains_key(payer) {
        Some(book[payer])
    } else {
        None
    };
    book.insert(payer, recorded(prev, payer, amount, now))
}

/// The per-payer payment records: at most one per payer, created on the
/// payer's first payment and updated in place afterwards.
#[derive(Clone, Debug)]
pub struct PaymentBook {
    entries: Vec<PaymentLedger>,
}

impl View for PaymentBook {
    type V = Map<Pubkey, PaymentLedger>;

    closed spec fn view(&self) -> Map<Pubkey, PaymentLedger> {
        Map::new(
            |k: Pubkey| lookup(self.entries@, k) is Some,
            |k: Pubkey| lookup(self.entries@, k)->0,
        )
    }
}

proof fn lemma_lookup_push(entries: Seq<PaymentLedger>, v: PaymentLedger, k: Pubkey)
    ensures
        lookup(entries.push(v), k) == if v.payer == k {
            Some(v)
        } else {
            lookup(entries, k)
        },
{
    assert(entries.push(v).drop_last() =~= entries);
}

proof fn lemma_lookup_update(entries: Seq<PaymentLedger>, i: int, v: PaymentLedger, k: Pubkey)
    requires
        0 <= i < entries.len(),
        entries[i].payer == v.payer,
        forall|j: int| i < j < entries.len() ==> entries[j].payer != v.payer,
    ensures
        lookup(entries.update(i, v), k) == if v.payer == k {
            Some(v)
        } else {
            lookup(entries, k)
        },
    decreases entries.len(),
{
    let u = entries.update(i, v);
    if i == entries.len() - 1 {
        assert(u.drop_last() =~= entries.drop_last());
    } else {
        assert(u.drop_last() =~= entries.drop_last().update(i, v));
        lemma_lookup_update(entries.drop_last(), i, v, k);
    }
}

proof fn lemma_lookup_found(entries: Seq<PaymentLedger>, i: int, k: Pubkey)
    requires
        0 <= i < entries.len(),
        entries[i].payer == k,
        forall|j: int| i < j < entries.len() ==> entries[j].payer != k,
    ensures
        lookup(entries, k) == Some(entries[i]),
    decreases entries.len(),
{
    if i < entries.len() - 1 {
        lemma_lookup_found(entries.drop_last(), i, k);
    }
}

proof fn lemma_lookup_absent(entries: Seq<PaymentLedger>, k: Pubkey)
    requires
        forall|j: int| 0 <= j < entries.len() ==> entries[j].payer != k,
    ensures
        lookup(entries, k) is None,
    decreases entries.len(),
{
    if entries.len() > 0 {
        lemma_lookup_absent(entries.drop_last(), k);
    }
}

impl PaymentBook {
    /// A book with no records.
    pub fn new() -> (r: PaymentBook)
        ensures
            r@ == Map::<Pubkey, PaymentLedger>::empty(),
    {
        let r = PaymentBook { entries: Vec::new() };
        assert(r@ =~= Map::<Pubkey, PaymentLedger>::empty());
        r
    }

    /// A book that holds the one record `record`, filed under its payer.
    pub fn from_record(record: PaymentLedger) -> (r: PaymentBook)
        ensures
            r@ == Map::<Pubkey, PaymentLedger>::empty().insert(record.payer, record),
    {
        let mut entries: Vec<PaymentLedger> = Vec::new();
        entries.push(record);
        let r = PaymentBook { entries };
        proof {
            assert(r.entries@.drop_last() =~= Seq::<PaymentLedger>::empty());
            assert forall|k: Pubkey| #[trigger] lookup(r.entries@, k) == if record.payer == k {
                Some(record)
            } else {
                None::<PaymentLedger>
            } by {
                lemma_lookup_absent(r.entries@.drop_last(), k);
            }
        }
        assert(r@ =~= Map::<Pubkey, PaymentLedger>::empty().insert(record.payer, record));
        r
    }

    /// Position of `payer`'s record, searching from the most recent.
    fn position(&self, payer: &Pubkey) -> (r: Option<usize>)
        ensures
            match r {
                Some(i) => {
                    &&& i < self.entries@.len()
                    &&& self.entries@[i as int].payer == *payer
                    &&& forall|j: int|
                        i < j < self.entries@.len() ==> self.entries@[j].payer != *payer
                },
                None => forall|j: int|
                    0 <= j < self.entries@.len() ==> self.entries@[j].payer != *payer,
            },
    {
        let mut i: usize = self.entries.len();
        while i > 0
            invariant
                i <= self.entries@.len(),
                forall|j: int| i <= j < self.entries@.len() ==> self.entries@[j].payer != *payer,
            decreases i,
        {
            if self.entries[i - 1].payer == *payer {
                return Some(i - 1);
            }
            i -= 1;
        }
        None
    }

    /// The record of `payer`, if any payment of theirs was recorded.
    pub fn get(&self, payer: &Pubkey) -> (r: Option<PaymentLedger>)
        ensures
            match r {
                Some(l) => self@.contains_key(*payer) && self@[*payer] == l,
                None => !self@.contains_key(*payer),
            },
    {
        match self.position(payer) {
            Some(i) => {
                proof {
                    lemma_lookup_found(self.entries@, i as int, *payer);
                }
                Some(self.entries[i])
            },
            None => {
                proof {
                    lemma_lookup_absent(self.entries@, *payer);
                }
                None
            },
        }
    }

    /// Whether one more payment of `amount` by `payer` keeps their totals
    /// within `u64`.
    pub fn has_room(&self, payer: &Pubkey, amount: u64) -> (r: bool)
        ensures
            r == has_room(self@, *payer, amount),
    {
        match self.get(payer) {
            Some(l) => l.total_payments < u64::MAX && amount <= u64::MAX - l.total_amount,
            None => true,
        }
    }
}

/// Records a payment of `amount` by the caller at the caller's time: the
/// caller's record is created on their first payment and updated in place
/// afterwards. An amount of zero is refused and changes nothing.
pub fn record_payment(book: &mut PaymentBook, ctx: &RecordPayment, amount: u64) -> (r: Result<
    PaymentRecordedEvent,
    ErrorCode,
>)
    requires
        has_room(old(book)@, ctx.payer, amount),
    ensures
        amount == 0 ==> r == Err::<PaymentRecordedEvent, ErrorCode>(
            ErrorCode::InvalidPaymentAmount,
        ) && final(book)@ == old(book)@,
        amount > 0 ==> final(book)@ == after_payment(old(book)@, ctx.payer, amount, ctx.now),
        amount > 0 ==> (r matches Ok(ev) && ev.payer == ctx.payer && ev.amount == amount
            && ev.total_payments == final(book)@[ctx.payer].total_payments),
{
    if amount == 0 {
        return Err(ErrorCode::InvalidPaymentAmount);
    }
    let payer = ctx.payer;
    let ghost before = book@;
    let updated = match book.position(&payer) {
        Some(i) => {
            let prev = book.entries[i];
            proof {
                lemma_lookup_found(book.entries@, i as int, payer);
            }
            let l = PaymentLedger {
                payer,
                total_payments: prev.total_payments + 1,
                total_amount: prev.total_amount + amount,
                last_payment: ctx.now,
            };
            let ghost old_entries = book.entries@;
            book.entries.set(i, l);
            proof {
                assert forall|k: Pubkey| #[trigger] lookup(book.entries@, k) == if l.payer == k {
                    Some(l)
                } else {
                    lookup(old_entries, k)
                } by {
                    lemma_lookup_update(old_entries, i as int, l, k);
                }
            }
            l
        },
        None => {
            proof {
                lemma_lookup_absent(book.entries@, payer);
            }
            let l = PaymentLedger {
                payer,
                total_payments: 1,
                total_amount: amount,
                last_payment: ctx.now,
            };
            let ghost old_entries = book.entries@;
            book.entries.push(l);
            proof {
                assert forall|k: Pubkey| #[trigger] lookup(book.entries@, k) == if l.payer == k {
                    Some(l)
                } else {
                    lookup(old_entries, k)
                } by {
                    lemma_lookup_push(old_entries, l, k);
                }
            }
            l
        },
    };
    assert(book@ =~= after_payment(before, payer, amount, ctx.now));
    Ok(PaymentRecordedEvent { payer, amount, total_payments: updated.total_payments })
}

/// The sum of `amounts`.
pub open spec fn total(amounts: Seq<u64>) -> int
    decreases amounts.len(),
{
    if amounts.len() == 0 {
        0
    } else {
        total(amounts.drop_last()) + amounts.last()
    }
}

/// The records after `payer` pays each of `amounts` in turn, the payment of
/// `amounts[i]` at time `times[i]`.
pub open spec fn after_payments(
    book: Map<Pubkey, PaymentLedger>,
    payer: Pubkey,
    amounts: Seq<u64>,
    times: Seq<i64>,
) -> Map<Pubkey, PaymentLedger>
    decreases amounts.len(),
{
    if amounts.len() == 0 {
        book
    } else {
        after_payment(
            after_payments(book, payer, amounts.drop_last(), times.drop_last()),
            payer,
            amounts.last(),
            times.last(),
        )
    }
}

/// After a payer with no record makes `n` successful payments of
/// `amounts[0..n]`, their record counts `n` payments of the sum of the
/// amounts, and every other payer's record is as it was. Each of those
/// payments is one that `record_payment` accepts.
pub proof fn lemma_payments_accumulate(
    book: Map<Pubkey, PaymentLedger>,
    payer: Pubkey,
    amounts: Seq<u64>,
    times: Seq<i64>,
)
    requires
        !book.contains_key(payer),
        amounts.len() == times.len(),
        forall|i: int| 0 <= i < amounts.len() ==> amounts[i] > 0,
        amounts.len() <= u64::MAX,
        total(amounts) <= u64::MAX,
    ensures
        amounts.len() > 0 ==> after_payments(book, payer, amounts, times).contains_key(payer),
        amounts.len() > 0 ==> after_payments(book, payer, amounts, times)[payer].total_payments
            == amounts.len(),
        amounts.len() > 0 ==> after_payments(book, payer, amounts, times)[payer].total_amount
            == total(amounts),
        forall|k: Pubkey|
            k != payer ==> (#[trigger] after_payments(book, payer, amounts, times).contains_key(k)
                == book.contains_key(k)) && (book.contains_key(k) ==> after_payments(
                book,
                payer,
                amounts,
                times,
            )[k] == book[k]),
        forall|i: int|
            0 <= i < amounts.len() ==> has_room(
                after_payments(book, payer, amounts.take(i), times.take(i)),
                payer,
                #[trigger] amounts[i],
            ),
    decreases amounts.len(),
{
    if amounts.len() > 0 {
        let n = amounts.len() - 1;
        let a0 = amounts.drop_last();
        let t0 = times.drop_last();
        assert(total(a0) <= total(amounts));
        lemma_payments_accumulate(book, payer, a0, t0);
        assert forall|i: int| 0 <= i < amounts.len() implies has_room(
            after_payments(book, payer, amounts.take(i), times.take(i)),
            payer,
            #[trigger] amounts[i],
        ) by {
            if i < n {
                assert(amounts.take(i) =~= a0.take(i));
                assert(times.take(i) =~= t0.take(i));
                assert(a0[i] == amounts[i]);
            } else {
                assert(amounts.take(i) =~= a0);
                assert(times.take(i) =~= t0);
            }
        }
    }
}

} // verus!
