//! What holds of the readings of encoded payments as a whole.
use vstd::arithmetic::div_mod::*;
use vstd::arithmetic::power::*;
use vstd::prelude::*;

#[allow(unused_imports)]
use crate::abi::{
    abi_payments, asm_order, decoded_payments, decoder_gives, decoder_part, exceeds_memory,
    follow, is_asm_reading, is_decoding, is_sol_reading, lemma_unaddressable_overruns, payment_at,
    payment_of, payments_count, payments_of, pointer_at, recipient_size, recipients_addressable,
    sol_order,
    AbiErrorView, AbiPaymentView,
};
#[allow(unused_imports)]
use crate::batch::{is_payments_reading, BatchProgram};
#[allow(unused_imports)]
use crate::bytes::{be_bytes, be_value, lemma_be_bytes_len, lemma_be_bytes_value, usize_range};
#[allow(unused_imports)]
use crate::error::ErrorView;
#[allow(unused_imports)]
use crate::payment::PaymentView;

verus! {

/// A number of 32 bytes.
pub open spec fn word(n: nat) -> Seq<u8> {
    be_bytes(n, 32)
}

/// Bytes filled up with zeros to a multiple of 32.
pub open spec fn padded(data: Seq<u8>) -> Seq<u8> {
    data + Seq::new(((32 - data.len() % 32) % 32) as nat, |i: int| 0u8)
}

/// Whether a payment can be encoded: its transaction id has 32 bytes and its numbers fit.
pub open spec fn is_encodable(p: AbiPaymentView) -> bool {
    &&& p.txid.len() == 32
    &&& p.vout < pow(256, 32)
    &&& p.value < pow(256, 32)
    &&& p.height < pow(256, 32)
}

/// The encoding of one payment.
pub open spec fn payment_encoding(p: AbiPaymentView) -> Seq<u8> {
    p.txid + word(p.vout) + word(p.value) + word(0xa0) + word(p.height) + word(p.recipient.len())
        + padded(p.recipient)
}

/// The encodings of payments, one after the other.
pub open spec fn payments_tail(ps: Seq<AbiPaymentView>) -> Seq<u8>
    decreases ps.len(),
{
    if ps.len() == 0 {
        Seq::empty()
    } else {
        payments_tail(ps.drop_last()) + payment_encoding(ps.last())
    }
}

/// The offsets of the first `n` payments, counted from the first of them.
pub open spec fn payments_head(ps: Seq<AbiPaymentView>, n: nat) -> Seq<u8>
    decreases n,
{
    if n == 0 {
        Seq::empty()
    } else {
        payments_head(ps, (n - 1) as nat) + word(
            32 * ps.len() + payments_tail(ps.take(n - 1)).len(),
        )
    }
}

/// The encoding of an array of payments.
pub open spec fn payments_encoding(ps: Seq<AbiPaymentView>) -> Seq<u8> {
    word(0x20) + word(ps.len()) + payments_head(ps, ps.len()) + payments_tail(ps)
}

/// A number that a `usize` can hold comes back from its 32 bytes.
proof fn lemma_word(n: nat)
    ensures
        word(n).len() == 32,
        n <= usize::MAX ==> be_value(word(n)) % usize_range() == n,
{
    lemma_be_bytes_len(n, 32);
    if n <= usize::MAX {
        assert(n < pow(256, 32)) by {
            lemma_pow_increases(256, 8, 32);
            assert(pow(256, 8) == 0x1_0000_0000_0000_0000) by {
                reveal_with_fuel(pow, 9);
            }
        }
        lemma_be_bytes_value(n, 32);
        lemma_small_mod(n, usize_range());
    }
}

/// The parts of a payment's encoding.
proof fn lemma_payment_encoding(p: AbiPaymentView)
    requires
        is_encodable(p),
    ensures
        payment_encoding(p).len() >= 192 + p.recipient.len(),
        payment_encoding(p).subrange(0, 32) == p.txid,
        payment_encoding(p).subrange(32, 64) == word(p.vout),
        payment_encoding(p).subrange(64, 96) == word(p.value),
        payment_encoding(p).subrange(96, 128) == word(0xa0),
        payment_encoding(p).subrange(128, 160) == word(p.height),
        payment_encoding(p).subrange(160, 192) == word(p.recipient.len()),
        payment_encoding(p).subrange(192, (192 + p.recipient.len()) as int) == p.recipient,
{
    lemma_word(p.vout);
    lemma_word(p.value);
    lemma_word(0xa0);
    lemma_word(p.height);
    lemma_word(p.recipient.len());
    let e = payment_encoding(p);
    assert(e.subrange(0, 32) =~= p.txid);
    assert(e.subrange(32, 64) =~= word(p.vout));
    assert(e.subrange(64, 96) =~= word(p.value));
    assert(e.subrange(96, 128) =~= word(0xa0));
    assert(e.subrange(128, 160) =~= word(p.height));
    assert(e.subrange(160, 192) =~= word(p.recipient.len()));
    assert(e.subrange(192, (192 + p.recipient.len()) as int) =~= p.recipient);
}

/// Each payment's encoding stands behind those of the payments before it.
proof fn lemma_payments_tail(ps: Seq<AbiPaymentView>, k: int)
    requires
        0 <= k < ps.len(),
    ensures
        ({
            let at = payments_tail(ps.take(k)).len() as int;
            let end = at + payment_encoding(ps[k]).len();
            &&& end <= payments_tail(ps).len()
            &&& payments_tail(ps).subrange(at, end) == payment_encoding(ps[k])
        }),
    decreases ps.len(),
{
    let front = ps.drop_last();
    if k < front.len() {
        lemma_payments_tail(front, k);
        assert(front.take(k) =~= ps.take(k));
        let at = payments_tail(ps.take(k)).len() as int;
        let end = at + payment_encoding(ps[k]).len();
        assert(payments_tail(ps).subrange(at, end) =~= payments_tail(front).subrange(at, end));
    } else {
        assert(ps.take(k) =~= front);
        let at = payments_tail(front).len() as int;
        let end = payments_tail(ps).len() as int;
        assert(payments_tail(ps).subrange(at, end) =~= payment_encoding(ps[k]));
    }
}

/// The offset of payment `k` is the `k`-th of the offsets.
proof fn lemma_payments_head(ps: Seq<AbiPaymentView>, n: nat, k: int)
    requires
        0 <= k <= n,
    ensures
        payments_head(ps, n).len() == 32 * n,
        k < n ==> payments_head(ps, n).subrange(32 * k, 32 * k + 32) == word(
            32 * ps.len() + payments_tail(ps.take(k)).len(),
        ),
    decreases n,
{
    if n > 0 {
        let m = (n - 1) as nat;
        let last = word(32 * ps.len() + payments_tail(ps.take(n - 1)).len());
        lemma_word(32 * ps.len() + payments_tail(ps.take(n - 1)).len());
        if k < m {
            lemma_payments_head(ps, m, k);
            assert(payments_head(ps, n).subrange(32 * k, 32 * k + 32) =~= payments_head(
                ps,
                m,
            ).subrange(32 * k, 32 * k + 32));
        } else {
            lemma_payments_head(ps, m, m as int);
            if k == m {
                assert(payments_head(ps, n).subrange(32 * k, 32 * k + 32) =~= last);
            }
        }
    }
}

/// In the encoding of payments, each payment stands where the offsets lead to.
#[verifier::rlimit(60)]
#[verifier::spinoff_prover]
proof fn lemma_encoded_payment(ps: Seq<AbiPaymentView>, i: nat)
    requires
        payments_encoding(ps).len() <= usize::MAX,
        forall|j: int| 0 <= j < ps.len() ==> is_encodable(#[trigger] ps[j]),
        i < ps.len(),
    ensures
        payment_at(payments_encoding(ps).skip(64), i) == Some(ps[i as int]),
{
    let n = ps.len();
    let head = payments_head(ps, n);
    let tail = payments_tail(ps);
    lemma_word(0x20);
    lemma_word(n);
    lemma_payments_head(ps, n, i as int);
    lemma_payments_tail(ps, i as int);
    let payments = payments_encoding(ps).skip(64);
    assert(payments =~= head + tail);
    let p = ps[i as int];
    let encoding = payment_encoding(p);
    lemma_payment_encoding(p);
    let before = payments_tail(ps.take(i as int)).len();
    lemma_word(32 * n + before);
    let at = 32 * i as int;
    assert(payments.subrange(at, at + 32) =~= head.subrange(at, at + 32));
    assert(pointer_at(payments, 32 * i) == Some(32 * n + before));
    let payment = payments.skip((32 * n + before) as int);
    assert(payment =~= tail.skip(before as int));
    assert forall|a: int, b: int| 0 <= a <= b <= encoding.len() implies #[trigger] payment.subrange(
        a,
        b,
    ) == encoding.subrange(a, b) by {
        assert(payment.subrange(a, b) =~= tail.subrange(
            before as int,
            (before + encoding.len()) as int,
        ).subrange(a, b));
    }
    lemma_word(0xa0);
    assert(pointer_at(payment, 96) == Some(0xa0nat));
    let recipient = payment.skip(0xa0);
    let size = p.recipient.len();
    assert(recipient.subrange(0, 32) =~= payment.subrange(160, 192));
    lemma_word(size);
    assert(recipient.subrange(32, (32 + size) as int) =~= payment.subrange(
        192,
        (192 + size) as int,
    ));
    lemma_be_bytes_value(p.vout, 32);
    lemma_be_bytes_value(p.value, 32);
    lemma_be_bytes_value(p.height, 32);
}

/// The encoding of payments holds exactly those payments.
pub proof fn law_encoding_holds_its_payments(ps: Seq<AbiPaymentView>)
    requires
        payments_encoding(ps).len() <= usize::MAX,
        forall|i: int| 0 <= i < ps.len() ==> is_encodable(#[trigger] ps[i]),
    ensures
        payments_count(payments_encoding(ps)) == Some(ps.len()),
        abi_payments(payments_encoding(ps)) == Some(ps),
{
    let data = payments_encoding(ps);
    let n = ps.len();
    lemma_word(0x20);
    lemma_word(n);
    lemma_payments_head(ps, n, n as int);
    assert(data.subrange(0, 32) =~= word(0x20));
    let array = data.skip(32);
    assert(array.subrange(0, 32) =~= word(n));
    assert(array.skip(32) =~= data.skip(64));
    assert forall|i: nat| i < n implies #[trigger] payment_at(array.skip(32), i) == Some(
        ps[i as int],
    ) by {
        lemma_encoded_payment(ps, i);
    }
    assert(abi_payments(data)->0 =~= ps);
}

/// Different payments have different encodings.
pub proof fn law_encoding_tells_payments_apart(ps: Seq<AbiPaymentView>, qs: Seq<AbiPaymentView>)
    requires
        forall|i: int| 0 <= i < ps.len() ==> is_encodable(#[trigger] ps[i]),
        forall|i: int| 0 <= i < qs.len() ==> is_encodable(#[trigger] qs[i]),
        payments_encoding(ps) == payments_encoding(qs),
        payments_encoding(ps).len() <= usize::MAX,
    ensures
        ps == qs,
{
    law_encoding_holds_its_payments(ps);
    law_encoding_holds_its_payments(qs);
}

/// Both programs' replies are read from the same payments: what generated bytecode's reply is read as
/// is what the compiled contract's reply is read as, backwards.
pub proof fn law_programs_differ_in_order(
    data: Seq<u8>,
    from_asm: Seq<PaymentView>,
    from_sol: Seq<PaymentView>,
)
    requires
        is_asm_reading(data, Ok(from_asm)),
        is_sol_reading(data, Ok(from_sol)),
    ensures
        from_asm == from_sol.reverse(),
{
    if data.len() > 0 {
        let a = choose|outcome: Result<Seq<AbiPaymentView>, AbiErrorView>| #[trigger]
            is_decoding(data, outcome) && Ok::<Seq<PaymentView>, ErrorView>(from_asm) == asm_order(
                decoded_payments(outcome),
            );
        let s = choose|outcome: Result<Seq<AbiPaymentView>, AbiErrorView>| #[trigger]
            is_decoding(data, outcome) && Ok::<Seq<PaymentView>, ErrorView>(from_sol) == sol_order(
                decoded_payments(outcome),
            );
        assert(a == s);
    } else {
        assert(from_asm =~= from_sol.reverse());
    }
}

/// Numbers that fit their fields are read as they are.
pub proof fn law_fitting_numbers_are_kept(p: AbiPaymentView)
    requires
        p.vout <= u32::MAX,
        p.value <= u64::MAX,
        p.height <= u64::MAX,
    ensures
        payment_of(p).txid == p.txid,
        payment_of(p).vout == p.vout,
        payment_of(p).value == p.value,
        payment_of(p).recipient == p.recipient,
        payment_of(p).height == p.height,
{
}

/// Payments in the order in which the reply of a program is read: generated bytecode's backwards.
pub open spec fn program_order(program: BatchProgram, ps: Seq<PaymentView>) -> Seq<PaymentView> {
    match program {
        BatchProgram::Asm => ps.reverse(),
        BatchProgram::Sol => ps,
    }
}

/// The error that is reported where the decoder gives up with these words.
pub open spec fn gave_up(program: BatchProgram, words: Seq<char>) -> Result<
    Seq<PaymentView>,
    ErrorView,
> {
    let decoded = decoded_payments(Err(AbiErrorView::Other(words)));
    match program {
        BatchProgram::Asm => asm_order(decoded),
        BatchProgram::Sol => sol_order(decoded),
    }
}

/// Encoded payments are read back: backwards from generated bytecode, forwards from the compiled
/// contract. Only where there are payments can an error come instead, for want of memory.
#[verifier::rlimit(40)]
pub proof fn law_encoded_payments_are_read_back(
    ps: Seq<AbiPaymentView>,
    program: BatchProgram,
    res: Result<Seq<PaymentView>, ErrorView>,
)
    requires
        payments_encoding(ps).len() <= usize::MAX,
        forall|i: int| 0 <= i < ps.len() ==> is_encodable(#[trigger] ps[i]),
        is_payments_reading(program, payments_encoding(ps), res),
    ensures
        match res {
            Ok(payments) => payments == program_order(program, payments_of(ps)),
            Err(e) => ps.len() > 0 && exists|words: Seq<char>| res == #[trigger] gave_up(program, words),
        },
{
    let data = payments_encoding(ps);
    lemma_word(0x20);
    assert(data.len() >= 32);
    law_encoding_holds_its_payments(ps);
    let outcome = match program {
        BatchProgram::Asm => choose|outcome: Result<Seq<AbiPaymentView>, AbiErrorView>| #[trigger]
            is_decoding(data, outcome) && res == asm_order(decoded_payments(outcome)),
        BatchProgram::Sol => choose|outcome: Result<Seq<AbiPaymentView>, AbiErrorView>| #[trigger]
            is_decoding(data, outcome) && res == sol_order(decoded_payments(outcome)),
    };
    if let Err(e) = outcome {
        assert(res == gave_up(program, e->Other_0));
    }
}

/// The number in the 32 bytes at a position.
pub open spec fn number_at(data: Seq<u8>, at: int) -> nat {
    be_value(data.subrange(at, at + 32))
}

/// The offset or length in the 32 bytes at a position, as far as a `usize` holds it.
pub open spec fn place_at(data: Seq<u8>, at: int) -> int {
    number_at(data, at) as int % (usize::MAX + 1)
}

/// Whether a payment stands in the data at a position: its transaction id, its output and its value one
/// after the other, its height behind the offset of its recipient, and the recipient, with its length in
/// front, where the offset leads to from there.
pub open spec fn stands_at(data: Seq<u8>, p: AbiPaymentView, at: int) -> bool {
    let recipient = at + place_at(data, at + 96);
    let size = place_at(data, recipient);
    &&& 0 <= at && at + 160 <= data.len()
    &&& recipient + 32 <= data.len()
    &&& recipient + 32 + size <= data.len()
    &&& p.txid == data.subrange(at, at + 32)
    &&& p.vout == number_at(data, at + 32)
    &&& p.value == number_at(data, at + 64)
    &&& p.recipient == data.subrange(recipient + 32, recipient + 32 + size)
    &&& p.height == number_at(data, at + 128)
}

/// Whether a payment is stored at index `i` of an array whose offsets begin at `body`, where its
/// own offset leads to from there.
pub open spec fn is_stored_at(data: Seq<u8>, body: int, i: nat, p: AbiPaymentView) -> bool {
    body + 32 * i + 32 <= data.len() && stands_at(data, p, body + place_at(data, body + 32 * i))
}

/// Whether payments are stored in the data: the array where the first offset leads to, its length in front,
/// and each payment where its own offset leads to from behind that length.
pub open spec fn are_stored(data: Seq<u8>, ps: Seq<AbiPaymentView>) -> bool {
    let array = place_at(data, 0);
    let body = array + 32;
    &&& 32 <= data.len()
    &&& body <= data.len()
    &&& ps.len() == place_at(data, array)
    &&& forall|i: int|
        0 <= i < ps.len() ==> is_stored_at(data, body, i as nat, #[trigger] ps[i])
}

/// Whether `found` is the payment that is stored at index `i`, or none is.
spec fn is_found_at(data: Seq<u8>, body: int, i: nat, found: Option<AbiPaymentView>) -> bool {
    match found {
        Some(p) => is_stored_at(data, body, i, p),
        None => forall|p: AbiPaymentView| !is_stored_at(data, body, i, p),
    }
}

/// One payment is read where it stands.
proof fn lemma_payment_stands(data: Seq<u8>, body: int, i: nat)
    requires
        0 <= body <= data.len(),
    ensures
        is_found_at(data, body, i, payment_at(data.skip(body), i)),
{
    let payments = data.skip(body);
    let slot = body + 32 * i as int;
    if slot + 32 <= data.len() {
        assert(payments.subrange((32 * i) as int, (32 * i + 32) as int) =~= data.subrange(slot, slot + 32));
        let at = body + place_at(data, slot);
        if at <= data.len() {
            let payment = payments.skip(place_at(data, slot));
            assert(payment =~= data.skip(at));
            if at + 160 <= data.len() {
                assert(payment.subrange(0, 32) =~= data.subrange(at, at + 32));
                assert(payment.subrange(32, 64) =~= data.subrange(at + 32, at + 64));
                assert(payment.subrange(64, 96) =~= data.subrange(at + 64, at + 96));
                assert(payment.subrange(96, 128) =~= data.subrange(at + 96, at + 128));
                assert(payment.subrange(128, 160) =~= data.subrange(at + 128, at + 160));
                let r = at + place_at(data, at + 96);
                if r <= data.len() {
                    let recipient = payment.skip(place_at(data, at + 96));
                    assert(recipient =~= data.skip(r));
                    if r + 32 <= data.len() {
                        assert(recipient.subrange(0, 32) =~= data.subrange(r, r + 32));
                        let size = place_at(data, r);
                        if r + 32 + size <= data.len() {
                            assert(recipient.subrange(32, 32 + size) =~= data.subrange(
                                r + 32,
                                r + 32 + size,
                            ));
                        }
                    }
                }
            }
        }
    }
}

/// Two payments that stand at the same position are the same.
proof fn lemma_stands_once(data: Seq<u8>, p: AbiPaymentView, q: AbiPaymentView, at: int)
    requires
        stands_at(data, p, at),
        stands_at(data, q, at),
    ensures
        p == q,
{
}

/// Every payment of an array is read where it stands.
proof fn lemma_payments_stand(data: Seq<u8>)
    requires
        32 <= data.len(),
        place_at(data, 0) + 32 <= data.len(),
    ensures
        ({
            let array = place_at(data, 0);
            let body = array + 32;
            &&& follow(data, 0) == Some(data.skip(array))
            &&& payments_count(data) == Some(place_at(data, array) as nat)
            &&& data.skip(array).skip(32) == data.skip(body)
            &&& forall|i: nat|
                is_found_at(data, body, i, #[trigger] payment_at(data.skip(body), i))
        }),
{
    let array = place_at(data, 0);
    let body = array + 32;
    assert(data.skip(array).subrange(0, 32) =~= data.subrange(array, array + 32));
    assert(data.skip(array).skip(32) =~= data.skip(body));
    assert forall|i: nat| is_found_at(data, body, i, #[trigger] payment_at(data.skip(body), i)) by {
        lemma_payment_stands(data, body, i);
    }
}

/// Payments that are stored are held.
proof fn lemma_stored_are_held(data: Seq<u8>, ps: Seq<AbiPaymentView>)
    requires
        are_stored(data, ps),
    ensures
        abi_payments(data) == Some(ps),
{
    lemma_payments_stand(data);
    let body = place_at(data, 0) + 32;
    let payments = data.skip(body);
    assert forall|i: nat| i < ps.len() implies #[trigger] payment_at(payments, i) == Some(
        ps[i as int],
    ) by {
        let at = body + place_at(data, body + 32 * i as int);
        assert(is_stored_at(data, body, i, ps[i as int]));
        assert(is_found_at(data, body, i, payment_at(payments, i)));
        lemma_stands_once(data, payment_at(payments, i)->0, ps[i as int], at);
    }
    assert(abi_payments(data)->0 =~= ps);
}

/// Payments that are held are stored.
proof fn lemma_held_are_stored(data: Seq<u8>, ps: Seq<AbiPaymentView>)
    requires
        abi_payments(data) == Some(ps),
    ensures
        are_stored(data, ps),
{
    assert(payments_count(data) is Some);
    assert(pointer_at(data, 0) == Some(place_at(data, 0) as nat));
    assert(follow(data, 0) is Some);
    assert(pointer_at(follow(data, 0)->0, 0) is Some);
    lemma_payments_stand(data);
    let array = place_at(data, 0);
    let body = array + 32;
    let payments = data.skip(body);
    lemma_mod_bound(number_at(data, 0) as int, usize::MAX + 1);
    lemma_mod_bound(number_at(data, array) as int, usize::MAX + 1);
    assert(ps.len() == place_at(data, array));
    assert forall|i: int| 0 <= i < ps.len() implies is_stored_at(
        data,
        body,
        i as nat,
        #[trigger] ps[i],
    ) by {
        assert(payment_at(payments, i as nat) == Some(ps[i]));
        assert(is_found_at(data, body, i as nat, payment_at(payments, i as nat)));
    }
}

/// The payments that data holds are those that are stored in it.
pub proof fn law_payments_are_held_where_they_are_stored(data: Seq<u8>, ps: Seq<AbiPaymentView>)
    ensures
        abi_payments(data) == Some(ps) <==> are_stored(data, ps),
{
    if abi_payments(data) == Some(ps) {
        lemma_held_are_stored(data, ps);
    }
    if are_stored(data, ps) {
        lemma_stored_are_held(data, ps);
    }
}

/// Data that holds payments is given to the decoder as it is.
pub proof fn law_decoder_is_given_all_that_holds_payments(data: Seq<u8>)
    requires
        data.len() <= usize::MAX,
        abi_payments(data) is Some,
    ensures
        decoder_part(data) == data,
{
    if !recipients_addressable(data) {
        lemma_unaddressable_overruns(data);
    }
}

/// Decoding gives up for certain only where four words for each payment are more than a `Vec` can hold, and
/// nothing but that, a shortage of memory or data that ends early can keep payments from being decoded.
pub proof fn law_decoding_can_only_fail_for_want_of_memory_or_data(
    data: Seq<u8>,
    outcome: Result<Seq<AbiPaymentView>, AbiErrorView>,
)
    requires
        is_decoding(data, outcome),
    ensures
        outcome matches Ok(ps) ==> are_stored(data, ps),
        outcome matches Err(AbiErrorView::Overrun) ==> forall|ps: Seq<AbiPaymentView>|
            !#[trigger] are_stored(data, ps),
        outcome matches Err(AbiErrorView::Other(_)) ==> 32 <= data.len() && place_at(
            data,
            place_at(data, 0),
        ) > 0,
        forall|count: nat| #[trigger] exceeds_memory(count) <==> count * 128 > isize::MAX,
{
    if let Ok(ps) = outcome {
        law_payments_are_held_where_they_are_stored(data, ps);
    }
    if outcome == Err::<Seq<AbiPaymentView>, AbiErrorView>(AbiErrorView::Overrun) {
        assert forall|ps: Seq<AbiPaymentView>| !#[trigger] are_stored(data, ps) by {
            law_payments_are_held_where_they_are_stored(data, ps);
        }
    }
    if payments_count(data) is Some {
        let array = place_at(data, 0);
        assert(data.skip(array).subrange(0, 32) =~= data.subrange(array, array + 32));
    }
}

/// Whether a payment is read as what it was decoded as: every field is kept, but a number that does not fit
/// its field is zero.
pub open spec fn reads_as(p: AbiPaymentView, read: PaymentView) -> bool {
    &&& read.txid == p.txid
    &&& read.recipient == p.recipient
    &&& read.vout == if p.vout < 0x1_0000_0000 { p.vout } else { 0 }
    &&& read.value == if p.value < 0x1_0000_0000_0000_0000 { p.value } else { 0 }
    &&& read.height == if p.height < 0x1_0000_0000_0000_0000 { p.height } else { 0 }
}

/// The words that stand for an error of decoding.
pub open spec fn words_of(e: AbiErrorView) -> Seq<char> {
    match e {
        AbiErrorView::Overrun => "ABI decoding failed: buffer overrun while deserializing"@,
        AbiErrorView::Other(words) => words,
    }
}

/// Every payment that was decoded is read, in the same order, and nothing else is; an error of decoding is
/// reported with its words.
pub proof fn law_every_decoded_payment_is_read(ps: Seq<AbiPaymentView>, e: AbiErrorView)
    ensures
        decoded_payments(Ok(ps)) matches Ok(read) && read.len() == ps.len() && forall|i: int|
            0 <= i < ps.len() ==> reads_as(ps[i], #[trigger] read[i]),
        decoded_payments(Err(e)) == Err::<Seq<PaymentView>, ErrorView>(
            ErrorView::RpcError("Alloy decode failed: "@ + words_of(e)),
        ),
{
}

/// Where in a reply the payment stands that is read at index `i`: generated bytecode's payments are read
/// from the last one back, those of the compiled contract from the first one on.
pub open spec fn source_index(program: BatchProgram, n: nat, i: int) -> int {
    if program == BatchProgram::Asm {
        n - 1 - i
    } else {
        i
    }
}

/// Whether payments are read from what was decoded: as many, each from its place.
pub open spec fn are_read(
    program: BatchProgram,
    ps: Seq<AbiPaymentView>,
    read: Seq<PaymentView>,
) -> bool {
    &&& read.len() == ps.len()
    &&& forall|i: int|
        0 <= i < ps.len() ==> reads_as(ps[source_index(program, ps.len(), i)], #[trigger] read[i])
}

/// The error that a program's reader reports for an error of decoding.
pub open spec fn reported(program: BatchProgram, e: AbiErrorView) -> ErrorView {
    let words = "Alloy decode failed: "@ + words_of(e);
    match program {
        BatchProgram::Asm => ErrorView::RpcError(words),
        BatchProgram::Sol => ErrorView::RpcError(
            "Failed to decode Payment[] ABI from Solidity: "@ + ("RPC error: "@ + words),
        ),
    }
}

/// A reader follows the decoder: where the decoder gives payments it reads all of them, each from its place,
/// and it fails only where the decoder itself has failed, with the decoder's words. Without data there are
/// no payments.
pub proof fn law_readers_follow_the_decoder(
    program: BatchProgram,
    data: Seq<u8>,
    res: Result<Seq<PaymentView>, ErrorView>,
)
    requires
        is_payments_reading(program, data, res),
    ensures
        data.len() == 0 ==> res == Ok::<Seq<PaymentView>, ErrorView>(Seq::empty()),
        data.len() > 0 ==> exists|outcome: Result<Seq<AbiPaymentView>, AbiErrorView>|
            {
                &&& #[trigger] decoder_gives(data, outcome)
                &&& is_decoding(data, outcome)
                &&& match outcome {
                    Ok(ps) => res matches Ok(read) && are_read(program, ps, read),
                    Err(e) => res == Err::<Seq<PaymentView>, ErrorView>(reported(program, e)),
                }
            },
{
    if data.len() > 0 {
        let outcome = match program {
            BatchProgram::Asm => choose|outcome: Result<Seq<AbiPaymentView>, AbiErrorView>| #[trigger]
                is_decoding(data, outcome) && decoder_gives(data, outcome) && res == asm_order(
                    decoded_payments(outcome),
                ),
            BatchProgram::Sol => choose|outcome: Result<Seq<AbiPaymentView>, AbiErrorView>| #[trigger]
                is_decoding(data, outcome) && decoder_gives(data, outcome) && res == sol_order(
                    decoded_payments(outcome),
                ),
        };
        assert(decoder_gives(data, outcome));
        match outcome {
            Ok(ps) => {
                law_every_decoded_payment_is_read(ps, AbiErrorView::Overrun);
                assert(are_read(program, ps, res->Ok_0));
            },
            Err(e) => {
                law_every_decoded_payment_is_read(Seq::empty(), e);
            },
        }
    }
}

/// Payments whose encoding the decoder completes are all read, each from its place. A reader fails on an
/// encoding only where the decoder itself gave up, with the decoder's words, and then it is not empty.
pub proof fn law_encodings_are_read_whole(
    ps: Seq<AbiPaymentView>,
    program: BatchProgram,
    res: Result<Seq<PaymentView>, ErrorView>,
)
    requires
        payments_encoding(ps).len() <= usize::MAX,
        forall|i: int| 0 <= i < ps.len() ==> is_encodable(#[trigger] ps[i]),
        is_payments_reading(program, payments_encoding(ps), res),
    ensures
        decoder_part(payments_encoding(ps)) == payments_encoding(ps),
        match res {
            Ok(read) => are_read(program, ps, read),
            Err(e) => ps.len() > 0 && exists|words: Seq<char>| #[trigger]
                decoder_gives(payments_encoding(ps), Err(AbiErrorView::Other(words))) && e
                    == reported(program, AbiErrorView::Other(words)),
        },
{
    let data = payments_encoding(ps);
    lemma_word(0x20);
    assert(data.len() >= 32);
    law_encoding_holds_its_payments(ps);
    law_decoder_is_given_all_that_holds_payments(data);
    law_readers_follow_the_decoder(program, data, res);
    let outcome = choose|outcome: Result<Seq<AbiPaymentView>, AbiErrorView>|
        {
            &&& #[trigger] decoder_gives(data, outcome)
            &&& is_decoding(data, outcome)
            &&& match outcome {
                Ok(qs) => res matches Ok(read) && are_read(program, qs, read),
                Err(e) => res == Err::<Seq<PaymentView>, ErrorView>(reported(program, e)),
            }
        };
    if let Err(e) = outcome {
        let words = e->Other_0;
        assert(decoder_gives(data, Err(AbiErrorView::Other(words))));
    }
}

/// Generated bytecode's payments are turned round, the first becoming the last, and the compiled contract's are
/// not. An error stays what it is, or is marked as the compiled contract's, whatever it is.
pub proof fn law_orders_keep_every_payment(ps: Seq<PaymentView>, e: ErrorView)
    ensures
        asm_order(Ok(ps)) matches Ok(read) && read.len() == ps.len() && forall|i: int|
            0 <= i < ps.len() ==> #[trigger] read[i] == ps[ps.len() - 1 - i],
        sol_order(Ok(ps)) == Ok::<Seq<PaymentView>, ErrorView>(ps),
        asm_order(Err(e)) == Err::<Seq<PaymentView>, ErrorView>(e),
        sol_order(Err(e)) == Err::<Seq<PaymentView>, ErrorView>(
            ErrorView::RpcError(
                "Failed to decode Payment[] ABI from Solidity: "@ + match e {
                    ErrorView::Configuration(message) => "Configuration error: "@ + message,
                    ErrorView::RpcError(message) => "RPC error: "@ + message,
                    ErrorView::AddressResolution(message) => "Address resolution error: "@ + message,
                },
            ),
        ),
{
}

/// Whether the payment at index `i` of an array whose offsets begin at `body` claims a recipient whose end no
/// `usize` can hold.
pub open spec fn is_endless_at(data: Seq<u8>, body: int, i: int) -> bool {
    let at = body + place_at(data, body + 32 * i);
    let recipient = at + place_at(data, at + 96);
    &&& body + 32 * i + 32 <= data.len()
    &&& at + 128 <= data.len()
    &&& recipient + 32 <= data.len()
    &&& place_at(data, recipient) + 32 > usize::MAX
}

/// The decoder is given the data as it is, but for data that claims a recipient whose end no `usize` can hold: of
/// that it is given what stands before the first offset.
pub proof fn law_decoder_is_given_all_but_endless_recipients(data: Seq<u8>)
    ensures
        decoder_part(data) == data || {
            let array = place_at(data, 0);
            &&& decoder_part(data) == data.take(array + 32)
            &&& array + 32 <= data.len()
            &&& exists|i: int|
                0 <= i < place_at(data, array) && #[trigger] is_endless_at(data, array + 32, i)
        },
{
    if !recipients_addressable(data) {
        let array = place_at(data, 0);
        let body = array + 32;
        assert(pointer_at(data, 0) == Some(array as nat));
        assert(payments_count(data) is Some);
        lemma_payments_stand(data);
        let payments = data.skip(body);
        let i = choose|i: nat|
            i < payments_count(data)->0 && #[trigger] recipient_size(payments, i) is Some
                && recipient_size(payments, i)->0 + 32 > usize::MAX;
        lemma_mod_bound(number_at(data, array) as int, usize::MAX + 1);
        let slot = body + 32 * i as int;
        assert(payments.subrange((32 * i) as int, (32 * i + 32) as int) =~= data.subrange(
            slot,
            slot + 32,
        ));
        let at = body + place_at(data, slot);
        let payment = payments.skip(place_at(data, slot));
        lemma_mod_bound(number_at(data, slot) as int, usize::MAX + 1);
        assert(payment =~= data.skip(at));
        assert(payment.subrange(96, 128) =~= data.subrange(at + 96, at + 128));
        let r = at + place_at(data, at + 96);
        let recipient = payment.skip(place_at(data, at + 96));
        lemma_mod_bound(number_at(data, at + 96) as int, usize::MAX + 1);
        assert(recipient =~= data.skip(r));
        assert(recipient.subrange(0, 32) =~= data.subrange(r, r + 32));
        assert(is_endless_at(data, body, i as int));
    }
}

} // verus!
