//! Arrays of payments in the ABI encoding of contract calls.
//!
//! An encoded array is `[offset of the array = 0x20][length][offset of each payment][payments]`,
//! every bracket a number of 32 bytes, and each payment is
//! `[txid][vout][value][offset of the recipient = 0xa0][height][length of the recipient][recipient]`.
use crate::bytes::be_usize_wrapping;
use crate::error::AlkanesError;
use crate::payment::Payment;
use crate::text::join;
use alloy_sol_types::sol_data::{Array, Bytes, FixedBytes, Uint};
use alloy_sol_types::SolType;
use vstd::prelude::*;

#[allow(unused_imports)]
use crate::bytes::{be_value, usize_range};
#[allow(unused_imports)]
use crate::error::{error_text, result_view, ErrorView};
#[allow(unused_imports)]
use crate::payment::PaymentView;

verus! {

/// A payment as the contract encodes it, with numbers of 256 bits, each as four limbs of 64 bits,
/// least significant first.
#[derive(Debug, PartialEq, Eq)]
pub struct AbiPayment {
    pub txid: [u8; 32],
    pub vout: [u64; 4],
    pub value: [u64; 4],
    pub recipient: Vec<u8>,
    pub height: [u64; 4],
}

/// An [`AbiPayment`] with its numbers and byte strings as values of the specification.
pub struct AbiPaymentView {
    pub txid: Seq<u8>,
    pub vout: nat,
    pub value: nat,
    pub recipient: Seq<u8>,
    pub height: nat,
}

/// How many values a limb can have.
pub open spec fn limb_range() -> nat {
    0x1_0000_0000_0000_0000
}

/// The number that four limbs make up.
pub open spec fn limbs_value(limbs: Seq<u64>) -> nat {
    limbs[0] as nat + limb_range() * (limbs[1] as nat + limb_range() * (limbs[2] as nat
        + limb_range() * limbs[3] as nat))
}

impl View for AbiPayment {
    type V = AbiPaymentView;

    open spec fn view(&self) -> AbiPaymentView {
        AbiPaymentView {
            txid: self.txid@,
            vout: limbs_value(self.vout@),
            value: limbs_value(self.value@),
            recipient: self.recipient@,
            height: limbs_value(self.height@),
        }
    }
}

impl DeepView for AbiPayment {
    type V = AbiPaymentView;

    open spec fn deep_view(&self) -> AbiPaymentView {
        self@
    }
}

/// Why an array of payments could not be decoded.
#[derive(Debug, PartialEq, Eq)]
pub enum AbiError {
    /// The data ends before the array does.
    Overrun,
    /// Anything else, in the decoder's own words.
    Other(String),
}

/// An [`AbiError`] with its text as a sequence of characters.
pub enum AbiErrorView {
    Overrun,
    Other(Seq<char>),
}

impl View for AbiError {
    type V = AbiErrorView;

    open spec fn view(&self) -> AbiErrorView {
        match self {
            AbiError::Overrun => AbiErrorView::Overrun,
            AbiError::Other(text) => AbiErrorView::Other(text@),
        }
    }
}

/// The outcome of decoding, as a value of the specification.
pub open spec fn decoding_view(outcome: Result<Vec<AbiPayment>, AbiError>) -> Result<
    Seq<AbiPaymentView>,
    AbiErrorView,
> {
    match outcome {
        Ok(ps) => Ok(ps.deep_view()),
        Err(e) => Err(e@),
    }
}

/// The offset or length in the 32 bytes at `at`, of which only what a `usize` can hold is kept.
pub open spec fn pointer_at(data: Seq<u8>, at: nat) -> Option<nat> {
    if at + 32 <= data.len() {
        Some(be_value(data.subrange(at as int, (at + 32) as int)) % usize_range())
    } else {
        None
    }
}

/// What lies behind the offset at `at`.
pub open spec fn follow(data: Seq<u8>, at: nat) -> Option<Seq<u8>> {
    match pointer_at(data, at) {
        Some(offset) if offset <= data.len() => Some(data.skip(offset as int)),
        _ => None,
    }
}

/// The length that the recipient of payment `i` claims to have, `payments` being what follows the
/// length of the array.
pub open spec fn recipient_size(payments: Seq<u8>, i: nat) -> Option<nat> {
    match follow(payments, 32 * i) {
        Some(payment) => match follow(payment, 96) {
            Some(recipient) => pointer_at(recipient, 0),
            None => None,
        },
        None => None,
    }
}

/// Whether the end of every recipient, counted from its length, is a position that a `usize` can
/// hold.
pub open spec fn recipients_addressable(data: Seq<u8>) -> bool {
    match follow(data, 0) {
        Some(array) => match pointer_at(array, 0) {
            Some(count) => forall|i: nat|
                i < count ==> (#[trigger] recipient_size(array.skip(32), i) matches Some(size)
                    ==> size + 32 <= usize::MAX),
            None => true,
        },
        None => true,
    }
}

/// How many payments an encoded array claims to hold.
pub open spec fn payments_count(data: Seq<u8>) -> Option<nat> {
    match follow(data, 0) {
        Some(array) => pointer_at(array, 0),
        None => None,
    }
}

/// Payment `i`, `payments` being what follows the length of the array; `None` where the data ends
/// before the payment does.
pub open spec fn payment_at(payments: Seq<u8>, i: nat) -> Option<AbiPaymentView> {
    match follow(payments, 32 * i) {
        Some(payment) if payment.len() >= 160 => match follow(payment, 96) {
            Some(recipient) => match pointer_at(recipient, 0) {
                Some(size) if 32 + size <= recipient.len() => Some(
                    AbiPaymentView {
                        txid: payment.subrange(0, 32),
                        vout: be_value(payment.subrange(32, 64)),
                        value: be_value(payment.subrange(64, 96)),
                        recipient: recipient.subrange(32, (32 + size) as int),
                        height: be_value(payment.subrange(128, 160)),
                    },
                ),
                _ => None,
            },
            None => None,
        },
        _ => None,
    }
}

/// The payments that an encoded array holds; `None` where the data ends before the array does. What no
/// offset leads to is not looked at.
pub open spec fn abi_payments(data: Seq<u8>) -> Option<Seq<AbiPaymentView>> {
    match payments_count(data) {
        Some(count) => {
            let payments = follow(data, 0)->0.skip(32);
            if forall|i: nat| i < count ==> #[trigger] payment_at(payments, i) is Some {
                Some(Seq::new(count, |i: int| payment_at(payments, i as nat)->0))
            } else {
                None
            }
        },
        None => None,
    }
}

/// Whether so many payments are more than any memory can hold. A payment being decoded takes up no less
/// than 128 bytes, four words, and a `Vec` no more than `isize::MAX` bytes.
pub open spec fn exceeds_memory(count: nat) -> bool {
    128 * count > isize::MAX
}

/// Whether decoding can have this outcome: the payments that the data holds, or an overrun where it ends
/// too early. Before it decodes an array that is not empty, the decoder may give up for want of memory,
/// and it does where the array claims more payments than any memory can hold.
pub open spec fn is_decoding(
    data: Seq<u8>,
    outcome: Result<Seq<AbiPaymentView>, AbiErrorView>,
) -> bool {
    &&& (payments_count(data) matches Some(count) ==> (exceeds_memory(count) ==> outcome matches Err(
        AbiErrorView::Other(_),
    )))
    &&& match outcome {
        Ok(ps) => abi_payments(data) == Some(ps),
        Err(AbiErrorView::Overrun) => abi_payments(data) is None,
        Err(AbiErrorView::Other(_)) => payments_count(data) matches Some(count) && count > 0,
    }
}

/// `alloy_sol_types::SolType::abi_decode`, without validation, for an array of
/// `(bytes32, uint256, uint256, bytes, uint256)`. The contract claims that it gives the payments to which
/// the offsets lead, as [`abi_payments`] says, or an overrun where the data ends before one of them. It
/// claims that any other error comes only with an array that is not empty, for which no memory could be
/// reserved, and that such an error comes for certain where the array [`exceeds_memory`]: memory is
/// reserved before the first payment is decoded. The text of such an error rests on the machine, and
/// nothing is claimed of it. A recipient whose end no `usize` can hold is left out: the decoder adds up
/// its position unchecked.
#[verifier::external_body]
fn abi_decode(data: &[u8]) -> (res: Result<Vec<AbiPayment>, AbiError>)
    requires
        recipients_addressable(data@),
    ensures
        is_decoding(data@, decoding_view(res)),
{
    match <Array<(FixedBytes<32>, Uint<256>, Uint<256>, Bytes, Uint<256>)>>::abi_decode(data, false) {
        Ok(ps) => Ok(ps.into_iter().map(|p| AbiPayment {
            txid: p.0.0,
            vout: p.1.into_limbs(),
            value: p.2.into_limbs(),
            recipient: p.3.to_vec(),
            height: p.4.into_limbs(),
        }).collect()),
        Err(alloy_sol_types::Error::Overrun) => Err(AbiError::Overrun),
        Err(e) => Err(AbiError::Other(e.to_string())),
    }
}

/// Reads the offset or length in the 32 bytes at `at`.
fn read_pointer(data: &[u8], at: usize) -> (res: Option<usize>)
    ensures
        match res {
            Some(p) => pointer_at(data@, at as nat) == Some(p as nat),
            None => pointer_at(data@, at as nat) is None,
        },
{
    if at <= data.len() && data.len() - at >= 32 {
        Some(be_usize_wrapping(&data[at..at + 32]))
    } else {
        None
    }
}

/// What lies behind the offset at `at`.
fn read_behind(data: &[u8], at: usize) -> (res: Option<&[u8]>)
    ensures
        match res {
            Some(behind) => follow(data@, at as nat) == Some(behind@),
            None => follow(data@, at as nat) is None,
        },
{
    match read_pointer(data, at) {
        Some(offset) => if offset <= data.len() {
            let behind = &data[offset..data.len()];
            assert(behind@ =~= data@.skip(offset as int));
            Some(behind)
        } else {
            None
        },
        None => None,
    }
}

/// The length that the recipient of the payment behind the offset at `at` claims to have.
fn read_recipient_size(payments: &[u8], at: usize) -> (res: Option<usize>)
    ensures
        at % 32 == 0 ==> match res {
            Some(size) => recipient_size(payments@, at as nat / 32) == Some(size as nat),
            None => recipient_size(payments@, at as nat / 32) is None,
        },
{
    match read_behind(payments, at) {
        Some(payment) => match read_behind(payment, 96) {
            Some(recipient) => read_pointer(recipient, 0),
            None => None,
        },
        None => None,
    }
}

/// Whether the end of every recipient, counted from its length, is a position that a `usize` can
/// hold.
fn check_recipients(data: &[u8]) -> (res: bool)
    ensures
        res == recipients_addressable(data@),
{
    let array = match read_behind(data, 0) {
        Some(array) => array,
        None => {
            return true;
        },
    };
    let count: usize = match read_pointer(array, 0) {
        Some(count) => count,
        None => {
            return true;
        },
    };
    let payments = &array[32..array.len()];
    assert(payments@ =~= array@.skip(32));
    let mut i: usize = 0;
    let mut at: usize = 0;
    while i < count && payments.len() - at >= 32
        invariant
            i <= count,
            at == 32 * i,
            at <= payments@.len(),
            follow(data@, 0) == Some(array@),
            pointer_at(array@, 0) == Some(count as nat),
            payments@ == array@.skip(32),
            forall|j: nat|
                j < i ==> (#[trigger] recipient_size(array@.skip(32), j) matches Some(size) ==> size
                    + 32 <= usize::MAX),
        decreases count - i,
    {
        assert(at as nat / 32 == i as nat);
        if let Some(size) = read_recipient_size(payments, at) {
            if size > usize::MAX - 32 {
                assert(recipient_size(array@.skip(32), i as nat) == Some(size as nat));
                return false;
            }
        }
        i = i + 1;
        at = at + 32;
    }
    assert forall|j: nat| j < count implies (#[trigger] recipient_size(
        array@.skip(32),
        j,
    ) matches Some(size) ==> size + 32 <= usize::MAX) by {
        if j >= i {
            assert(pointer_at(array@.skip(32), 32 * j) is None);
        }
    }
    true
}

/// A number where it is at most `max`, and zero otherwise.
pub open spec fn narrowed(n: nat, max: nat) -> nat {
    if n <= max {
        n
    } else {
        0
    }
}

/// The payment that a decoded payment stands for. A number too large for its field is read as zero.
pub open spec fn payment_of(p: AbiPaymentView) -> PaymentView {
    PaymentView {
        txid: p.txid,
        vout: narrowed(p.vout, u32::MAX as nat) as u32,
        value: narrowed(p.value, u64::MAX as nat) as u64,
        recipient: p.recipient,
        height: narrowed(p.height, u64::MAX as nat) as u64,
    }
}

/// The payments that decoded payments stand for, in the same order.
pub open spec fn payments_of(ps: Seq<AbiPaymentView>) -> Seq<PaymentView> {
    ps.map_values(|p: AbiPaymentView| payment_of(p))
}

/// The words for an [`AbiError`].
pub open spec fn abi_error_text(e: AbiErrorView) -> Seq<char> {
    match e {
        AbiErrorView::Overrun => "ABI decoding failed: buffer overrun while deserializing"@,
        AbiErrorView::Other(text) => text,
    }
}

/// The payments that an outcome of decoding stands for, or the error to report.
pub open spec fn decoded_payments(outcome: Result<Seq<AbiPaymentView>, AbiErrorView>) -> Result<
    Seq<PaymentView>,
    ErrorView,
> {
    match outcome {
        Ok(ps) => Ok(payments_of(ps)),
        Err(e) => Err(ErrorView::RpcError("Alloy decode failed: "@ + abi_error_text(e))),
    }
}

/// Reads four limbs as a number of at most `max`, or as zero.
fn narrow(limbs: &[u64; 4], max: u64) -> (res: u64)
    ensures
        res == narrowed(limbs_value(limbs@), max as nat),
{
    if limbs[1] == 0 && limbs[2] == 0 && limbs[3] == 0 && limbs[0] <= max {
        limbs[0]
    } else {
        0
    }
}

/// Makes the payment that a decoded payment stands for.
fn narrow_payment(p: AbiPayment) -> (res: Payment)
    ensures
        res@ == payment_of(p@),
{
    Payment {
        txid: p.txid,
        vout: narrow(&p.vout, u32::MAX as u64) as u32,
        value: narrow(&p.value, u64::MAX),
        recipient: p.recipient,
        height: narrow(&p.height, u64::MAX),
    }
}

/// The same items, last one first.
fn reversed_payments(payments: Vec<Payment>) -> (res: Vec<Payment>)
    ensures
        res@ == payments@.reverse(),
{
    let mut rest = payments;
    let mut res: Vec<Payment> = Vec::new();
    while rest.len() > 0
        invariant
            rest@.len() + res@.len() == payments@.len(),
            rest@ == payments@.take(rest@.len() as int),
            res@ == payments@.reverse().take(res@.len() as int),
        decreases rest@.len(),
    {
        if let Some(p) = rest.pop() {
            res.push(p);
        }
        assert(rest@ =~= payments@.take(rest@.len() as int));
        assert(res@ =~= payments@.reverse().take(res@.len() as int));
    }
    assert(payments@.reverse().take(payments@.len() as int) =~= payments@.reverse());
    res
}

/// Turns an outcome of decoding into payments, or into an error of the library.
pub fn payments_from_decoded(outcome: Result<Vec<AbiPayment>, AbiError>) -> (res: Result<
    Vec<Payment>,
    AlkanesError,
>)
    ensures
        result_view(res) == decoded_payments(decoding_view(outcome)),
{
    match outcome {
        Ok(decoded) => {
            let ghost all = decoded.deep_view();
            let mut rest = decoded;
            let mut backwards: Vec<Payment> = Vec::new();
            while rest.len() > 0
                invariant
                    rest@.len() + backwards@.len() == all.len(),
                    forall|j: int| 0 <= j < rest@.len() ==> (#[trigger] rest@[j])@ == all[j],
                    forall|j: int|
                        0 <= j < backwards@.len() ==> (#[trigger] backwards@[j])@ == payment_of(
                            all[all.len() - 1 - j],
                        ),
                decreases rest@.len(),
            {
                if let Some(p) = rest.pop() {
                    backwards.push(narrow_payment(p));
                }
            }
            let payments = reversed_payments(backwards);
            assert(payments.deep_view() =~= payments_of(all));
            Ok(payments)
        },
        Err(AbiError::Overrun) => Err(
            AlkanesError::RpcError(
                join(
                    "Alloy decode failed: ",
                    "ABI decoding failed: buffer overrun while deserializing",
                ),
            ),
        ),
        Err(AbiError::Other(text)) => Err(
            AlkanesError::RpcError(join("Alloy decode failed: ", text.as_str())),
        ),
    }
}

/// The part of the data that the decoder is given: all of it, but nothing behind the length of the array
/// where a recipient claims to end beyond any position. Such data ends before the array does, and all
/// that is left to the decoder is whether it can reserve memory for so many payments.
pub open spec fn decoder_part(data: Seq<u8>) -> Seq<u8> {
    if recipients_addressable(data) {
        data
    } else {
        data.take((pointer_at(data, 0)->0 + 32) as int)
    }
}

/// Takes the part of the data that the decoder is given.
pub fn decoder_input(data: &[u8]) -> (res: &[u8])
    ensures
        res@ == decoder_part(data@),
        recipients_addressable(res@),
        forall|outcome: Result<Seq<AbiPaymentView>, AbiErrorView>| #[trigger]
            is_decoding(res@, outcome) ==> is_decoding(data@, outcome),
{
    if check_recipients(data) {
        return data;
    }
    match read_pointer(data, 0) {
        Some(offset) => {
            proof {
                assert(data@.len() == data.len());
                lemma_decoder_part(data@);
            }
            let part = &data[0..offset + 32];
            assert(part@ =~= decoder_part(data@));
            part
        },
        None => data,
    }
}

/// Whether the decoder itself can have returned this on the part of the data that it is given.
pub closed spec fn decoder_gives(
    data: Seq<u8>,
    outcome: Result<Seq<AbiPaymentView>, AbiErrorView>,
) -> bool {
    exists|input: &[u8], returned: Result<Vec<AbiPayment>, AbiError>|
        input@ == decoder_part(data) && #[trigger] call_ensures(abi_decode, (input,), returned)
            && decoding_view(returned) == outcome
}

/// What the decoder gives, it has itself returned when called on that part of the data: no words but its
/// own can stand in an error.
proof fn law_only_the_decoder_gives(
    data: Seq<u8>,
    outcome: Result<Seq<AbiPaymentView>, AbiErrorView>,
)
    requires
        decoder_gives(data, outcome),
    ensures
        exists|input: &[u8], returned: Result<Vec<AbiPayment>, AbiError>|
            input@ == decoder_part(data) && #[trigger] call_ensures(abi_decode, (input,), returned)
                && decoding_view(returned) == outcome,
{
}

/// What the decoder gives is an outcome of decoding.
pub proof fn law_decoder_gives_decodings(
    data: Seq<u8>,
    outcome: Result<Seq<AbiPaymentView>, AbiErrorView>,
)
    requires
        decoder_gives(data, outcome),
    ensures
        is_decoding(decoder_part(data), outcome),
{
}

/// What comes of a call of the decoder.
fn ask<F: Fn(&[u8]) -> Result<Vec<AbiPayment>, AbiError>>(decoder: F, input: &[u8]) -> (res: Result<
    Vec<AbiPayment>,
    AbiError,
>)
    requires
        call_requires(decoder, (input,)),
    ensures
        call_ensures(decoder, (input,), res),
{
    decoder(input)
}

/// Decodes an array of payments. Where a recipient claims to end beyond any position, the error is an
/// overrun, unless memory for the array cannot be had.
pub fn try_alloy_decode(bytes: &[u8]) -> (res: Result<Vec<Payment>, AlkanesError>)
    ensures
        exists|outcome: Result<Seq<AbiPaymentView>, AbiErrorView>| #[trigger]
            is_decoding(bytes@, outcome) && decoder_gives(bytes@, outcome) && result_view(res)
                == decoded_payments(outcome),
        !recipients_addressable(bytes@) ==> res is Err,
{
    proof {
        assert(bytes@.len() == bytes.len());
        if !recipients_addressable(bytes@) {
            lemma_unaddressable_overruns(bytes@);
        }
    }
    let input = decoder_input(bytes);
    let outcome = ask(abi_decode, input);
    assert(decoder_gives(bytes@, decoding_view(outcome)));
    assert(is_decoding(bytes@, decoding_view(outcome)));
    payments_from_decoded(outcome)
}

/// Decoded payments in the order in which they were queued. Generated bytecode walks the payments
/// backwards.
pub open spec fn asm_order(decoded: Result<Seq<PaymentView>, ErrorView>) -> Result<
    Seq<PaymentView>,
    ErrorView,
> {
    match decoded {
        Ok(ps) => Ok(ps.reverse()),
        Err(e) => Err(e),
    }
}

/// Decoded payments as they stand, with the error marked as one of the compiled contract, which walks
/// the payments forwards.
pub open spec fn sol_order(decoded: Result<Seq<PaymentView>, ErrorView>) -> Result<
    Seq<PaymentView>,
    ErrorView,
> {
    match decoded {
        Ok(ps) => Ok(ps),
        Err(e) => Err(
            ErrorView::RpcError(
                "Failed to decode Payment[] ABI from Solidity: "@ + error_text(e),
            ),
        ),
    }
}

/// Whether `res` is what generated bytecode's reply `data` can be read as: no payments from no data,
/// and otherwise the decoded payments, in the order in which they were queued.
pub open spec fn is_asm_reading(data: Seq<u8>, res: Result<Seq<PaymentView>, ErrorView>) -> bool {
    if data.len() == 0 {
        res == Ok::<Seq<PaymentView>, ErrorView>(Seq::empty())
    } else {
        exists|outcome: Result<Seq<AbiPaymentView>, AbiErrorView>| #[trigger]
            is_decoding(data, outcome) && decoder_gives(data, outcome) && res == asm_order(decoded_payments(outcome))
    }
}

/// Whether `res` is what the compiled contract's reply `data` can be read as: no payments from no
/// data, and otherwise the decoded payments.
pub open spec fn is_sol_reading(data: Seq<u8>, res: Result<Seq<PaymentView>, ErrorView>) -> bool {
    if data.len() == 0 {
        res == Ok::<Seq<PaymentView>, ErrorView>(Seq::empty())
    } else {
        exists|outcome: Result<Seq<AbiPaymentView>, AbiErrorView>| #[trigger]
            is_decoding(data, outcome) && decoder_gives(data, outcome) && res == sol_order(decoded_payments(outcome))
    }
}

/// Puts decoded payments into the order in which they were queued.
pub fn order_asm_payments(decoded: Result<Vec<Payment>, AlkanesError>) -> (res: Result<
    Vec<Payment>,
    AlkanesError,
>)
    ensures
        result_view(res) == asm_order(result_view(decoded)),
{
    match decoded {
        Ok(payments) => {
            let res = reversed_payments(payments);
            assert(res.deep_view() =~= payments.deep_view().reverse());
            Ok(res)
        },
        Err(e) => Err(e),
    }
}

/// Leaves decoded payments as they stand, and marks an error as one of the compiled contract.
pub fn order_sol_payments(decoded: Result<Vec<Payment>, AlkanesError>) -> (res: Result<
    Vec<Payment>,
    AlkanesError,
>)
    ensures
        result_view(res) == sol_order(result_view(decoded)),
{
    match decoded {
        Ok(payments) => Ok(payments),
        Err(e) => Err(
            AlkanesError::RpcError(
                join("Failed to decode Payment[] ABI from Solidity: ", e.to_text().as_str()),
            ),
        ),
    }
}

/// Reads the payments in the reply to generated bytecode, which walks them backwards, in the order in
/// which they were queued.
pub fn parse_abi_encoded_payments(bytes: &[u8]) -> (res: Result<Vec<Payment>, AlkanesError>)
    ensures
        is_asm_reading(bytes@, result_view(res)),
{
    if bytes.len() == 0 {
        let none: Vec<Payment> = Vec::new();
        assert(none.deep_view() =~= Seq::empty());
        return Ok(none);
    }
    order_asm_payments(try_alloy_decode(bytes))
}

/// Reads the payments in the reply of the compiled contract, which walks them forwards.
pub fn parse_abi_encoded_payments_sol(bytes: &[u8]) -> (res: Result<Vec<Payment>, AlkanesError>)
    ensures
        is_sol_reading(bytes@, result_view(res)),
{
    if bytes.len() == 0 {
        let none: Vec<Payment> = Vec::new();
        assert(none.deep_view() =~= Seq::empty());
        return Ok(none);
    }
    order_sol_payments(try_alloy_decode(bytes))
}

/// A recipient beyond any position lies beyond the end of the data.
pub proof fn lemma_unaddressable_overruns(data: Seq<u8>)
    requires
        data.len() <= usize::MAX,
        !recipients_addressable(data),
    ensures
        abi_payments(data) is None,
{
    let payments = follow(data, 0)->0.skip(32);
    let count = payments_count(data)->0;
    let i = choose|i: nat|
        i < count && #[trigger] recipient_size(payments, i) is Some && recipient_size(payments, i)->0
            + 32 > usize::MAX;
    assert(payment_at(payments, i) is None);
}

/// Where a recipient claims to end beyond any position, the part that the decoder is given claims as many
/// payments, and holds none of them.
proof fn lemma_decoder_part(data: Seq<u8>)
    requires
        data.len() <= usize::MAX,
        !recipients_addressable(data),
    ensures
        pointer_at(data, 0)->0 + 32 <= data.len(),
        recipients_addressable(decoder_part(data)),
        forall|outcome: Result<Seq<AbiPaymentView>, AbiErrorView>| #[trigger]
            is_decoding(decoder_part(data), outcome) ==> is_decoding(data, outcome),
{
    lemma_unaddressable_overruns(data);
    let offset = pointer_at(data, 0)->0;
    let part = decoder_part(data);
    let array = part.skip(offset as int);
    let payments = array.skip(32);
    assert(part.subrange(0, 32) =~= data.subrange(0, 32));
    assert(array.subrange(0, 32) =~= data.skip(offset as int).subrange(0, 32));
    assert(payments_count(part) == payments_count(data));
    assert(payments.len() == 0);
    assert(forall|i: nat| #[trigger] recipient_size(payments, i) is None);
    assert(payment_at(payments, 0) is None);
    assert(abi_payments(part) is None);
}

} // verus!
