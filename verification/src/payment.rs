//! Payments recorded by the FrBTC contract, and the unwraps that they stand for.
use crate::address::{recipient_address, Network};
use crate::error::AlkanesError;
use crate::hexadecimal::hex_encode;
use vstd::prelude::*;

#[allow(unused_imports)]
use crate::address::script_address;
#[allow(unused_imports)]
use crate::hexadecimal::hex_text;

verus! {

/// A payment that the contract has queued.
#[derive(Debug, Clone, PartialEq, Eq)]
pub struct Payment {
    /// The transaction that is to be spent.
    pub txid: [u8; 32],
    /// The output of that transaction.
    pub vout: u32,
    /// The amount in satoshi.
    pub value: u64,
    /// The output script of the one who is paid.
    pub recipient: Vec<u8>,
    /// The block in which the payment was queued.
    pub height: u64,
}

/// A [`Payment`] with its byte strings as sequences.
pub struct PaymentView {
    pub txid: Seq<u8>,
    pub vout: u32,
    pub value: u64,
    pub recipient: Seq<u8>,
    pub height: u64,
}

impl View for Payment {
    type V = PaymentView;

    open spec fn view(&self) -> PaymentView {
        PaymentView {
            txid: self.txid@,
            vout: self.vout,
            value: self.value,
            recipient: self.recipient@,
            height: self.height,
        }
    }
}

impl DeepView for Payment {
    type V = PaymentView;

    open spec fn deep_view(&self) -> PaymentView {
        self@
    }
}

/// An unwrap that waits to be paid out.
#[derive(Debug, Clone, PartialEq, Eq)]
pub struct PendingUnwrap {
    /// The transaction in hexadecimal.
    pub txid: String,
    /// The output of that transaction.
    pub vout: u32,
    /// The amount in satoshi.
    pub amount: u64,
    /// The address that is paid, where the recipient's script has one.
    pub address: Option<String>,
    /// Whether it has been paid out. BRC20-Prog does not track this, so it is never set.
    pub fulfilled: bool,
}

/// A [`PendingUnwrap`] with its texts as sequences of characters.
pub struct UnwrapView {
    pub txid: Seq<char>,
    pub vout: u32,
    pub amount: u64,
    pub address: Option<Seq<char>>,
    pub fulfilled: bool,
}

impl View for PendingUnwrap {
    type V = UnwrapView;

    open spec fn view(&self) -> UnwrapView {
        UnwrapView {
            txid: self.txid@,
            vout: self.vout,
            amount: self.amount,
            address: match self.address {
                Some(address) => Some(address@),
                None => None,
            },
            fulfilled: self.fulfilled,
        }
    }
}

impl DeepView for PendingUnwrap {
    type V = UnwrapView;

    open spec fn deep_view(&self) -> UnwrapView {
        self@
    }
}

/// The order in which the bytes of a payment's transaction id stand.
#[derive(Debug, Clone, Copy, PartialEq, Eq, Structural)]
pub enum TxidOrder {
    /// As the network hashes them: a reader is shown them backwards.
    Internal,
    /// As a reader is shown them.
    Display,
}

/// The transaction id as a reader is shown it.
pub open spec fn shown_txid(txid: Seq<u8>, order: TxidOrder) -> Seq<char> {
    match order {
        TxidOrder::Internal => hex_text(txid.reverse()),
        TxidOrder::Display => hex_text(txid),
    }
}

/// The unwrap that a payment stands for, given the recipient's address.
pub open spec fn unwrap_to(p: PaymentView, order: TxidOrder, address: Option<Seq<char>>) -> UnwrapView {
    UnwrapView {
        txid: shown_txid(p.txid, order),
        vout: p.vout,
        amount: p.value,
        address,
        fulfilled: false,
    }
}

/// The unwrap that a payment stands for on a network.
pub open spec fn unwrap_of(p: PaymentView, order: TxidOrder, network: Network) -> UnwrapView {
    unwrap_to(p, order, script_address(p.recipient, network))
}

/// The unwraps that payments stand for, in the same order.
pub open spec fn unwraps_of(ps: Seq<PaymentView>, order: TxidOrder, network: Network) -> Seq<
    UnwrapView,
> {
    ps.map_values(|p: PaymentView| unwrap_of(p, order, network))
}

/// The bytes of a slice, last one first.
fn reversed(data: &[u8]) -> (res: Vec<u8>)
    ensures
        res@ == data@.reverse(),
{
    let mut res: Vec<u8> = Vec::new();
    let mut i: usize = data.len();
    while i > 0
        invariant
            i <= data@.len(),
            res@ == data@.reverse().take(data@.len() - i),
        decreases i,
    {
        i = i - 1;
        res.push(data[i]);
        assert(res@ =~= data@.reverse().take(data@.len() - i));
    }
    assert(data@.reverse().take(data@.len() as int) =~= data@.reverse());
    res
}

/// Makes the unwrap that a payment stands for, once the recipient's address is known.
pub fn pending_unwrap_to(payment: &Payment, order: TxidOrder, address: Option<String>) -> (res:
    PendingUnwrap)
    ensures
        res@ == unwrap_to(
            payment@,
            order,
            match address {
                Some(text) => Some(text@),
                None => None,
            },
        ),
{
    let txid = match order {
        TxidOrder::Internal => hex_encode(reversed(&payment.txid).as_slice()),
        TxidOrder::Display => hex_encode(&payment.txid),
    };
    PendingUnwrap { txid, vout: payment.vout, amount: payment.value, address, fulfilled: false }
}

/// Makes the unwrap that a payment stands for.
pub fn pending_unwrap_of(payment: &Payment, order: TxidOrder, network: Network) -> (res:
    PendingUnwrap)
    ensures
        res@ == unwrap_of(payment@, order, network),
{
    let address = recipient_address(payment.recipient.as_slice(), network);
    pending_unwrap_to(payment, order, address)
}

/// Makes the unwrap that a payment read from the contract stands for. The contract keeps transaction
/// ids in internal byte order, and a reader is shown them backwards.
pub fn payment_to_pending_unwrap(payment: Payment, network: Network) -> (res: Result<
    PendingUnwrap,
    AlkanesError,
>)
    ensures
        res matches Ok(unwrap) && unwrap@ == unwrap_of(payment@, TxidOrder::Internal, network),
{
    Ok(pending_unwrap_of(&payment, TxidOrder::Internal, network))
}

/// Makes the unwraps that payments stand for, in the same order.
pub fn pending_unwraps_of(payments: &Vec<Payment>, order: TxidOrder, network: Network) -> (res: Vec<
    PendingUnwrap,
>)
    ensures
        res.deep_view() == unwraps_of(payments.deep_view(), order, network),
{
    let mut res: Vec<PendingUnwrap> = Vec::new();
    let mut i: usize = 0;
    while i < payments.len()
        invariant
            i <= payments.len(),
            res.len() == i,
            forall|j: int|
                0 <= j < i ==> (#[trigger] res@[j])@ == unwrap_of(payments@[j]@, order, network),
        decreases payments.len() - i,
    {
        res.push(pending_unwrap_of(&payments[i], order, network));
        i = i + 1;
    }
    assert(res.deep_view() =~= unwraps_of(payments.deep_view(), order, network));
    res
}

} // verus!
