//! What holds of the scan for pending unwraps as a whole.
#[allow(unused_imports)]
use crate::address::{address_reading, Network};
#[allow(unused_imports)]
use crate::error::ErrorView;
#[allow(unused_imports)]
use crate::json::Json;
#[allow(unused_imports)]
use crate::payment::{unwrap_of, unwraps_of, PaymentView, TxidOrder, UnwrapView};
#[allow(unused_imports)]
use crate::payment_laws::{law_unwraps_show_all_payments, shows};
#[allow(unused_imports)]
use crate::scan::{
    cutoff_of, is_too_old, picked, scan_step, ScanNextView, ScanReplyView, ScanStageView, ScanView,
};
#[allow(unused_imports)]
use crate::utxo::oldest_dust_reading;
use vstd::prelude::*;

verus! {

/// What a scan can learn: the signer's output script, the signer's outputs, and the payments.
pub struct ScanWorld {
    pub script: Seq<u8>,
    pub utxos: Json,
    pub payments: Seq<PaymentView>,
}

/// The true reply to what a stage waits for.
pub open spec fn true_reply(world: ScanWorld, stage: ScanStageView) -> ScanReplyView {
    match stage {
        ScanStageView::PaymentsLength => ScanReplyView::PaymentsLength(world.payments.len() as u64),
        ScanStageView::SignerScript { .. } => ScanReplyView::SignerScript(world.script),
        ScanStageView::AddressUtxos { .. } => ScanReplyView::AddressUtxos(world.utxos),
        ScanStageView::Payment { index, .. } => ScanReplyView::Payment(
            world.payments[index as int],
        ),
    }
}

/// How many replies a stage is from the end of the scan, at most.
pub open spec fn replies_left(stage: ScanStageView) -> nat {
    match stage {
        ScanStageView::PaymentsLength => u64::MAX as nat + 4,
        ScanStageView::SignerScript { last } => last as nat + 3,
        ScanStageView::AddressUtxos { last, .. } => last as nat + 2,
        ScanStageView::Payment { index, .. } => index as nat + 1,
    }
}

/// What a scan ends with when every reply is true.
pub open spec fn scan_run(q: ScanView, world: ScanWorld) -> Result<Seq<UnwrapView>, ErrorView>
    decreases replies_left(q.stage),
{
    match scan_step(q, true_reply(world, q.stage)) {
        Ok(ScanNextView::Ask(next)) => scan_run(next, world),
        Ok(ScanNextView::Done(unwraps)) => Ok(unwraps),
        Err(e) => Err(e),
    }
}

/// A scan among payments ends with what it has found and what is picked from the payments up to the
/// one that it waits for.
proof fn lemma_scan_payments(
    q: ScanView,
    world: ScanWorld,
    index: u64,
    oldest: Option<u64>,
    found: Seq<UnwrapView>,
)
    requires
        q.stage == (ScanStageView::Payment { index, oldest, found }),
        index < world.payments.len(),
    ensures
        scan_run(q, world) == Ok::<Seq<UnwrapView>, ErrorView>(
            found + unwraps_of(
                picked(world.payments.take(index + 1), q.cutoff_height, oldest),
                TxidOrder::Internal,
                q.network,
            ),
        ),
    decreases index,
{
    let upto = world.payments.take(index + 1);
    let p = world.payments[index as int];
    let rest = upto.drop_last();
    assert(upto.last() == p);
    assert(rest =~= world.payments.take(index as int));
    let order = TxidOrder::Internal;
    let now_found = if p.height > q.cutoff_height {
        found
    } else {
        found.push(unwrap_of(p, order, q.network))
    };
    let below = picked(rest, q.cutoff_height, oldest);
    if p.height <= q.cutoff_height && is_too_old(p, oldest) {
        assert(found + unwraps_of(Seq::empty(), order, q.network) =~= found);
    } else {
        let all = picked(upto, q.cutoff_height, oldest);
        assert(found + unwraps_of(all, order, q.network) =~= now_found + unwraps_of(
            below,
            order,
            q.network,
        ));
        if index == 0 {
            assert(now_found + unwraps_of(below, order, q.network) =~= now_found);
        } else {
            let stage = ScanStageView::Payment {
                index: (index - 1) as u64,
                oldest,
                found: now_found,
            };
            let next = ScanView { stage, ..q };
            lemma_scan_payments(next, world, (index - 1) as u64, oldest, now_found);
        }
    }
}

/// A scan whose replies are true ends with the unwraps of the payments that are picked below the
/// cutoff and above the signer's oldest dust, the newest first. Without payments it ends with
/// nothing, whatever the signer's script and outputs are; otherwise it fails where the signer's script
/// has no address or the outputs cannot be read.
pub proof fn law_scan_finds_picked_payments(q: ScanView, world: ScanWorld)
    requires
        q.stage is PaymentsLength,
        world.payments.len() <= u64::MAX,
    ensures
        scan_run(q, world) == (if world.payments.len() == 0 {
            Ok::<Seq<UnwrapView>, ErrorView>(Seq::empty())
        } else {
            match address_reading(world.script, q.network) {
                Ok(_) => match oldest_dust_reading(world.utxos) {
                    Ok(oldest) => Ok(
                        unwraps_of(
                            picked(world.payments, q.cutoff_height, oldest),
                            TxidOrder::Internal,
                            q.network,
                        ),
                    ),
                    Err(e) => Err(e),
                },
                Err(e) => Err(e),
            }
        }),
{
    if world.payments.len() > 0 {
        let last = (world.payments.len() - 1) as u64;
        let signer = ScanView { stage: ScanStageView::SignerScript { last }, ..q };
        assert(scan_run(q, world) == scan_run(signer, world));
        if let Ok(address) = address_reading(world.script, q.network) {
            let utxos = ScanView { stage: ScanStageView::AddressUtxos { last, address }, ..q };
            assert(scan_run(signer, world) == scan_run(utxos, world));
            if let Ok(oldest) = oldest_dust_reading(world.utxos) {
                let found = Seq::<UnwrapView>::empty();
                let stage = ScanStageView::Payment { index: last, oldest, found };
                let first = ScanView { stage, ..q };
                assert(scan_run(utxos, world) == scan_run(first, world));
                lemma_scan_payments(first, world, last, oldest, found);
                assert(world.payments.take(last + 1) =~= world.payments);
                let unwraps = unwraps_of(
                    picked(world.payments, q.cutoff_height, oldest),
                    TxidOrder::Internal,
                    q.network,
                );
                assert(found + unwraps =~= unwraps);
            }
        }
    }
}

/// Every payment that is picked stands at or below the cutoff, is not too old, and is one of the
/// payments.
pub proof fn law_picked_payments_are_in_range(
    ps: Seq<PaymentView>,
    cutoff: u64,
    oldest: Option<u64>,
    i: int,
)
    requires
        0 <= i < picked(ps, cutoff, oldest).len(),
    ensures
        picked(ps, cutoff, oldest)[i].height <= cutoff,
        !is_too_old(picked(ps, cutoff, oldest)[i], oldest),
        ps.contains(picked(ps, cutoff, oldest)[i]),
    decreases ps.len(),
{
    if ps.len() > 0 {
        let rest = ps.drop_last();
        let p = ps.last();
        let found = picked(ps, cutoff, oldest)[i];
        assert(ps[ps.len() - 1] == p);
        if p.height > cutoff {
            law_picked_payments_are_in_range(rest, cutoff, oldest, i);
        } else if i > 0 {
            law_picked_payments_are_in_range(rest, cutoff, oldest, i - 1);
        }
        if found != p {
            let j = choose|j: int| 0 <= j < rest.len() && rest[j] == found;
            assert(ps[j] == found);
        }
    }
}

/// Every payment that is picked has the confirmations that were required, on a chain that has so many
/// blocks.
pub proof fn law_picked_payments_are_confirmed(
    ps: Seq<PaymentView>,
    current_height: u64,
    confirmations_required: u64,
    oldest: Option<u64>,
    i: int,
)
    requires
        current_height >= confirmations_required,
        0 <= i < picked(ps, cutoff_of(current_height, confirmations_required), oldest).len(),
    ensures
        current_height - picked(
            ps,
            cutoff_of(current_height, confirmations_required),
            oldest,
        )[i].height >= confirmations_required,
{
    law_picked_payments_are_in_range(
        ps,
        cutoff_of(current_height, confirmations_required),
        oldest,
        i,
    );
}

/// Where the oldest spendable height lies above the cutoff, nothing is picked.
proof fn lemma_nothing_below_oldest(ps: Seq<PaymentView>, cutoff: u64, oldest: u64)
    requires
        cutoff < oldest,
    ensures
        picked(ps, cutoff, Some(oldest)) == Seq::<PaymentView>::empty(),
    decreases ps.len(),
{
    if ps.len() > 0 {
        lemma_nothing_below_oldest(ps.drop_last(), cutoff, oldest);
    }
}

/// A lower cutoff picks exactly those of the payments that a higher one picks which stand at or below it,
/// in the same order.
pub proof fn law_lower_cutoff_picks_no_more(
    ps: Seq<PaymentView>,
    lower: u64,
    higher: u64,
    oldest: Option<u64>,
)
    requires
        lower <= higher,
    ensures
        picked(ps, lower, oldest) == picked(ps, higher, oldest).filter(
            |p: PaymentView| p.height <= lower,
        ),
    decreases ps.len(),
{
    reveal(Seq::filter);
    let kept = |p: PaymentView| p.height <= lower;
    assert(Seq::<PaymentView>::empty().filter(kept) =~= Seq::empty());
    if ps.len() > 0 {
        let rest = ps.drop_last();
        let p = ps.last();
        law_lower_cutoff_picks_no_more(rest, lower, higher, oldest);
        if p.height <= higher {
            if is_too_old(p, oldest) {
                if p.height > lower {
                    lemma_nothing_below_oldest(rest, lower, oldest->0);
                }
            } else {
                let below = picked(rest, higher, oldest);
                Seq::filter_distributes_over_add(seq![p], below, kept);
                assert(seq![p].drop_last() =~= Seq::empty());
                if p.height <= lower {
                    assert(seq![p].filter(kept) =~= seq![p]);
                } else {
                    assert(seq![p].filter(kept) =~= Seq::empty());
                    assert(Seq::<PaymentView>::empty() + below.filter(kept) =~= below.filter(kept));
                }
            }
        }
    }
}

/// To require more confirmations never adds a payment: what is picked then is what is picked with fewer,
/// without the payments above the lower cutoff.
pub proof fn law_more_confirmations_pick_no_more(
    ps: Seq<PaymentView>,
    current_height: u64,
    fewer: u64,
    more: u64,
    oldest: Option<u64>,
)
    requires
        fewer <= more,
    ensures
        picked(ps, cutoff_of(current_height, more), oldest) == picked(
            ps,
            cutoff_of(current_height, fewer),
            oldest,
        ).filter(|p: PaymentView| p.height <= cutoff_of(current_height, more)),
{
    law_lower_cutoff_picks_no_more(
        ps,
        cutoff_of(current_height, more),
        cutoff_of(current_height, fewer),
        oldest,
    );
}

/// Whether a payment ends the scan.
pub open spec fn ends_scan(p: PaymentView, cutoff: u64, oldest: Option<u64>) -> bool {
    p.height <= cutoff && is_too_old(p, oldest)
}

/// Whether the scan comes to a halt before index `start`: no payment from there on ends it, and the
/// one before does, unless there is none.
pub open spec fn is_scan_start(
    ps: Seq<PaymentView>,
    cutoff: u64,
    oldest: Option<u64>,
    start: int,
) -> bool {
    &&& 0 <= start <= ps.len()
    &&& forall|i: int| start <= i < ps.len() ==> !ends_scan(#[trigger] ps[i], cutoff, oldest)
    &&& start > 0 ==> ends_scan(ps[start - 1], cutoff, oldest)
}

/// Every scan comes to a halt somewhere, be it at the first payment.
pub proof fn law_scan_comes_to_a_halt(ps: Seq<PaymentView>, cutoff: u64, oldest: Option<u64>)
    ensures
        exists|start: int| is_scan_start(ps, cutoff, oldest, start),
    decreases ps.len(),
{
    if ps.len() == 0 {
        assert(is_scan_start(ps, cutoff, oldest, 0));
    } else if ends_scan(ps.last(), cutoff, oldest) {
        assert(is_scan_start(ps, cutoff, oldest, ps.len() as int));
    } else {
        let rest = ps.drop_last();
        law_scan_comes_to_a_halt(rest, cutoff, oldest);
        let start = choose|start: int| is_scan_start(rest, cutoff, oldest, start);
        assert(forall|i: int| 0 <= i < rest.len() ==> rest[i] == #[trigger] ps[i]);
        assert(is_scan_start(ps, cutoff, oldest, start));
    }
}

/// From where the scan comes to a halt, all payments at or below the cutoff are picked, the last one
/// first: none is left out, and none comes twice.
pub proof fn law_scan_leaves_nothing_out(
    ps: Seq<PaymentView>,
    cutoff: u64,
    oldest: Option<u64>,
    start: int,
)
    requires
        is_scan_start(ps, cutoff, oldest, start),
    ensures
        picked(ps, cutoff, oldest) == ps.skip(start).filter(
            |p: PaymentView| p.height <= cutoff,
        ).reverse(),
    decreases ps.len(),
{
    reveal(Seq::filter);
    let confirmed = |p: PaymentView| p.height <= cutoff;
    if start == ps.len() {
        assert(ps.skip(start) =~= Seq::empty());
        assert(Seq::<PaymentView>::empty().filter(confirmed) =~= Seq::empty());
        if ps.len() > 0 {
            assert(ps[start - 1] == ps.last());
        }
    } else {
        let rest = ps.drop_last();
        let p = ps.last();
        assert(forall|i: int| 0 <= i < rest.len() ==> rest[i] == #[trigger] ps[i]);
        assert(ps[ps.len() - 1] == p);
        law_scan_leaves_nothing_out(rest, cutoff, oldest, start);
        assert(ps.skip(start).drop_last() =~= rest.skip(start));
        let below = rest.skip(start).filter(confirmed);
        if p.height <= cutoff {
            assert(below.push(p).reverse() =~= seq![p] + below.reverse());
        }
    }
}

/// Whether the payments were queued in the order of their heights.
pub open spec fn is_chronological(ps: Seq<PaymentView>) -> bool {
    forall|i: int, j: int| 0 <= i <= j < ps.len() ==> ps[i].height <= ps[j].height
}

/// Where the payments were queued in the order of their heights, the scan picks exactly those from the
/// oldest spendable height up to the cutoff, the last one first.
pub proof fn law_scan_of_chronological_payments(
    ps: Seq<PaymentView>,
    cutoff: u64,
    oldest: Option<u64>,
)
    requires
        is_chronological(ps),
    ensures
        picked(ps, cutoff, oldest) == ps.filter(
            |p: PaymentView| p.height <= cutoff && !is_too_old(p, oldest),
        ).reverse(),
    decreases ps.len(),
{
    reveal(Seq::filter);
    let in_range = |p: PaymentView| p.height <= cutoff && !is_too_old(p, oldest);
    if ps.len() == 0 {
        assert(ps.filter(in_range).reverse() =~= Seq::empty());
    } else {
        let rest = ps.drop_last();
        let p = ps.last();
        assert(ps[ps.len() - 1] == p);
        assert(is_chronological(rest)) by {
            assert(forall|i: int| 0 <= i < rest.len() ==> rest[i] == #[trigger] ps[i]);
        }
        law_scan_of_chronological_payments(rest, cutoff, oldest);
        let below = rest.filter(in_range);
        if p.height <= cutoff {
            if is_too_old(p, oldest) {
                assert forall|i: int| 0 <= i < ps.len() implies !in_range(#[trigger] ps[i]) by {
                    assert(ps[i].height <= ps[ps.len() - 1].height);
                }
                ps.lemma_all_neg_filter_empty(in_range);
                assert(ps.filter(in_range).reverse() =~= Seq::empty());
            } else {
                assert(below.push(p).reverse() =~= seq![p] + below.reverse());
            }
        }
    }
}

/// Without a spendable output nothing is too old: the scan picks what it picks for an oldest output at
/// height zero, which is what a program next to the contract is given.
pub proof fn law_no_oldest_output_means_height_zero(ps: Seq<PaymentView>, cutoff: u64)
    ensures
        picked(ps, cutoff, None) == picked(ps, cutoff, Some(0)),
    decreases ps.len(),
{
    if ps.len() > 0 {
        law_no_oldest_output_means_height_zero(ps.drop_last(), cutoff);
    }
}

/// Whether a walk back from the last payment halts at `start` and meets the payments at the indices `at`.
///
/// The payment before `start`, where there is one, stands at or below the cutoff and below the oldest height.
/// From `start` on, each payment stands above the cutoff or not below the oldest height. Met are all those
/// from `start` on that stand at or below the cutoff, the last one first.
pub open spec fn is_walk(
    ps: Seq<PaymentView>,
    cutoff: u64,
    oldest: Option<u64>,
    start: int,
    at: Seq<int>,
) -> bool {
    &&& 0 <= start <= ps.len()
    &&& start > 0 ==> ps[start - 1].height <= cutoff && (oldest matches Some(height) && ps[start
        - 1].height < height)
    &&& forall|i: int|
        start <= i < ps.len() ==> (#[trigger] ps[i]).height > cutoff || (oldest matches Some(height)
            ==> ps[i].height >= height)
    &&& forall|j: int, k: int| 0 <= j < k < at.len() ==> #[trigger] at[j] > #[trigger] at[k]
    &&& forall|j: int|
        0 <= j < at.len() ==> start <= #[trigger] at[j] < ps.len() && ps[at[j]].height <= cutoff
    &&& forall|i: int|
        start <= i < ps.len() && (#[trigger] ps[i]).height <= cutoff ==> at.contains(i)
}

/// Whether unwraps show the payments at the indices `at`, one each and in that order, with transaction ids
/// backwards.
pub open spec fn show_in_order(
    unwraps: Seq<UnwrapView>,
    ps: Seq<PaymentView>,
    at: Seq<int>,
    network: Network,
) -> bool {
    &&& unwraps.len() == at.len()
    &&& forall|j: int|
        0 <= j < at.len() ==> shows(#[trigger] unwraps[j], ps[at[j]], true, network)
}

/// Picked payments are met on a walk.
proof fn lemma_picked_on_a_walk(ps: Seq<PaymentView>, cutoff: u64, oldest: Option<u64>) -> (res: (
    int,
    Seq<int>,
))
    ensures
        is_walk(ps, cutoff, oldest, res.0, res.1),
        picked(ps, cutoff, oldest).len() == res.1.len(),
        forall|j: int|
            0 <= j < res.1.len() ==> #[trigger] picked(ps, cutoff, oldest)[j] == ps[res.1[j]],
    decreases ps.len(),
{
    if ps.len() == 0 {
        (0, Seq::empty())
    } else {
        let rest = ps.drop_last();
        let p = ps.last();
        let n = ps.len() - 1;
        let (start, below) = lemma_picked_on_a_walk(rest, cutoff, oldest);
        assert(forall|i: int| 0 <= i < n ==> rest[i] == #[trigger] ps[i]);
        assert(ps[n] == p);
        if p.height > cutoff {
            assert forall|i: int|
                start <= i < ps.len() && (#[trigger] ps[i]).height <= cutoff implies below.contains(
                i,
            ) by {
                assert(rest[i] == ps[i]);
            }
            assert forall|i: int| start <= i < ps.len() implies (#[trigger] ps[i]).height > cutoff || (
            oldest matches Some(height) ==> ps[i].height >= height) by {
                if i < n {
                    assert(rest[i] == ps[i]);
                }
            }
            assert forall|j: int| 0 <= j < below.len() implies start <= #[trigger] below[j] < ps.len()
                && ps[below[j]].height <= cutoff by {
                assert(rest[below[j]] == ps[below[j]]);
            }
            (start, below)
        } else if is_too_old(p, oldest) {
            (n + 1, Seq::empty())
        } else {
            let at = seq![n] + below;
            assert(at[0] == n);
            assert(forall|j: int| 0 < j < at.len() ==> #[trigger] at[j] == below[j - 1]);
            assert forall|i: int|
                start <= i < ps.len() && (#[trigger] ps[i]).height <= cutoff implies at.contains(
                i,
            ) by {
                if i < n {
                    assert(rest[i] == ps[i]);
                    assert(below.contains(i));
                    let j = choose|j: int| 0 <= j < below.len() && below[j] == i;
                    assert(at[j + 1] == i);
                } else {
                    assert(at[0] == i);
                }
            }
            assert forall|i: int| start <= i < ps.len() implies (#[trigger] ps[i]).height > cutoff || (
            oldest matches Some(height) ==> ps[i].height >= height) by {
                if i < n {
                    assert(rest[i] == ps[i]);
                }
            }
            assert forall|j: int| 0 <= j < at.len() implies start <= #[trigger] at[j] < ps.len()
                && ps[at[j]].height <= cutoff by {
                if j > 0 {
                    let k = below[j - 1];
                    assert(rest[k] == ps[k]);
                }
            }
            assert forall|j: int| 0 <= j < at.len() implies #[trigger] picked(ps, cutoff, oldest)[j]
                == ps[at[j]] by {
                if j > 0 {
                    let k = below[j - 1];
                    assert(rest[k] == ps[k]);
                    assert(picked(rest, cutoff, oldest)[j - 1] == rest[k]);
                }
            }
            (start, at)
        }
    }
}

/// A scan whose replies are true finds the unwraps of the payments that it meets on its walk back, each shown
/// whole: all payments at or below the cutoff, the last one first, until one of them stands below the height
/// of the signer's oldest dust.
pub proof fn law_scan_walks_back_until_too_old(
    q: ScanView,
    world: ScanWorld,
    address: Seq<char>,
    oldest: Option<u64>,
)
    requires
        q.stage is PaymentsLength,
        world.payments.len() <= u64::MAX,
        address_reading(world.script, q.network) == Ok::<Seq<char>, ErrorView>(address),
        oldest_dust_reading(world.utxos) == Ok::<Option<u64>, ErrorView>(oldest),
    ensures
        scan_run(q, world) matches Ok(unwraps) && exists|start: int, at: Seq<int>| #[trigger]
            is_walk(world.payments, q.cutoff_height, oldest, start, at) && show_in_order(
                unwraps,
                world.payments,
                at,
                q.network,
            ),
{
    let ps = world.payments;
    law_scan_finds_picked_payments(q, world);
    let found = picked(ps, q.cutoff_height, oldest);
    let (start, at) = lemma_picked_on_a_walk(ps, q.cutoff_height, oldest);
    law_unwraps_show_all_payments(found, q.network);
    let unwraps = unwraps_of(found, TxidOrder::Internal, q.network);
    assert forall|j: int| 0 <= j < at.len() implies shows(
        #[trigger] unwraps[j],
        ps[at[j]],
        true,
        q.network,
    ) by {
        assert(found[j] == ps[at[j]]);
    }
    if ps.len() == 0 {
        assert(unwraps =~= Seq::empty());
    }
    assert(show_in_order(unwraps, ps, at, q.network));
}

/// Where payments were queued in the order of their heights, a scan whose replies are true finds exactly the
/// unwraps of those at or below the cutoff and, where the signer's oldest dust has a height, at or above that
/// height, the last one first, each shown whole.
pub proof fn law_scan_finds_all_between_dust_and_cutoff(
    q: ScanView,
    world: ScanWorld,
    address: Seq<char>,
    oldest: Option<u64>,
)
    requires
        q.stage is PaymentsLength,
        world.payments.len() <= u64::MAX,
        address_reading(world.script, q.network) == Ok::<Seq<char>, ErrorView>(address),
        oldest_dust_reading(world.utxos) == Ok::<Option<u64>, ErrorView>(oldest),
        forall|i: int, j: int|
            0 <= i <= j < world.payments.len() ==> world.payments[i].height
                <= world.payments[j].height,
    ensures
        scan_run(q, world) matches Ok(unwraps) && exists|at: Seq<int>|
            {
                &&& #[trigger] show_in_order(unwraps, world.payments, at, q.network)
                &&& forall|j: int, k: int|
                    0 <= j < k < at.len() ==> #[trigger] at[j] > #[trigger] at[k]
                &&& forall|i: int|
                    at.contains(i) <==> 0 <= i < world.payments.len() && (
                    #[trigger] world.payments[i]).height <= q.cutoff_height && (oldest matches Some(
                        height,
                    ) ==> world.payments[i].height >= height)
            },
{
    let ps = world.payments;
    law_scan_walks_back_until_too_old(q, world, address, oldest);
    let unwraps = scan_run(q, world)->Ok_0;
    let (start, at) = choose|start: int, at: Seq<int>| #[trigger]
        is_walk(ps, q.cutoff_height, oldest, start, at) && show_in_order(
            unwraps,
            ps,
            at,
            q.network,
        );
    assert forall|i: int|
        at.contains(i) <==> 0 <= i < ps.len() && (#[trigger] ps[i]).height <= q.cutoff_height && (
        oldest matches Some(height) ==> ps[i].height >= height) by {
        if at.contains(i) {
            let j = choose|j: int| 0 <= j < at.len() && at[j] == i;
            assert(start <= at[j]);
        }
        if 0 <= i < start {
            assert(ps[i].height <= ps[start - 1].height);
        }
    }
    assert(show_in_order(unwraps, ps, at, q.network));
}

/// A scan without payments finds nothing. With payments it fails where the signer's script has no address,
/// and otherwise where the signer's outputs cannot be read, with that error.
pub proof fn law_scan_fails_with_signer_or_outputs(q: ScanView, world: ScanWorld, e: ErrorView)
    requires
        q.stage is PaymentsLength,
        world.payments.len() <= u64::MAX,
    ensures
        world.payments.len() == 0 ==> scan_run(q, world) == Ok::<Seq<UnwrapView>, ErrorView>(
            Seq::empty(),
        ),
        world.payments.len() > 0 && address_reading(world.script, q.network) == Err::<
            Seq<char>,
            ErrorView,
        >(e) ==> scan_run(q, world) == Err::<Seq<UnwrapView>, ErrorView>(e),
        world.payments.len() > 0 && address_reading(world.script, q.network) is Ok
            && oldest_dust_reading(world.utxos) == Err::<Option<u64>, ErrorView>(e) ==> scan_run(
            q,
            world,
        ) == Err::<Seq<UnwrapView>, ErrorView>(e),
{
    law_scan_finds_picked_payments(q, world);
}

/// A reply of a kind that was not asked for leaves the scan as it is, and no reply changes where and for which
/// network and cutoff it asks.
pub proof fn law_scan_keeps_what_it_was_begun_with(q: ScanView, reply: ScanReplyView)
    ensures
        !(q.stage is PaymentsLength && reply is PaymentsLength) && !(q.stage is SignerScript
            && reply is SignerScript) && !(q.stage is AddressUtxos && reply is AddressUtxos) && !(
        q.stage is Payment && reply is Payment) ==> scan_step(q, reply) == Ok::<
            ScanNextView,
            ErrorView,
        >(ScanNextView::Ask(q)),
        scan_step(q, reply) matches Ok(ScanNextView::Ask(next)) ==> next.rpc_url == q.rpc_url
            && next.contract == q.contract && next.network == q.network && next.cutoff_height
            == q.cutoff_height,
        scan_step(q, reply) matches Ok(ScanNextView::Ask(next)) ==> (
        next.stage matches ScanStageView::AddressUtxos { address, .. } ==> q.stage is AddressUtxos || (
        reply matches ScanReplyView::SignerScript(script) && address_reading(script, q.network)
            == Ok::<Seq<char>, ErrorView>(address))),
{
}

} // verus!
