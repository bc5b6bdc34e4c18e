//! The unspent outputs of the signer, as an Esplora server lists them.
use crate::error::AlkanesError;
use crate::json::Json;
use vstd::prelude::*;

#[allow(unused_imports)]
use crate::error::{result_view, ErrorView};

verus! {

/// The largest value of an output that counts as dust, in satoshi.
pub const DUST_LIMIT: u64 = 546;

/// The value of an output.
pub open spec fn utxo_value(utxo: Json) -> Option<u64> {
    utxo.number_member("value"@)
}

/// The block that holds an output, where its status tells.
pub open spec fn utxo_height(utxo: Json) -> Option<u64> {
    match utxo.member("status"@) {
        Some(status) => status.number_member("block_height"@),
        None => None,
    }
}

/// Whether an output is dust in the block at `height`.
pub open spec fn is_dust_at(utxo: Json, height: u64) -> bool {
    &&& utxo_value(utxo) matches Some(value)
    &&& value <= DUST_LIMIT
    &&& utxo_height(utxo) == Some(height)
}

/// Whether `oldest` is the lowest height at which one of the outputs is dust, or `None` where there
/// is no such output.
pub open spec fn is_oldest_dust(utxos: Seq<Json>, oldest: Option<u64>) -> bool {
    match oldest {
        Some(height) => {
            &&& exists|i: int| 0 <= i < utxos.len() && is_dust_at(#[trigger] utxos[i], height)
            &&& forall|i: int, h: u64|
                0 <= i < utxos.len() && #[trigger] is_dust_at(utxos[i], h) ==> height <= h
        },
        None => forall|i: int, h: u64|
            0 <= i < utxos.len() ==> !#[trigger] is_dust_at(utxos[i], h),
    }
}

/// The lowest height at which one of the outputs is dust.
pub open spec fn oldest_dust(utxos: Seq<Json>) -> Option<u64> {
    choose|oldest: Option<u64>| is_oldest_dust(utxos, oldest)
}

/// Whether one of the outputs has no value.
pub open spec fn lacks_value(utxos: Seq<Json>) -> bool {
    exists|i: int| 0 <= i < utxos.len() && utxo_value(#[trigger] utxos[i]) is None
}

/// What the list of outputs tells: the height of the oldest dust, or why it cannot be read.
pub open spec fn oldest_dust_reading(list: Json) -> Result<Option<u64>, ErrorView> {
    match list {
        Json::Array(utxos) => if lacks_value(utxos@) {
            Err(ErrorView::RpcError("UTXO missing value field"@))
        } else {
            Ok(oldest_dust(utxos@))
        },
        _ => Err(ErrorView::RpcError("UTXOs response is not an array"@)),
    }
}

/// The height of one output, where its status tells.
fn height_of(utxo: &Json) -> (res: Option<u64>)
    ensures
        res == utxo_height(*utxo),
{
    match utxo.get("status") {
        Some(status) => status.get_u64("block_height"),
        None => None,
    }
}

/// The height of the oldest dust output that the signer can spend. An output of 546 satoshi, the dust
/// limit of legacy outputs, counts as dust, and so does a smaller one, such as the 330 satoshi of a
/// taproot output. An output without a height has not been mined and is passed over.
pub fn find_oldest_546_sat_utxo(utxos_json: &Json) -> (res: Result<Option<u64>, AlkanesError>)
    ensures
        result_view(res) == oldest_dust_reading(*utxos_json),
        res matches Ok(oldest) ==> (utxos_json matches Json::Array(utxos) && is_oldest_dust(
            utxos@,
            oldest,
        )),
{
    match utxos_json {
        Json::Array(utxos) => {
            let mut oldest_height: Option<u64> = None;
            let mut i: usize = 0;
            while i < utxos.len()
                invariant
                    i <= utxos.len(),
                    *utxos_json == Json::Array(*utxos),
                    forall|j: int| 0 <= j < i ==> utxo_value(#[trigger] utxos@[j]) is Some,
                    is_oldest_dust(utxos@.take(i as int), oldest_height),
                decreases utxos.len() - i,
            {
                let ghost seen = utxos@.take(i as int);
                let ghost next = utxos@.take(i + 1);
                let ghost previous = oldest_height;
                let utxo = &utxos[i];
                assert(next =~= seen.push(*utxo));
                let value: u64 = match utxo.get_u64("value") {
                    Some(value) => value,
                    None => {
                        assert(utxo_value(utxos@[i as int]) is None);
                        return Err(AlkanesError::RpcError("UTXO missing value field".to_string()));
                    },
                };
                if value <= DUST_LIMIT {
                    if let Some(height) = height_of(utxo) {
                        assert(is_dust_at(next[i as int], height));
                        oldest_height = match oldest_height {
                            None => Some(height),
                            Some(current) => if height < current {
                                Some(height)
                            } else {
                                Some(current)
                            },
                        };
                    }
                }
                proof {
                    lemma_oldest_dust_push(seen, *utxo, previous, oldest_height);
                }
                i = i + 1;
            }
            assert(utxos@.take(utxos@.len() as int) =~= utxos@);
            proof {
                lemma_oldest_dust_unique(utxos@, oldest_height, oldest_dust(utxos@));
            }
            Ok(oldest_height)
        },
        _ => Err(AlkanesError::RpcError("UTXOs response is not an array".to_string())),
    }
}

/// There is only one lowest height.
pub proof fn lemma_oldest_dust_unique(utxos: Seq<Json>, a: Option<u64>, b: Option<u64>)
    requires
        is_oldest_dust(utxos, a),
        is_oldest_dust(utxos, b),
    ensures
        a == b,
{
    if let Some(height) = a {
        let i = choose|i: int| 0 <= i < utxos.len() && is_dust_at(#[trigger] utxos[i], height);
        assert(is_dust_at(utxos[i], height));
    }
    if let Some(height) = b {
        let i = choose|i: int| 0 <= i < utxos.len() && is_dust_at(#[trigger] utxos[i], height);
        assert(is_dust_at(utxos[i], height));
    }
}

/// One more output moves the height of the oldest dust only where it is older dust.
pub proof fn lemma_oldest_dust_push(
    seen: Seq<Json>,
    utxo: Json,
    before: Option<u64>,
    after: Option<u64>,
)
    requires
        is_oldest_dust(seen, before),
        after == (match utxo_height(utxo) {
            Some(height) if is_dust_at(utxo, height) && (before matches Some(h) ==> height < h) => Some(
                height,
            ),
            _ => before,
        }),
    ensures
        is_oldest_dust(seen.push(utxo), after),
{
    let all = seen.push(utxo);
    let n = seen.len() as int;
    assert(all[n] == utxo);
    assert(forall|i: int| 0 <= i < n ==> all[i] == #[trigger] seen[i]);
    if let Some(height) = after {
        if after == before {
            let i = choose|i: int| 0 <= i < seen.len() && is_dust_at(#[trigger] seen[i], height);
            assert(is_dust_at(all[i], height));
        } else {
            assert(is_dust_at(all[n], height));
        }
    }
    assert forall|i: int, h: u64| 0 <= i < all.len() && #[trigger] is_dust_at(all[i], h) implies (
    after matches Some(height) && height <= h) by {
        if i < n {
            assert(is_dust_at(seen[i], h));
        }
    }
}

} // verus!
