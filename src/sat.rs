use vstd::prelude::*;
use crate::error::WalletError;
use crate::outpoint::OutPoint;
use crate::utxo::UtxoSet;

verus! {

/// The position of an ordinal: an output and the offset within its value.
#[derive(Clone, Copy, Debug, PartialEq, Eq, Hash)]
pub struct SatPoint {
    pub outpoint: OutPoint,
    pub offset: u64,
}

/// Ranges `[start, end)` that are non-empty or empty, never overlap, and ascend.
pub open spec fn ranges_valid(r: Seq<(u64, u64)>) -> bool {
    &&& forall|k: int| 0 <= k < r.len() ==> r[k].0 <= r[k].1
    &&& forall|k: int| 0 <= k < r.len() - 1 ==> r[k].1 <= r[k + 1].0
}

/// Total length of the first `k` ranges.
pub open spec fn prefix_len(r: Seq<(u64, u64)>, k: int) -> int
    decreases k,
{
    if k <= 0 {
        0
    } else {
        prefix_len(r, k - 1) + (r[k - 1].1 - r[k - 1].0)
    }
}

pub open spec fn range_holds(range: (u64, u64), sat: u64) -> bool {
    range.0 <= sat < range.1
}

/// Offset of `sat` within an output whose ranges are `r`, searching from the
/// `k`-th range on.
pub open spec fn offset_from(r: Seq<(u64, u64)>, sat: u64, k: int) -> Option<int>
    decreases r.len() - k,
{
    if k < 0 || k >= r.len() {
        None
    } else if range_holds(r[k], sat) {
        Some(prefix_len(r, k) + (sat - r[k].0))
    } else {
        offset_from(r, sat, k + 1)
    }
}

/// The first output, from the `i`-th on, whose ranges hold `sat`, with the
/// offset of `sat` in it. Outputs without ranges are passed over.
pub open spec fn locate_from(outs: Seq<Option<Vec<(u64, u64)>>>, sat: u64, i: int) -> Option<
    (int, int),
>
    decreases outs.len() - i,
{
    if i < 0 || i >= outs.len() {
        None
    } else {
        match outs[i] {
            Some(r) => match offset_from(r@, sat, 0) {
                Some(off) => Some((i, off)),
                None => locate_from(outs, sat, i + 1),
            },
            None => locate_from(outs, sat, i + 1),
        }
    }
}

pub open spec fn all_ranges_valid(outs: Seq<Option<Vec<(u64, u64)>>>) -> bool {
    forall|i: int| 0 <= i < outs.len() && outs[i] is Some ==> ranges_valid(outs[i]->Some_0@)
}

proof fn lemma_prefix_len_bound(r: Seq<(u64, u64)>, k: int)
    requires
        ranges_valid(r),
        0 < k <= r.len(),
    ensures
        0 <= prefix_len(r, k) <= r[k - 1].1,
    decreases k,
{
    assert(prefix_len(r, k) == prefix_len(r, k - 1) + (r[k - 1].1 - r[k - 1].0));
    if k > 1 {
        lemma_prefix_len_bound(r, k - 1);
        assert(r[k - 2].1 <= r[k - 1].0);
    } else {
        assert(prefix_len(r, 0) == 0);
    }
}

/// Whether the ranges are well formed: each `start <= end`, and each range
/// ends no later than the next one starts.
pub fn sat_ranges_valid(ranges: &Vec<(u64, u64)>) -> (r: bool)
    ensures
        r == ranges_valid(ranges@),
{
    let mut k: usize = 0;
    while k < ranges.len()
        invariant
            k <= ranges@.len(),
            forall|j: int| 0 <= j < k ==> ranges@[j].0 <= ranges@[j].1,
            forall|j: int| 0 <= j < k && j + 1 < ranges@.len() ==> ranges@[j].1 <= ranges@[j + 1].0,
        decreases ranges@.len() - k,
    {
        if ranges[k].0 > ranges[k].1 {
            return false;
        }
        if k + 1 < ranges.len() && ranges[k].1 > ranges[k + 1].0 {
            return false;
        }
        k = k + 1;
    }
    true
}

/// Offset of `sat` within one output's ranges, if they hold it.
fn offset_in_ranges(ranges: &Vec<(u64, u64)>, sat: u64) -> (r: Option<u64>)
    requires
        ranges_valid(ranges@),
    ensures
        match offset_from(ranges@, sat, 0) {
            Some(off) => r == Some(off as u64) && off <= u64::MAX,
            None => r is None,
        },
{
    let mut offset: u64 = 0;
    let mut k: usize = 0;
    while k < ranges.len()
        invariant
            k <= ranges@.len(),
            ranges_valid(ranges@),
            offset == prefix_len(ranges@, k as int),
            offset_from(ranges@, sat, 0) == offset_from(ranges@, sat, k as int),
        decreases ranges@.len() - k,
    {
        let (start, end) = ranges[k];
        proof {
            if k > 0 {
                lemma_prefix_len_bound(ranges@, k as int);
            }
        }
        if start <= sat && sat < end {
            return Some(offset + (sat - start));
        }
        offset = offset + (end - start);
        k = k + 1;
    }
    None
}

/// Finds the output and offset that hold ordinal `sat`. `sat_ranges[i]` is
/// the index's ranges for the `i`-th outpoint of the set, absent when the index
/// holds it spent; such outputs are passed over. Requires an index that tracks
/// ordinals.
pub fn find_sat_in_outputs(
    sat: u64,
    utxos: &UtxoSet,
    sat_ranges: &Vec<Option<Vec<(u64, u64)>>>,
    sat_index: bool,
) -> (r: Result<SatPoint, WalletError>)
    requires
        sat_ranges@.len() == utxos@.len(),
        all_ranges_valid(sat_ranges@),
    ensures
        !sat_index ==> r == Err::<SatPoint, WalletError>(WalletError::SatIndexRequired),
        sat_index ==> match locate_from(sat_ranges@, sat, 0) {
            Some((i, off)) => r == Ok::<SatPoint, WalletError>(
                SatPoint { outpoint: utxos@[i].0, offset: off as u64 },
            ),
            None => r == Err::<SatPoint, WalletError>(WalletError::SatNotFound(sat)),
        },
{
    if !sat_index {
        return Err(WalletError::SatIndexRequired);
    }
    let mut i: usize = 0;
    while i < sat_ranges.len()
        invariant
            i <= sat_ranges@.len(),
            sat_index,
            sat_ranges@.len() == utxos@.len(),
            all_ranges_valid(sat_ranges@),
            locate_from(sat_ranges@, sat, 0) == locate_from(sat_ranges@, sat, i as int),
        decreases sat_ranges@.len() - i,
    {
        match &sat_ranges[i] {
            Some(ranges) => {
                match offset_in_ranges(ranges, sat) {
                    Some(offset) => {
                        let (outpoint, _) = utxos.entry(i);
                        return Ok(SatPoint { outpoint, offset });
                    },
                    None => {},
                }
            },
            None => {},
        }
        i = i + 1;
    }
    Err(WalletError::SatNotFound(sat))
}

/// An ordinal that no range of any output holds is located nowhere.
pub proof fn lemma_uncovered_sat_not_located(outs: Seq<Option<Vec<(u64, u64)>>>, sat: u64)
    requires
        forall|i: int, k: int|
            0 <= i < outs.len() && outs[i] is Some && 0 <= k < outs[i]->Some_0@.len()
                ==> !range_holds(outs[i]->Some_0@[k], sat),
    ensures
        locate_from(outs, sat, 0) is None,
{
    lemma_locate_none_from(outs, sat, 0);
}

proof fn lemma_offset_none_from(r: Seq<(u64, u64)>, sat: u64, k: int)
    requires
        0 <= k,
        forall|j: int| 0 <= j < r.len() ==> !range_holds(r[j], sat),
    ensures
        offset_from(r, sat, k) is None,
    decreases r.len() - k,
{
    if k < r.len() {
        lemma_offset_none_from(r, sat, k + 1);
    }
}

proof fn lemma_locate_none_from(outs: Seq<Option<Vec<(u64, u64)>>>, sat: u64, i: int)
    requires
        0 <= i,
        forall|a: int, k: int|
            0 <= a < outs.len() && outs[a] is Some && 0 <= k < outs[a]->Some_0@.len()
                ==> !range_holds(outs[a]->Some_0@[k], sat),
    ensures
        locate_from(outs, sat, i) is None,
    decreases outs.len() - i,
{
    if i < outs.len() {
        if outs[i] is Some {
            lemma_offset_none_from(outs[i]->Some_0@, sat, 0);
        }
        lemma_locate_none_from(outs, sat, i + 1);
    }
}

} // verus!
