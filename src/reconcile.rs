use vstd::prelude::*;
use crate::error::WalletError;
use crate::outpoint::OutPoint;
use crate::utxo::{UtxoSet, has_key, distinct_keys, lemma_sorted_unique};

verus! {

/// A rune balance held by an output, as the index reports it.
#[derive(Clone, Copy, Debug, PartialEq, Eq, Structural)]
pub struct RuneBalance {
    pub rune: u128,
    pub spacers: u32,
    pub amount: u128,
}

/// The index's view of one output.
#[derive(Clone, Debug, PartialEq, Eq)]
pub struct IndexedOutput {
    pub indexed: bool,
    /// Ordinal ranges `[start, end)`; absent when the index holds the output spent.
    pub sat_ranges: Option<Vec<(u64, u64)>>,
    pub inscriptions: Vec<String>,
    pub runes: Vec<RuneBalance>,
}

/// The amount of output `vout` of a transaction whose output values are
/// `values`, if it has that output.
pub fn locked_output_amount(values: &Vec<u64>, vout: u32) -> (r: Option<u64>)
    ensures
        (vout as int) < values@.len() ==> r == Some(values@[vout as int]),
        (vout as int) >= values@.len() ==> r is None,
{
    let i = vout as usize;
    if i < values.len() {
        Some(values[i])
    } else {
        None
    }
}

/// Merges the node's spendable outputs with its locked outputs, whose amounts
/// the caller has looked up. A locked outpoint's amount wins over a listed one.
pub fn reconcile_outputs(unspent: &Vec<(OutPoint, u64)>, locked: &Vec<(OutPoint, u64)>) -> (r:
    UtxoSet)
    requires
        distinct_keys(locked@),
    ensures
        r.wf(),
        forall|j: int| 0 <= j < locked@.len() ==> r@.contains(locked@[j]),
        forall|j: int|
            0 <= j < unspent@.len() && !has_key(locked@, unspent@[j].0) ==> has_key(
                r@,
                unspent@[j].0,
            ),
        forall|i: int|
            0 <= i < r@.len() ==> unspent@.contains(r@[i]) || locked@.contains(r@[i]),
{
    let mut r = UtxoSet::new();
    let mut n: usize = 0;
    while n < unspent.len()
        invariant
            n <= unspent@.len(),
            r.wf(),
            forall|j: int| 0 <= j < n ==> has_key(r@, unspent@[j].0),
            forall|i: int| 0 <= i < r@.len() ==> unspent@.contains(r@[i]),
        decreases unspent@.len() - n,
    {
        let (o, a) = unspent[n];
        let ghost before = r@;
        r.insert(o, a);
        proof {
            assert forall|j: int| 0 <= j <= n implies has_key(r@, unspent@[j].0) by {
                if unspent@[j].0 != o {
                    let k = choose|k: int| 0 <= k < before.len() && before[k].0 == unspent@[j].0;
                    assert(r@.contains(before[k]));
                } else {
                    assert(r@.contains((o, a)));
                }
            }
            assert forall|i: int| 0 <= i < r@.len() implies unspent@.contains(r@[i]) by {
                if r@[i].0 != o {
                    assert(before.contains(r@[i]));
                } else {
                    let k = choose|k: int| 0 <= k < r@.len() && r@[k] == (o, a);
                    lemma_sorted_unique(r@, i, k);
                    assert(unspent@[n as int] == (o, a));
                }
            }
        }
        n = n + 1;
    }
    let mut m: usize = 0;
    while m < locked.len()
        invariant
            m <= locked@.len(),
            n == unspent@.len(),
            distinct_keys(locked@),
            r.wf(),
            forall|j: int| 0 <= j < m ==> r@.contains(locked@[j]),
            forall|j: int|
                0 <= j < unspent@.len() && !has_key(locked@, unspent@[j].0) ==> has_key(
                    r@,
                    unspent@[j].0,
                ),
            forall|i: int|
                0 <= i < r@.len() ==> unspent@.contains(r@[i]) || locked@.contains(r@[i]),
        decreases locked@.len() - m,
    {
        let (o, a) = locked[m];
        let ghost before = r@;
        r.insert(o, a);
        proof {
            assert(locked@[m as int] == (o, a));
            assert forall|j: int| 0 <= j <= m implies r@.contains(locked@[j]) by {
                if j < m {
                    assert(locked@[j].0 != o);
                    assert(before.contains(locked@[j]));
                }
            }
            assert forall|j: int|
                0 <= j < unspent@.len() && !has_key(locked@, unspent@[j].0) implies has_key(
                r@,
                unspent@[j].0,
            ) by {
                if unspent@[j].0 == o {
                    assert(locked@[m as int].0 == unspent@[j].0);
                }
                let k = choose|k: int| 0 <= k < before.len() && before[k].0 == unspent@[j].0;
                assert(r@.contains(before[k]));
            }
            assert forall|i: int| 0 <= i < r@.len() implies unspent@.contains(r@[i])
                || locked@.contains(r@[i]) by {
                if r@[i].0 != o {
                    assert(before.contains(r@[i]));
                } else {
                    let k = choose|k: int| 0 <= k < r@.len() && r@[k] == (o, a);
                    lemma_sorted_unique(r@, i, k);
                }
            }
        }
        m = m + 1;
    }
    r
}

/// Index of the first output that the index does not hold, if any.
pub open spec fn first_unindexed(outputs: Seq<IndexedOutput>, i: int) -> bool {
    0 <= i < outputs.len() && !outputs[i].indexed && forall|k: int|
        0 <= k < i ==> outputs[k].indexed
}

/// Confirms that the index holds every output of the set; `outputs[i]` is the
/// index's view of the `i`-th outpoint. Fails on the first one it does not hold.
pub fn check_indexed(utxos: &UtxoSet, outputs: &Vec<IndexedOutput>) -> (r: Result<(), WalletError>)
    requires
        outputs@.len() == utxos@.len(),
    ensures
        r is Ok <==> forall|i: int| 0 <= i < outputs@.len() ==> outputs@[i].indexed,
        r matches Err(e) ==> exists|i: int|
            first_unindexed(outputs@, i) && e == WalletError::NotIndexed(utxos@[i].0),
{
    let mut i: usize = 0;
    while i < outputs.len()
        invariant
            i <= outputs@.len(),
            outputs@.len() == utxos@.len(),
            forall|k: int| 0 <= k < i ==> outputs@[k].indexed,
        decreases outputs@.len() - i,
    {
        if !outputs[i].indexed {
            let (o, _) = utxos.entry(i);
            assert(first_unindexed(outputs@, i as int));
            return Err(WalletError::NotIndexed(o));
        }
        i = i + 1;
    }
    Ok(())
}

/// An output that the index holds unspent, with its ordinal ranges.
pub open spec fn has_sat_ranges(o: IndexedOutput) -> bool {
    o.indexed && o.sat_ranges is Some
}

pub open spec fn first_without_ranges(outputs: Seq<IndexedOutput>, i: int) -> bool {
    0 <= i < outputs.len() && !has_sat_ranges(outputs[i]) && forall|k: int|
        0 <= k < i ==> has_sat_ranges(outputs[k])
}

/// The error for an output of the set that has no ordinal ranges in the index.
pub open spec fn missing_ranges_error(o: IndexedOutput, key: OutPoint) -> WalletError {
    if !o.indexed {
        WalletError::NotIndexed(key)
    } else {
        WalletError::SpentInIndex(key)
    }
}

fn copy_ranges(ranges: &Vec<(u64, u64)>) -> (r: Vec<(u64, u64)>)
    ensures
        r@ == ranges@,
{
    let mut r: Vec<(u64, u64)> = Vec::new();
    let mut i: usize = 0;
    while i < ranges.len()
        invariant
            i <= ranges@.len(),
            r@ == ranges@.subrange(0, i as int),
        decreases ranges@.len() - i,
    {
        r.push(ranges[i]);
        i = i + 1;
        assert(r@ =~= ranges@.subrange(0, i as int));
    }
    assert(ranges@ =~= ranges@.subrange(0, ranges@.len() as int));
    r
}

/// Pairs each outpoint of the set with its ordinal ranges. Requires an index
/// that tracks ordinals; fails on the first output that the index does not
/// hold or holds spent.
pub fn collect_sat_ranges(utxos: &UtxoSet, outputs: &Vec<IndexedOutput>, sat_index: bool) -> (r:
    Result<Vec<(OutPoint, Vec<(u64, u64)>)>, WalletError>)
    requires
        outputs@.len() == utxos@.len(),
    ensures
        !sat_index ==> r == Err::<Vec<(OutPoint, Vec<(u64, u64)>)>, WalletError>(
            WalletError::SatIndexRequired,
        ),
        sat_index ==> (r is Ok <==> forall|i: int|
            0 <= i < outputs@.len() ==> has_sat_ranges(outputs@[i])),
        r matches Ok(v) ==> v@.len() == utxos@.len() && forall|i: int|
            0 <= i < v@.len() ==> v@[i].0 == utxos@[i].0 && v@[i].1@
                == outputs@[i].sat_ranges->Some_0@,
        sat_index ==> (r matches Err(e) ==> exists|i: int|
            first_without_ranges(outputs@, i) && e == missing_ranges_error(
                outputs@[i],
                utxos@[i].0,
            )),
{
    if !sat_index {
        return Err(WalletError::SatIndexRequired);
    }
    let mut v: Vec<(OutPoint, Vec<(u64, u64)>)> = Vec::new();
    let mut i: usize = 0;
    while i < outputs.len()
        invariant
            i <= outputs@.len(),
            outputs@.len() == utxos@.len(),
            sat_index,
            v@.len() == i,
            forall|k: int| 0 <= k < i ==> has_sat_ranges(outputs@[k]),
            forall|k: int|
                0 <= k < i ==> v@[k].0 == utxos@[k].0 && v@[k].1@
                    == outputs@[k].sat_ranges->Some_0@,
        decreases outputs@.len() - i,
    {
        let (o, _) = utxos.entry(i);
        if !outputs[i].indexed {
            assert(first_without_ranges(outputs@, i as int));
            return Err(WalletError::NotIndexed(o));
        }
        match &outputs[i].sat_ranges {
            Some(ranges) => {
                v.push((o, copy_ranges(ranges)));
            },
            None => {
                assert(first_without_ranges(outputs@, i as int));
                return Err(WalletError::SpentInIndex(o));
            },
        }
        i = i + 1;
    }
    Ok(v)
}

/// Outpoints among the first `n` of `s` whose index entry holds runes, in order.
pub open spec fn runic_prefix(s: Seq<(OutPoint, u64)>, outputs: Seq<IndexedOutput>, n: int) -> Seq<
    OutPoint,
>
    decreases n,
{
    if n <= 0 {
        Seq::empty()
    } else if outputs[n - 1].runes.len() > 0 {
        runic_prefix(s, outputs, n - 1).push(s[n - 1].0)
    } else {
        runic_prefix(s, outputs, n - 1)
    }
}

/// The outpoints of the set that hold runes, in order. Fails on the first
/// output that the index does not hold.
pub fn runic_outputs(utxos: &UtxoSet, outputs: &Vec<IndexedOutput>) -> (r: Result<
    Vec<OutPoint>,
    WalletError,
>)
    requires
        outputs@.len() == utxos@.len(),
    ensures
        r is Ok <==> forall|i: int| 0 <= i < outputs@.len() ==> outputs@[i].indexed,
        r matches Ok(v) ==> v@ == runic_prefix(utxos@, outputs@, outputs@.len() as int),
        r matches Err(e) ==> exists|i: int|
            first_unindexed(outputs@, i) && e == WalletError::NotIndexed(utxos@[i].0),
{
    let mut v: Vec<OutPoint> = Vec::new();
    let mut i: usize = 0;
    while i < outputs.len()
        invariant
            i <= outputs@.len(),
            outputs@.len() == utxos@.len(),
            forall|k: int| 0 <= k < i ==> outputs@[k].indexed,
            v@ == runic_prefix(utxos@, outputs@, i as int),
        decreases outputs@.len() - i,
    {
        let (o, _) = utxos.entry(i);
        if !outputs[i].indexed {
            assert(first_unindexed(outputs@, i as int));
            return Err(WalletError::NotIndexed(o));
        }
        if outputs[i].runes.len() > 0 {
            v.push(o);
        }
        i = i + 1;
    }
    Ok(v)
}

/// Sum of the amounts of `rune` among the first `n` balances.
pub open spec fn rune_total(balances: Seq<RuneBalance>, rune: u128, n: int) -> int
    decreases n,
{
    if n <= 0 {
        0
    } else {
        rune_total(balances, rune, n - 1) + if balances[n - 1].rune == rune {
            balances[n - 1].amount as int
        } else {
            0
        }
    }
}

proof fn lemma_rune_total_monotone(balances: Seq<RuneBalance>, rune: u128, a: int, b: int)
    requires
        0 <= a <= b <= balances.len(),
    ensures
        rune_total(balances, rune, a) <= rune_total(balances, rune, b),
    decreases b - a,
{
    if a < b {
        lemma_rune_total_monotone(balances, rune, a, b - 1);
    }
}

/// The amount of `rune` in an output's balances; `None` when it exceeds `u128`.
pub fn rune_balance(balances: &Vec<RuneBalance>, rune: u128) -> (r: Option<u128>)
    ensures
        rune_total(balances@, rune, balances@.len() as int) <= u128::MAX ==> r == Some(
            rune_total(balances@, rune, balances@.len() as int) as u128,
        ),
        rune_total(balances@, rune, balances@.len() as int) > u128::MAX ==> r is None,
{
    let mut total: u128 = 0;
    let mut i: usize = 0;
    while i < balances.len()
        invariant
            i <= balances@.len(),
            total == rune_total(balances@, rune, i as int),
        decreases balances@.len() - i,
    {
        if balances[i].rune == rune {
            match total.checked_add(balances[i].amount) {
                Some(t) => {
                    total = t;
                },
                None => {
                    proof {
                        lemma_rune_total_monotone(
                            balances@,
                            rune,
                            i + 1,
                            balances@.len() as int,
                        );
                    }
                    return None;
                },
            }
        }
        i = i + 1;
    }
    Some(total)
}

} // verus!
