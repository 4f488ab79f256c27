//! Drawing one entry from a [`LootTable`] according to its mode: uniformly,
//! or with probability proportional to the entries' integer weights.

use vstd::prelude::*;

use rand_distr::Distribution;

use crate::table::EntryModel;
use crate::table::LootTable;
use crate::table::Mode;
use crate::table::TableModel;
use crate::table::entry_name;
use crate::table::entry_weight;

verus! {

/// Why a selection call failed. The table stays valid for a later call.
#[derive(Clone, Copy, Debug, PartialEq, Eq, Structural)]
pub enum SelectionError {
    /// The table has no entries, so sampling is undefined.
    EmptyTable,
    /// Every weight of a weighted table is zero: no distribution exists.
    AllZeroWeights,
    /// The sum of the weights exceeds the representable range.
    WeightOverflow,
}

/// The sum of the weights of a sequence of entries; an unweighted entry
/// counts as weight zero.
pub open spec fn total_weight(entries: Seq<EntryModel>) -> int
    decreases entries.len(),
{
    if entries.len() == 0 {
        0
    } else {
        total_weight(entries.drop_last()) + entry_weight(entries.last())
    }
}

/// The sum of a sequence of 64-bit weights.
pub open spec fn sum_u64(s: Seq<u64>) -> int
    decreases s.len(),
{
    if s.len() == 0 {
        0
    } else {
        sum_u64(s.drop_last()) + s.last()
    }
}

/// The error a selection on `t` must return, or `None` when a selection is
/// owed: `EmptyTable` on a table with no entries; for a weighted table,
/// `WeightOverflow` when the weights sum beyond 64 bits and `AllZeroWeights`
/// when they sum to zero.
pub open spec fn spec_select_err(t: TableModel) -> Option<SelectionError> {
    if t.entries.len() == 0 {
        Some(SelectionError::EmptyTable)
    } else if t.mode == Mode::Weighted && total_weight(t.entries) > u64::MAX {
        Some(SelectionError::WeightOverflow)
    } else if t.mode == Mode::Weighted && total_weight(t.entries) == 0 {
        Some(SelectionError::AllZeroWeights)
    } else {
        None
    }
}

/// Relies on `rand_distr::Uniform` (rand's uniform integer sampler) and
/// `rand::thread_rng`: `Uniform::from(0..n)` with `n > 0` samples the
/// half-open range `[0, n)`, every index with probability `1/n`.
#[verifier::external_body]
fn draw_uniform_index(n: usize) -> (r: usize)
    requires
        0 < n,
    ensures
        r < n,
{
    let mut rng = rand::thread_rng();
    rand_distr::Uniform::from(0..n).sample(&mut rng)
}

/// Relies on `rand::distributions::WeightedIndex` and `rand::thread_rng`:
/// over non-negative weights with a positive total that fits in 64 bits,
/// `WeightedIndex::new` succeeds and `sample` yields each index with
/// probability `weights[i] / total`, so never an index of weight zero.
#[verifier::external_body]
fn draw_weighted_index(weights: &Vec<u64>) -> (r: usize)
    requires
        weights@.len() > 0,
        0 < sum_u64(weights@) <= u64::MAX,
    ensures
        r < weights@.len(),
        weights@[r as int] > 0,
{
    let mut rng = rand::thread_rng();
    let dist = rand::distributions::WeightedIndex::new(weights).unwrap();
    dist.sample(&mut rng)
}

/// The sum over a prefix of the entries never exceeds the sum over a longer
/// prefix: each entry contributes a non-negative weight.
proof fn lemma_total_weight_take_monotone(s: Seq<EntryModel>, i: int, j: int)
    requires
        0 <= i <= j <= s.len(),
    ensures
        total_weight(s.take(i)) <= total_weight(s.take(j)),
    decreases j - i,
{
    if i < j {
        lemma_total_weight_take_monotone(s, i, j - 1);
        assert(s.take(j).drop_last() =~= s.take(j - 1));
    }
}

/// Weights listed pointwise from a sequence of entries sum to the entries'
/// total weight.
proof fn lemma_sum_matches(ws: Seq<u64>, es: Seq<EntryModel>)
    requires
        ws.len() == es.len(),
        forall|i: int| 0 <= i < ws.len() ==> ws[i] == entry_weight(#[trigger] es[i]),
    ensures
        sum_u64(ws) == total_weight(es),
    decreases ws.len(),
{
    if ws.len() > 0 {
        lemma_sum_matches(ws.drop_last(), es.drop_last());
    }
}

/// Draw one entry of `table` at random and return its name.
///
/// Fails with exactly the error `spec_select_err` gives, and only then.
/// Otherwise the returned name is the name of one of the table's entries,
/// and in weighted mode one whose weight is positive: a zero-weight entry is
/// never selected. Reads the table only: repeated calls stay valid.
pub fn select(table: &LootTable) -> (r: Result<String, SelectionError>)
    ensures
        match spec_select_err(table@) {
            Some(e) => r == Err::<String, SelectionError>(e),
            None => r matches Ok(name) && exists|i: int|
                0 <= i < table@.entries.len() && entry_name(#[trigger] table@.entries[i]) == name@
                    && (table@.mode == Mode::Weighted ==> entry_weight(table@.entries[i]) > 0),
        },
{
    let n = table.entries.len();
    if n == 0 {
        return Err(SelectionError::EmptyTable);
    }
    match table.mode {
        Mode::Uniform => {
            let i = draw_uniform_index(n);
            let name = table.entries[i].name().clone();
            proof {
                assert(entry_name(table@.entries[i as int]) == name@);
            }
            Ok(name)
        },
        Mode::Weighted => {
            let ghost es = table@.entries;
            let mut weights: Vec<u64> = Vec::new();
            let mut total: u64 = 0;
            let mut k: usize = 0;
            while k < n
                invariant
                    n == es.len(),
                    0 < n,
                    es == table@.entries,
                    table@.mode == Mode::Weighted,
                    0 <= k <= n,
                    weights@.len() == k,
                    forall|j: int| 0 <= j < k ==> weights@[j] == entry_weight(#[trigger] es[j]),
                    total == total_weight(es.take(k as int)),
                decreases n - k,
            {
                let w = table.entries[k].weight_or_zero();
                proof {
                    assert(es.take(k + 1).drop_last() =~= es.take(k as int));
                    assert(es.take(k + 1).last() == es[k as int]);
                }
                total = match total.checked_add(w) {
                    Some(t) => t,
                    None => {
                        proof {
                            assert(total_weight(es.take(k as int + 1)) == total + entry_weight(
                                es[k as int],
                            ));
                            lemma_total_weight_take_monotone(es, k as int + 1, es.len() as int);
                            assert(es.take(es.len() as int) =~= es);
                            assert(total_weight(es) > u64::MAX);
                        }
                        return Err(SelectionError::WeightOverflow);
                    },
                };
                weights.push(w);
                k += 1;
            }
            proof {
                assert(es.take(es.len() as int) =~= es);
                lemma_sum_matches(weights@, es);
            }
            if total == 0 {
                return Err(SelectionError::AllZeroWeights);
            }
            let i = draw_weighted_index(&weights);
            let name = table.entries[i].name().clone();
            proof {
                assert(entry_name(table@.entries[i as int]) == name@);
                assert(entry_weight(table@.entries[i as int]) > 0);
            }
            Ok(name)
        },
    }
}

} // verus!
