//! Aligns the rows of one batch against the rows of another by identifier.

use vstd::prelude::*;
use crate::row_ids::{InstanceKey, RowIds, lemma_position_unique, position_of, strictly_ascending};

verus! {

/// For each primary row, the position of the secondary row with the same
/// identifier, or `None` where the secondary has no such row.
pub open spec fn join_positions(
    primary: Seq<InstanceKey>,
    secondary: Seq<InstanceKey>,
) -> Seq<Option<usize>> {
    Seq::new(primary.len(), |i: int| position_of(secondary, primary[i]))
}

/// Every position that `out` gives holds, in `secondary`, the identifier of
/// the primary row it was given for.
pub open spec fn positions_match(
    primary: Seq<InstanceKey>,
    secondary: Seq<InstanceKey>,
    out: Seq<Option<usize>>,
) -> bool {
    forall|i: int|
        0 <= i < out.len() && i < primary.len() ==> match #[trigger] out[i] {
            Some(j) => j < secondary.len() && secondary[j as int] == primary[i],
            None => true,
        }
}

/// Joins a secondary identifier sequence against a primary one.
///
/// The result has one entry per primary row, in primary order. A dense
/// secondary is indexed directly; an explicit one is walked once, side by side
/// with the primary, which takes time linear in the two lengths. The walk
/// finds every match only where both sequences are strictly ascending.
pub fn merge_join(primary: &RowIds, secondary: &RowIds) -> (out: Vec<Option<usize>>)
    ensures
        out@.len() == primary@.len(),
        positions_match(primary@, secondary@, out@),
        strictly_ascending(primary@) && strictly_ascending(secondary@) ==> out@ == join_positions(
            primary@,
            secondary@,
        ),
{
    let ghost asc = strictly_ascending(primary@) && strictly_ascending(secondary@);
    let n: usize = primary.len();
    let mut out: Vec<Option<usize>> = Vec::with_capacity(n);
    let mut i: usize = 0;
    match secondary {
        RowIds::Dense(_) => {
            while i < n
                invariant
                    i <= n == primary@.len(),
                    out@.len() == i,
                    positions_match(primary@, secondary@, out@),
                    asc ==> strictly_ascending(secondary@),
                    asc ==> forall|k: int| 0 <= k < i ==> out@[k] == position_of(secondary@, primary@[k]),
                decreases n - i,
            {
                let found: Option<usize> = secondary.lookup(primary.id_at(i));
                out.push(found);
                i += 1;
            }
        },
        RowIds::Explicit(keys) => {
            let m: usize = keys.len();
            let mut j: usize = 0;
            while i < n
                invariant
                    i <= n == primary@.len(),
                    j <= m == keys@.len(),
                    secondary@ == keys@,
                    out@.len() == i,
                    positions_match(primary@, keys@, out@),
                    asc ==> strictly_ascending(primary@) && strictly_ascending(keys@),
                    asc ==> forall|k: int| 0 <= k < i ==> out@[k] == position_of(keys@, primary@[k]),
                    asc ==> forall|k: int, r: int| 0 <= k < j && i <= r < n ==> keys@[k].0 < primary@[r].0,
                decreases n - i,
            {
                let id: InstanceKey = primary.id_at(i);
                while j < m && keys[j].0 < id.0
                    invariant
                        j <= m == keys@.len(),
                        i < n == primary@.len(),
                        id == primary@[i as int],
                        asc ==> strictly_ascending(primary@) && strictly_ascending(keys@),
                        asc ==> forall|k: int, r: int| 0 <= k < j && i <= r < n ==> keys@[k].0 < primary@[r].0,
                    decreases m - j,
                {
                    j += 1;
                }
                if j < m && keys[j].0 == id.0 {
                    proof {
                        if asc {
                            lemma_position_unique(keys@, id, j as int);
                        }
                    }
                    out.push(Some(j));
                    j += 1;
                } else {
                    out.push(None);
                }
                i += 1;
            }
        },
    }
    out
}

} // verus!
