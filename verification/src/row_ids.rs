//! Row identifiers and the sequences of them that index a component batch.

use vstd::prelude::*;

verus! {

/// Identifies one logical row of an entity.
#[derive(Clone, Copy, PartialEq, Eq, Structural, PartialOrd, Ord, Hash, Debug)]
pub struct InstanceKey(pub u64);

/// Every identifier is smaller than all that follow it: sorted, and free of duplicates.
pub open spec fn strictly_ascending(ids: Seq<InstanceKey>) -> bool {
    forall|i: int, j: int| 0 <= i < j < ids.len() ==> ids[i].0 < ids[j].0
}

/// The identifiers `0, 1, .., n - 1`.
pub open spec fn dense_ids(n: nat) -> Seq<InstanceKey> {
    Seq::new(n, |i: int| InstanceKey(i as u64))
}

/// Where `id` stands in `ids`, if it occurs there.
pub open spec fn position_of(ids: Seq<InstanceKey>, id: InstanceKey) -> Option<usize> {
    if ids.contains(id) {
        Some(ids.index_of(id) as usize)
    } else {
        None
    }
}

/// In a strictly ascending sequence an identifier occurs at one position at most.
pub proof fn lemma_position_unique(ids: Seq<InstanceKey>, id: InstanceKey, j: int)
    requires
        strictly_ascending(ids),
        0 <= j < ids.len() <= usize::MAX,
        ids[j] == id,
    ensures
        position_of(ids, id) == Some(j as usize),
{
}

/// Dense identifiers are strictly ascending.
pub proof fn lemma_dense_ascending(n: nat)
    requires
        n <= usize::MAX,
    ensures
        strictly_ascending(dense_ids(n)),
{
}

/// A sequence of row identifiers: stored explicitly, or implied by position.
#[derive(Debug)]
pub enum RowIds {
    /// The identifiers `0..n`; none of them is stored.
    Dense(usize),
    /// The identifiers as given, one per row.
    Explicit(Vec<InstanceKey>),
}

impl View for RowIds {
    type V = Seq<InstanceKey>;

    open spec fn view(&self) -> Seq<InstanceKey> {
        match self {
            RowIds::Dense(n) => dense_ids(*n as nat),
            RowIds::Explicit(keys) => keys@,
        }
    }
}

impl RowIds {
    /// Whether the identifiers are implied by position.
    pub fn is_dense(&self) -> (r: bool)
        ensures
            r == (self is Dense),
    {
        match self {
            RowIds::Dense(_) => true,
            RowIds::Explicit(_) => false,
        }
    }

    /// The number of rows.
    pub fn len(&self) -> (n: usize)
        ensures
            n == self@.len(),
    {
        match self {
            RowIds::Dense(n) => *n,
            RowIds::Explicit(keys) => keys.len(),
        }
    }

    /// The identifier of the row at position `i`.
    pub fn id_at(&self, i: usize) -> (id: InstanceKey)
        requires
            i < self@.len(),
        ensures
            id == self@[i as int],
    {
        match self {
            RowIds::Dense(_) => InstanceKey(i as u64),
            RowIds::Explicit(keys) => keys[i],
        }
    }

    /// Whether the identifiers are sorted and free of duplicates.
    pub fn is_strictly_ascending(&self) -> (r: bool)
        ensures
            r == strictly_ascending(self@),
    {
        match self {
            RowIds::Dense(n) => {
                proof {
                    lemma_dense_ascending(*n as nat);
                }
                true
            },
            RowIds::Explicit(keys) => {
                let mut i: usize = 1;
                while i < keys.len()
                    invariant
                        1 <= i,
                        self@ == keys@,
                        forall|a: int, b: int| 0 <= a < b < i && b < keys@.len() ==> keys@[a].0 < keys@[b].0,
                    decreases keys.len() - i,
                {
                    if keys[i - 1].0 >= keys[i].0 {
                        return false;
                    }
                    i += 1;
                }
                true
            },
        }
    }

    /// The position of the row identified by `id`.
    ///
    /// A position that is returned always holds `id`. Explicit identifiers are
    /// searched by bisection, so a row is sure to be found only where they
    /// are strictly ascending.
    pub fn lookup(&self, id: InstanceKey) -> (r: Option<usize>)
        ensures
            match r {
                Some(p) => p < self@.len() && self@[p as int] == id,
                None => true,
            },
            strictly_ascending(self@) ==> r == position_of(self@, id),
    {
        match self {
            RowIds::Dense(n) => {
                if id.0 < *n as u64 {
                    let p: usize = id.0 as usize;
                    proof {
                        lemma_dense_ascending(*n as nat);
                        lemma_position_unique(self@, id, p as int);
                    }
                    Some(p)
                } else {
                    None
                }
            },
            RowIds::Explicit(keys) => {
                let ghost asc = strictly_ascending(keys@);
                let mut lo: usize = 0;
                let mut hi: usize = keys.len();
                while lo < hi
                    invariant
                        lo <= hi <= keys@.len() <= usize::MAX,
                        self@ == keys@,
                        asc ==> forall|k: int| 0 <= k < lo ==> keys@[k].0 < id.0,
                        asc ==> forall|k: int| hi <= k < keys@.len() ==> id.0 < keys@[k].0,
                        asc == strictly_ascending(keys@),
                    decreases hi - lo,
                {
                    let mid: usize = lo + (hi - lo) / 2;
                    let key: InstanceKey = keys[mid];
                    if key.0 == id.0 {
                        proof {
                            if asc {
                                lemma_position_unique(keys@, id, mid as int);
                            }
                        }
                        return Some(mid);
                    } else if key.0 < id.0 {
                        lo = mid + 1;
                    } else {
                        hi = mid;
                    }
                }
                None
            },
        }
    }
}

} // verus!
