//! One component of an entity: a column of values with the identifiers of
//! the rows they belong to.

use vstd::prelude::*;
use crate::component::{Component, erased, restored};
use crate::error::QueryError;
use crate::join::{join_positions, merge_join, positions_match};
use crate::row_ids::{InstanceKey, RowIds, dense_ids, position_of, strictly_ascending};

verus! {

/// What a join yields for each primary row: the value at the matched
/// position, or `None` where no position was matched.
pub open spec fn values_at<T>(positions: Seq<Option<usize>>, values: Seq<Option<T>>) -> Seq<
    Option<T>,
> {
    Seq::new(
        positions.len(),
        |i: int|
            match positions[i] {
                Some(j) => values[j as int],
                None => None,
            },
    )
}

/// The secondary values aligned to the primary rows: at each primary row the
/// value of the secondary row with the same identifier, if there is one.
pub open spec fn joined_values<T>(
    primary: Seq<InstanceKey>,
    secondary: Seq<InstanceKey>,
    values: Seq<Option<T>>,
) -> Seq<Option<T>> {
    values_at(join_positions(primary, secondary), values)
}

/// The identifiers handed to a constructor, as a sequence; `None` for a dense batch.
pub open spec fn given_keys(instance_keys: Option<&Vec<InstanceKey>>) -> Option<Seq<InstanceKey>> {
    match instance_keys {
        Some(keys) => Some(keys@),
        None => None,
    }
}

/// A column of values of one type, stored erased, with one row identifier per
/// value. Dense batches store no identifiers: row `i` is identified by `i`.
#[derive(Debug)]
pub struct ComponentWithInstances {
    name: String,
    row_ids: RowIds,
    values: Vec<Vec<u8>>,
}

impl ComponentWithInstances {
    /// The name of the type whose values the batch stores.
    pub closed spec fn component_name(&self) -> Seq<char> {
        self.name@
    }

    /// The identifiers that were given for the rows; `None` for a dense batch.
    pub closed spec fn keys(&self) -> Option<Seq<InstanceKey>> {
        match self.row_ids {
            RowIds::Dense(_) => None,
            RowIds::Explicit(keys) => Some(keys@),
        }
    }

    /// The stored values, erased, in row order.
    pub closed spec fn cells(&self) -> Seq<Seq<u8>> {
        Seq::new(self.values@.len(), |i: int| self.values@[i]@)
    }

    /// The identifier of each row, in row order.
    pub open spec fn row_ids(&self) -> Seq<InstanceKey> {
        match self.keys() {
            Some(keys) => keys,
            None => dense_ids(self.cells().len()),
        }
    }

    /// What the rows hold when read as values of type `T`.
    pub open spec fn typed<T: Component>(&self) -> Seq<Option<T>> {
        restored::<T>(self.cells())
    }

    /// Every value has its row identifier.
    #[verifier::type_invariant]
    pub closed spec fn wf(&self) -> bool {
        self.row_ids@.len() == self.values@.len()
    }

    /// Whether the batch is well formed and stores exactly the given values of
    /// type `T`, under the given identifiers (`None`: dense).
    pub open spec fn stores<T: Component>(
        &self,
        keys: Option<Seq<InstanceKey>>,
        values: Seq<T>,
    ) -> bool {
        &&& self.wf()
        &&& self.component_name() == T::spec_name()
        &&& self.keys() == keys
        &&& self.cells() == erased(values)
    }

    /// A well-formed batch has as many identifiers as values, and no more
    /// rows than a machine word counts.
    pub proof fn lemma_wf(&self)
        requires
            self.wf(),
        ensures
            self.row_ids().len() == self.cells().len(),
            self.cells().len() <= usize::MAX,
    {
        assert(self.values@.len() == self.values.len());
    }

    /// Builds a batch from values and, optionally, their row identifiers.
    ///
    /// Without identifiers the batch is dense. With identifiers, there must be
    /// one per value. Their order is taken as given: it is neither checked nor
    /// changed.
    pub fn from_native<T: Component>(
        instance_keys: Option<&Vec<InstanceKey>>,
        values: &Vec<T>,
    ) -> (r: Result<ComponentWithInstances, QueryError>)
        ensures
            r is Err <==> instance_keys is Some && instance_keys->0@.len() != values@.len(),
            r is Err ==> r->Err_0 == QueryError::LengthMismatch,
            r is Ok ==> (r->Ok_0).stores(given_keys(instance_keys), values@),
    {
        let row_ids: RowIds = match instance_keys {
            Some(keys) => {
                if keys.len() != values.len() {
                    return Err(QueryError::LengthMismatch);
                }
                let mut copy: Vec<InstanceKey> = Vec::with_capacity(keys.len());
                let mut k: usize = 0;
                while k < keys.len()
                    invariant
                        k <= keys@.len(),
                        copy@ == keys@.take(k as int),
                    decreases keys.len() - k,
                {
                    copy.push(keys[k]);
                    k += 1;
                }
                assert(copy@ =~= keys@);
                RowIds::Explicit(copy)
            },
            None => RowIds::Dense(values.len()),
        };
        let mut cells: Vec<Vec<u8>> = Vec::with_capacity(values.len());
        let mut i: usize = 0;
        while i < values.len()
            invariant
                i <= values@.len(),
                cells@.len() == i,
                forall|k: int| 0 <= k < i ==> (#[trigger] cells@[k])@ == values@[k].spec_erase(),
            decreases values.len() - i,
        {
            cells.push(values[i].erase());
            i += 1;
        }
        let batch = ComponentWithInstances { name: T::name(), row_ids, values: cells };
        assert(batch.cells() =~= erased(values@));
        Ok(batch)
    }

    /// The name of the type whose values the batch stores.
    pub fn name(&self) -> (n: &String)
        ensures
            n@ == self.component_name(),
    {
        &self.name
    }

    /// The row identifiers of the batch.
    pub fn ids(&self) -> (ids: &RowIds)
        ensures
            ids@ == self.row_ids(),
    {
        proof {
            use_type_invariant(self);
        }
        &self.row_ids
    }

    /// The number of rows.
    pub fn len(&self) -> (n: usize)
        ensures
            n == self.cells().len(),
            n == self.row_ids().len(),
    {
        proof {
            use_type_invariant(self);
        }
        self.values.len()
    }

    /// Whether the batch stores no identifiers of its own.
    pub fn is_dense(&self) -> (r: bool)
        ensures
            r == (self.keys() is None),
    {
        self.row_ids.is_dense()
    }

    /// The identifier of the row at position `i`.
    pub fn row_id_at(&self, i: usize) -> (id: InstanceKey)
        requires
            i < self.row_ids().len(),
        ensures
            id == self.row_ids()[i as int],
    {
        proof {
            use_type_invariant(self);
        }
        self.row_ids.id_at(i)
    }

    /// The position of the row identified by `row_id`.
    ///
    /// A position that is returned always holds `row_id`. A dense batch is
    /// indexed directly. Explicit identifiers are searched by bisection, so a
    /// row is sure to be found only where they are strictly ascending.
    pub fn lookup(&self, row_id: InstanceKey) -> (r: Option<usize>)
        ensures
            match r {
                Some(p) => p < self.row_ids().len() && self.row_ids()[p as int] == row_id,
                None => true,
            },
            strictly_ascending(self.row_ids()) ==> r == position_of(self.row_ids(), row_id),
    {
        proof {
            use_type_invariant(self);
        }
        self.row_ids.lookup(row_id)
    }

    /// Whether the row identifiers are sorted and free of duplicates, as a
    /// join needs them.
    pub fn is_sorted(&self) -> (r: bool)
        ensures
            r == strictly_ascending(self.row_ids()),
    {
        proof {
            use_type_invariant(self);
        }
        self.row_ids.is_strictly_ascending()
    }

    /// Reads every row as a value of type `T`, in row order.
    ///
    /// Fails where the batch stores another type. A row whose bytes are not
    /// those of a `T` reads as `None`.
    pub fn iter_values<T: Component>(&self) -> (r: Result<Vec<Option<T>>, QueryError>)
        ensures
            r is Err <==> self.component_name() != T::spec_name(),
            r is Err ==> r->Err_0 == QueryError::TypeMismatch,
            r is Ok ==> r->Ok_0@ == self.typed::<T>(),
    {
        if T::name() != self.name {
            return Err(QueryError::TypeMismatch);
        }
        let n: usize = self.values.len();
        let mut out: Vec<Option<T>> = Vec::with_capacity(n);
        let mut i: usize = 0;
        while i < n
            invariant
                i <= n == self.values@.len(),
                out@.len() == i,
                forall|k: int| 0 <= k < i ==> out@[k] == T::spec_restore(self.values@[k]@),
            decreases n - i,
        {
            out.push(T::restore(self.values[i].as_slice()));
            i += 1;
        }
        Ok(out)
    }

    /// Reads, as a value of type `T`, the row identified by `row_id`; `None`
    /// where no row is found for it.
    ///
    /// Fails where the batch stores another type. The row is looked up as
    /// `lookup` does, so it is sure to be found only where the identifiers
    /// are strictly ascending.
    pub fn value_for<T: Component>(&self, row_id: InstanceKey) -> (r: Result<Option<T>, QueryError>)
        ensures
            r is Err <==> self.component_name() != T::spec_name(),
            r is Err ==> r->Err_0 == QueryError::TypeMismatch,
            r is Ok && r->Ok_0 is Some ==> exists|j: int|
                0 <= j < self.row_ids().len() && #[trigger] self.row_ids()[j] == row_id
                    && self.typed::<T>()[j] == r->Ok_0,
            r is Ok && strictly_ascending(self.row_ids()) ==> r->Ok_0 == match position_of(
                self.row_ids(),
                row_id,
            ) {
                Some(p) => self.typed::<T>()[p as int],
                None => None,
            },
    {
        if T::name() != self.name {
            return Err(QueryError::TypeMismatch);
        }
        proof {
            use_type_invariant(self);
        }
        match self.row_ids.lookup(row_id) {
            Some(p) => {
                Ok(T::restore(self.values[p].as_slice()))
            },
            None => Ok(None),
        }
    }

    /// Reads the batch as values of type `T` aligned to the rows of
    /// `primary`: one entry per primary row, holding the value of the row
    /// with the same identifier, or `None` where the batch has no such row.
    ///
    /// Fails where the batch stores another type. Every value that is
    /// returned belongs to a row with the identifier of its primary row; every
    /// match is found where both identifier sequences are strictly ascending.
    pub fn iter_joined<T: Component>(&self, primary: &RowIds) -> (r: Result<
        Vec<Option<T>>,
        QueryError,
    >)
        ensures
            r is Err <==> self.component_name() != T::spec_name(),
            r is Err ==> r->Err_0 == QueryError::TypeMismatch,
            r is Ok ==> {
                let out = r->Ok_0@;
                &&& out.len() == primary@.len()
                &&& forall|i: int|
                    0 <= i < out.len() && (#[trigger] out[i]) is Some ==> exists|j: int|
                        0 <= j < self.row_ids().len() && #[trigger] self.row_ids()[j] == primary@[i]
                            && self.typed::<T>()[j] == out[i]
                &&& strictly_ascending(primary@) && strictly_ascending(self.row_ids()) ==> out
                    == joined_values(primary@, self.row_ids(), self.typed::<T>())
            },
    {
        if T::name() != self.name {
            return Err(QueryError::TypeMismatch);
        }
        proof {
            use_type_invariant(self);
        }
        let positions: Vec<Option<usize>> = merge_join(primary, &self.row_ids);
        let n: usize = positions.len();
        let mut out: Vec<Option<T>> = Vec::with_capacity(n);
        let mut i: usize = 0;
        while i < n
            invariant
                i <= n == positions@.len(),
                n == primary@.len(),
                out@.len() == i,
                self.row_ids@.len() == self.values@.len(),
                positions_match(primary@, self.row_ids@, positions@),
                forall|k: int|
                    0 <= k < i ==> out@[k] == match positions@[k] {
                        Some(j) => T::spec_restore(self.values@[j as int]@),
                        None => None,
                    },
            decreases n - i,
        {
            let value: Option<T> = match positions[i] {
                Some(j) => T::restore(self.values[j].as_slice()),
                None => None,
            };
            out.push(value);
            i += 1;
        }
        assert forall|i: int| 0 <= i < out@.len() && (#[trigger] out@[i]) is Some implies exists|j: int|
            0 <= j < self.row_ids().len() && #[trigger] self.row_ids()[j] == primary@[i]
                && self.typed::<T>()[j] == out@[i] by {
            let j = positions@[i]->0 as int;
            assert(self.row_ids()[j] == primary@[i]);
        }
        Ok(out)
    }
}

} // verus!
