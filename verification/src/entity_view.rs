//! A view of one entity: a primary component, whose rows are the rows of the
//! view, and secondary components joined to those rows by identifier.

use vstd::prelude::*;
use crate::batch::{ComponentWithInstances, given_keys, joined_values};
use crate::component::Component;
use crate::error::QueryError;
use crate::row_ids::{InstanceKey, strictly_ascending};

verus! {

/// The largest number of components that one visit reads side by side.
pub const MAX_VISIT_ARITY: usize = 3;

/// Whether every entry holds a value.
pub open spec fn all_readable<T>(values: Seq<Option<T>>) -> bool {
    forall|i: int| 0 <= i < values.len() ==> (#[trigger] values[i]) is Some
}

/// The values that the entries hold, in order.
pub open spec fn unwrapped<T>(values: Seq<Option<T>>) -> Seq<T> {
    Seq::new(values.len(), |i: int| values[i]->0)
}

/// Whether identifiers are given and their number is not `n`.
pub open spec fn mismatched(row_ids: Option<&Vec<InstanceKey>>, n: nat) -> bool {
    row_ids is Some && row_ids->0@.len() != n
}

/// One primary batch and any number of named secondary batches.
///
/// The view has the rows of its primary batch, in their order. No two
/// components of a view share a name; the primary goes by the name of its type.
#[derive(Debug)]
pub struct EntityView {
    primary: ComponentWithInstances,
    names: Vec<String>,
    batches: Vec<ComponentWithInstances>,
}

impl EntityView {
    /// The primary batch.
    pub closed spec fn primary(&self) -> ComponentWithInstances {
        self.primary
    }

    /// The secondary batches, by name.
    pub closed spec fn components(&self) -> Map<Seq<char>, ComponentWithInstances> {
        Map::new(
            |name: Seq<char>| self.slot_of(name) is Some,
            |name: Seq<char>| self.batches@[self.slot_of(name)->0],
        )
    }

    /// Where the secondary batch of that name is kept.
    closed spec fn slot_of(&self, name: Seq<char>) -> Option<int> {
        if exists|i: int| 0 <= i < self.names@.len() && (#[trigger] self.names@[i])@ == name {
            Some(choose|i: int| 0 <= i < self.names@.len() && (#[trigger] self.names@[i])@ == name)
        } else {
            None
        }
    }

    /// The name of the primary component.
    pub open spec fn primary_name(&self) -> Seq<char> {
        self.primary().component_name()
    }

    /// The identifiers of the rows of the view.
    pub open spec fn row_ids(&self) -> Seq<InstanceKey> {
        self.primary().row_ids()
    }

    /// Whether the view holds a component of that name, primary or secondary.
    pub open spec fn has_component(&self, name: Seq<char>) -> bool {
        name == self.primary_name() || self.components().dom().contains(name)
    }

    /// Names are unique, and every batch is well formed.
    #[verifier::type_invariant]
    pub closed spec fn wf(&self) -> bool {
        &&& self.primary.wf()
        &&& self.names@.len() == self.batches@.len()
        &&& forall|i: int| 0 <= i < self.batches@.len() ==> (#[trigger] self.batches@[i]).wf()
        &&& forall|i: int|
            0 <= i < self.names@.len() ==> (#[trigger] self.names@[i])@ != self.primary.component_name()
        &&& forall|i: int, j: int|
            0 <= i < j < self.names@.len() ==> (#[trigger] self.names@[i])@ != (
            #[trigger] self.names@[j])@
    }

    /// In a well-formed view the primary and every secondary batch are well
    /// formed, and no secondary goes by the name of the primary.
    pub proof fn lemma_wf(&self)
        requires
            self.wf(),
        ensures
            self.primary().wf(),
            !self.components().dom().contains(self.primary_name()),
            forall|name: Seq<char>|
                self.components().dom().contains(name) ==> (#[trigger] self.components()[name]).wf(),
    {
    }

    /// The name kept in a slot leads back to the batch kept in that slot.
    proof fn lemma_slot(&self, i: int)
        requires
            self.wf(),
            0 <= i < self.names@.len(),
        ensures
            self.slot_of(self.names@[i]@) == Some(i),
            self.components().dom().contains(self.names@[i]@),
            self.components()[self.names@[i]@] == self.batches@[i],
    {
    }

    /// What reading the component `name` as values of type `T` yields where
    /// the identifiers are strictly ascending: the primary values as they
    /// stand, a secondary's values aligned to the rows of the primary.
    pub open spec fn spec_component<T: Component>(&self, name: Seq<char>) -> Result<
        Seq<Option<T>>,
        QueryError,
    > {
        if name == self.primary_name() {
            if self.primary().component_name() == T::spec_name() {
                Ok(self.primary().typed::<T>())
            } else {
                Err(QueryError::TypeMismatch)
            }
        } else if self.components().dom().contains(name) {
            let batch = self.components()[name];
            if batch.component_name() == T::spec_name() {
                Ok(joined_values(self.row_ids(), batch.row_ids(), batch.typed::<T>()))
            } else {
                Err(QueryError::TypeMismatch)
            }
        } else {
            Err(QueryError::ComponentNotFound)
        }
    }

    /// Whether the component `name` can be aligned to the rows of the view:
    /// the primary always; a secondary where its identifiers and those of the
    /// primary are strictly ascending.
    pub open spec fn joinable(&self, name: Seq<char>) -> bool {
        name == self.primary_name() || (self.components().dom().contains(name)
            && strictly_ascending(self.row_ids()) && strictly_ascending(
            self.components()[name].row_ids(),
        ))
    }

    /// The slot of the secondary batch of that name.
    fn find(&self, name: &String) -> (r: Option<usize>)
        ensures
            match r {
                Some(i) => i < self.names@.len() && self.slot_of(name@) == Some(i as int),
                None => self.slot_of(name@) is None,
            },
    {
        proof {
            use_type_invariant(self);
        }
        let mut i: usize = 0;
        while i < self.names.len()
            invariant
                i <= self.names@.len(),
                self.wf(),
                forall|k: int| 0 <= k < i ==> (#[trigger] self.names@[k])@ != name@,
            decreases self.names.len() - i,
        {
            if self.names[i] == *name {
                proof {
                    self.lemma_slot(i as int);
                }
                return Some(i);
            }
            i += 1;
        }
        None
    }

    /// The number of rows of the view: that of its primary batch.
    pub fn len(&self) -> (n: usize)
        ensures
            n == self.row_ids().len(),
    {
        self.primary.len()
    }

    /// Whether the view holds a component of that name, primary or secondary.
    pub fn contains(&self, name: &str) -> (r: bool)
        ensures
            r == self.has_component(name@),
    {
        let owned: String = name.to_owned();
        if *self.primary.name() == owned {
            true
        } else {
            self.find(&owned).is_some()
        }
    }

    /// Whether the component `name` can be aligned to the rows of the view:
    /// it is the primary, or a secondary whose identifiers, like those of the
    /// primary, are strictly ascending.
    pub fn is_joinable(&self, name: &str) -> (r: bool)
        ensures
            r == self.joinable(name@),
    {
        proof {
            use_type_invariant(self);
        }
        let owned: String = name.to_owned();
        if *self.primary.name() == owned {
            true
        } else {
            match self.find(&owned) {
                Some(slot) => {
                    proof {
                        self.lemma_slot(slot as int);
                    }
                    self.primary.is_sorted() && self.batches[slot].is_sorted()
                },
                None => false,
            }
        }
    }

    /// A view of one component: `values`, under `row_ids` if any are given.
    pub fn from_primary<T: Component>(values: &Vec<T>, row_ids: Option<&Vec<InstanceKey>>) -> (r:
        Result<EntityView, QueryError>)
        ensures
            r is Err <==> row_ids is Some && row_ids->0@.len() != values@.len(),
            r is Err ==> r->Err_0 == QueryError::LengthMismatch,
            r is Ok ==> {
                let view = r->Ok_0;
                &&& view.wf()
                &&& view.primary().stores(given_keys(row_ids), values@)
                &&& view.components() == Map::<Seq<char>, ComponentWithInstances>::empty()
            },
    {
        match ComponentWithInstances::from_native(row_ids, values) {
            Ok(primary) => {
                let view = EntityView { primary, names: Vec::new(), batches: Vec::new() };
                Ok(view)
            },
            Err(e) => Err(e),
        }
    }

    /// The view with one more secondary component, `values` under `row_ids`,
    /// by the name `name`.
    ///
    /// Fails with `DuplicateComponent` where the view has a component of that
    /// name already, the primary included; else with `LengthMismatch` where
    /// identifiers are given and their number is not that of the values.
    pub fn with_component<T: Component>(
        self,
        name: &str,
        values: &Vec<T>,
        row_ids: Option<&Vec<InstanceKey>>,
    ) -> (r: Result<EntityView, QueryError>)
        ensures
            r is Err <==> self.has_component(name@) || (row_ids is Some && row_ids->0@.len()
                != values@.len()),
            r is Err ==> r->Err_0 == if self.has_component(name@) {
                QueryError::DuplicateComponent
            } else {
                QueryError::LengthMismatch
            },
            r is Ok ==> {
                let view = r->Ok_0;
                &&& view.wf()
                &&& view.primary() == self.primary()
                &&& view.components().dom().contains(name@)
                &&& view.components()[name@].stores(given_keys(row_ids), values@)
                &&& view.components() == self.components().insert(name@, view.components()[name@])
            },
    {
        proof {
            use_type_invariant(&self);
        }
        let owned: String = name.to_owned();
        if *self.primary.name() == owned || self.find(&owned).is_some() {
            return Err(QueryError::DuplicateComponent);
        }
        match ComponentWithInstances::from_native(row_ids, values) {
            Ok(batch) => {
                let ghost before = self;
                let EntityView { primary, names, batches } = self;
                let mut names = names;
                let mut batches = batches;
                names.push(owned);
                batches.push(batch);
                let view = EntityView { primary, names, batches };
                proof {
                    let last = before.names@.len() as int;
                    view.lemma_slot(last);
                    assert forall|n: Seq<char>| n != name@ implies view.slot_of(n) == before.slot_of(
                        n,
                    ) by {
                        if before.slot_of(n) is Some {
                            view.lemma_slot(before.slot_of(n)->0);
                        }
                    }
                    assert(view.components() =~= before.components().insert(
                        name@,
                        view.components()[name@],
                    ));
                }
                Ok(view)
            },
            Err(e) => Err(e),
        }
    }

    /// A view of one component, given as its identifiers and values.
    pub fn from_native<T: Component>(primary: (Option<&Vec<InstanceKey>>, &Vec<T>)) -> (r: Result<
        EntityView,
        QueryError,
    >)
        ensures
            r is Err <==> mismatched(primary.0, primary.1@.len()),
            r is Err ==> r->Err_0 == QueryError::LengthMismatch,
            r is Ok ==> {
                let view = r->Ok_0;
                &&& view.wf()
                &&& view.primary().stores(given_keys(primary.0), primary.1@)
                &&& view.components() == Map::<Seq<char>, ComponentWithInstances>::empty()
            },
    {
        EntityView::from_primary(primary.1, primary.0)
    }

    /// A view of two components, each given as its identifiers and values.
    /// The second is kept as a secondary by the name of its type.
    ///
    /// Fails with `LengthMismatch` where the primary's identifiers do not
    /// match its values in number; else with `DuplicateComponent` where both
    /// types go by one name; else with `LengthMismatch` where the secondary's
    /// identifiers do not match its values in number.
    pub fn from_native2<T: Component, U: Component>(
        primary: (Option<&Vec<InstanceKey>>, &Vec<T>),
        secondary: (Option<&Vec<InstanceKey>>, &Vec<U>),
    ) -> (r: Result<EntityView, QueryError>)
        ensures
            r is Err <==> mismatched(primary.0, primary.1@.len()) || T::spec_name()
                == U::spec_name() || mismatched(secondary.0, secondary.1@.len()),
            r is Err ==> r->Err_0 == if mismatched(primary.0, primary.1@.len()) {
                QueryError::LengthMismatch
            } else if T::spec_name() == U::spec_name() {
                QueryError::DuplicateComponent
            } else {
                QueryError::LengthMismatch
            },
            r is Ok ==> {
                let view = r->Ok_0;
                &&& view.wf()
                &&& view.primary().stores(given_keys(primary.0), primary.1@)
                &&& view.components().dom() == set![U::spec_name()]
                &&& view.components()[U::spec_name()].stores(given_keys(secondary.0), secondary.1@)
            },
    {
        let view: EntityView = match EntityView::from_primary(primary.1, primary.0) {
            Ok(view) => view,
            Err(e) => {
                return Err(e);
            },
        };
        let name: String = U::name();
        match view.with_component(name.as_str(), secondary.1, secondary.0) {
            Ok(view) => {
                Ok(view)
            },
            Err(e) => Err(e),
        }
    }

    /// A view of three components, each given as its identifiers and values.
    /// The second and the third are kept as secondaries by the names of their
    /// types.
    ///
    /// Fails as `from_native2` does for the first two; else with
    /// `DuplicateComponent` where the third type goes by the name of one of
    /// the others; else with `LengthMismatch` where the third's identifiers
    /// do not match its values in number.
    pub fn from_native3<T: Component, U: Component, V: Component>(
        primary: (Option<&Vec<InstanceKey>>, &Vec<T>),
        second: (Option<&Vec<InstanceKey>>, &Vec<U>),
        third: (Option<&Vec<InstanceKey>>, &Vec<V>),
    ) -> (r: Result<EntityView, QueryError>)
        ensures
            r is Err <==> mismatched(primary.0, primary.1@.len()) || T::spec_name()
                == U::spec_name() || mismatched(second.0, second.1@.len()) || V::spec_name()
                == T::spec_name() || V::spec_name() == U::spec_name() || mismatched(
                third.0,
                third.1@.len(),
            ),
            r is Err ==> r->Err_0 == if mismatched(primary.0, primary.1@.len()) {
                QueryError::LengthMismatch
            } else if T::spec_name() == U::spec_name() {
                QueryError::DuplicateComponent
            } else if mismatched(second.0, second.1@.len()) {
                QueryError::LengthMismatch
            } else if V::spec_name() == T::spec_name() || V::spec_name() == U::spec_name() {
                QueryError::DuplicateComponent
            } else {
                QueryError::LengthMismatch
            },
            r is Ok ==> {
                let view = r->Ok_0;
                &&& view.wf()
                &&& view.primary().stores(given_keys(primary.0), primary.1@)
                &&& view.components().dom() == set![U::spec_name(), V::spec_name()]
                &&& view.components()[U::spec_name()].stores(given_keys(second.0), second.1@)
                &&& view.components()[V::spec_name()].stores(given_keys(third.0), third.1@)
            },
    {
        let view: EntityView = match EntityView::from_native2(primary, second) {
            Ok(view) => view,
            Err(e) => {
                return Err(e);
            },
        };
        let name: String = V::name();
        match view.with_component(name.as_str(), third.1, third.0) {
            Ok(view) => {
                Ok(view)
            },
            Err(e) => Err(e),
        }
    }

    /// Reads the component `name` as values of type `T`, one entry per row of
    /// the view.
    ///
    /// The primary component yields its own values. A secondary yields, at
    /// each row of the view, the value of its row with the same identifier,
    /// or `None` where it has no such row. Fails with `ComponentNotFound`
    /// where the view has no component of that name, and with `TypeMismatch`
    /// where the component stores another type than `T`.
    ///
    /// A value that is yielded for a row always belongs to a secondary row of
    /// the same identifier. Every match is found where the component is
    /// joinable, that is, where the identifiers on both sides are strictly
    /// ascending.
    pub fn iter_component<T: Component>(&self, name: &str) -> (r: Result<
        Vec<Option<T>>,
        QueryError,
    >)
        ensures
            match (r, self.spec_component::<T>(name@)) {
                (Ok(out), Ok(expected)) => out@.len() == self.row_ids().len() && (self.joinable(
                    name@,
                ) ==> out@ == expected),
                (Err(e), Err(expected)) => e == expected,
                _ => false,
            },
            r is Ok && name@ != self.primary_name() ==> forall|i: int|
                0 <= i < r->Ok_0@.len() && (#[trigger] r->Ok_0@[i]) is Some ==> exists|j: int|
                    0 <= j < self.components()[name@].row_ids().len()
                        && #[trigger] self.components()[name@].row_ids()[j] == self.row_ids()[i]
                        && self.components()[name@].typed::<T>()[j] == r->Ok_0@[i],
    {
        proof {
            use_type_invariant(self);
        }
        let owned: String = name.to_owned();
        if *self.primary.name() == owned {
            proof {
                self.primary.lemma_wf();
            }
            self.primary.iter_values::<T>()
        } else {
            match self.find(&owned) {
                Some(slot) => {
                    proof {
                        self.lemma_slot(slot as int);
                    }
                    self.batches[slot].iter_joined::<T>(self.primary.ids())
                },
                None => Err(QueryError::ComponentNotFound),
            }
        }
    }

    /// What a visit passes as the primary value of each row: the primary
    /// values read as `T`, every one of which has to be readable.
    pub open spec fn spec_primary_values<T: Component>(&self) -> Result<Seq<T>, QueryError> {
        if self.primary().component_name() == T::spec_name() && all_readable(
            self.primary().typed::<T>(),
        ) {
            Ok(unwrapped(self.primary().typed::<T>()))
        } else {
            Err(QueryError::TypeMismatch)
        }
    }

    /// The primary values read as `T`, each wrapped in `Some`.
    fn readable_primary<T: Component>(&self) -> (r: Result<Vec<Option<T>>, QueryError>)
        ensures
            match (r, self.spec_primary_values::<T>()) {
                (Ok(out), Ok(values)) => out@.len() == values.len() && values.len()
                    == self.row_ids().len() && forall|i: int|
                    0 <= i < values.len() ==> #[trigger] out@[i] == Some(values[i]),
                (Err(e), Err(expected)) => e == expected,
                _ => false,
            },
    {
        proof {
            use_type_invariant(self);
            self.primary.lemma_wf();
        }
        match self.primary.iter_values::<T>() {
            Ok(out) => {
                let mut i: usize = 0;
                while i < out.len()
                    invariant
                        i <= out@.len(),
                        out@ == self.primary().typed::<T>(),
                        self.primary().component_name() == T::spec_name(),
                        forall|k: int| 0 <= k < i ==> (#[trigger] out@[k]) is Some,
                    decreases out.len() - i,
                {
                    if out[i].is_none() {
                        return Err(QueryError::TypeMismatch);
                    }
                    i += 1;
                }
                Ok(out)
            },
            Err(e) => Err(e),
        }
    }

    /// Calls `visit` once for each row of the view, in row order, with the
    /// identifier of the row and its primary value, and returns what the
    /// calls returned, in row order.
    ///
    /// Fails with `TypeMismatch`, before any call, where the primary
    /// component stores another type than `T` or a row of it cannot be read
    /// as a `T`.
    pub fn visit1<T: Component, R, F: FnMut(InstanceKey, T) -> R>(&self, visit: F) -> (r: Result<
        Vec<R>,
        QueryError,
    >)
        requires
            forall|key: InstanceKey, value: T| call_requires(visit, (key, value)),
        ensures
            match (r, self.spec_primary_values::<T>()) {
                (Ok(out), Ok(values)) => out@.len() == self.row_ids().len() && values.len()
                    == self.row_ids().len() && forall|i: int|
                    0 <= i < values.len() ==> call_ensures(
                        visit,
                        (self.row_ids()[i], values[i]),
                        #[trigger] out@[i],
                    ),
                (Err(e), Err(expected)) => e == expected,
                _ => false,
            },
    {
        let mut visit = visit;
        let ghost visit0 = visit;
        let mut firsts: Vec<Option<T>> = match self.readable_primary::<T>() {
            Ok(firsts) => firsts,
            Err(e) => {
                return Err(e);
            },
        };
        let ghost values = self.spec_primary_values::<T>()->Ok_0;
        let n: usize = firsts.len();
        let mut out: Vec<R> = Vec::with_capacity(n);
        let mut i: usize = 0;
        while i < n
            invariant
                i <= n == firsts@.len(),
                n == values.len(),
                n == self.row_ids().len(),
                out@.len() == i,
                visit == visit0,
                forall|key: InstanceKey, value: T| call_requires(visit0, (key, value)),
                forall|k: int| i <= k < n ==> #[trigger] firsts@[k] == Some(values[k]),
                forall|k: int|
                    0 <= k < i ==> call_ensures(
                        visit0,
                        (self.row_ids()[k], values[k]),
                        #[trigger] out@[k],
                    ),
            decreases n - i,
        {
            let key: InstanceKey = self.primary.row_id_at(i);
            let first: Option<T> = firsts[i].take();
            match first {
                Some(value) => {
                    let returned: R = visit(key, value);
                    out.push(returned);
                },
                None => {
                    assert(false);
                },
            }
            i += 1;
        }
        Ok(out)
    }

    /// What a visit of two components passes for each row where the
    /// secondary is joinable: the primary values and, aligned to them, the
    /// values of the secondary that goes by the name of `U`.
    pub open spec fn spec_rows2<T: Component, U: Component>(&self) -> Result<
        (Seq<T>, Seq<Option<U>>),
        QueryError,
    > {
        match self.spec_primary_values::<T>() {
            Err(e) => Err(e),
            Ok(firsts) => match self.spec_component::<U>(U::spec_name()) {
                Err(e) => Err(e),
                Ok(seconds) => Ok((firsts, seconds)),
            },
        }
    }

    /// Calls `visit` once for each row of the view, in row order, with the
    /// identifier of the row, its primary value and the value that the
    /// component named after `U` has for the row, if it has one; returns what
    /// the calls returned, in row order.
    ///
    /// Fails before any call: as `visit1` does for the primary; else with
    /// `ComponentNotFound` where the view has no component named after `U`,
    /// and with `TypeMismatch` where that component stores another type.
    pub fn visit2<T: Component, U: Component, R, F: FnMut(InstanceKey, T, Option<U>) -> R>(
        &self,
        visit: F,
    ) -> (r: Result<Vec<R>, QueryError>)
        requires
            forall|key: InstanceKey, first: T, second: Option<U>|
                call_requires(visit, (key, first, second)),
        ensures
            match (r, self.spec_rows2::<T, U>()) {
                (Ok(out), Ok((firsts, seconds))) => out@.len() == self.row_ids().len() && (
                self.joinable(U::spec_name()) ==> forall|i: int|
                    0 <= i < out@.len() ==> call_ensures(
                        visit,
                        (self.row_ids()[i], firsts[i], seconds[i]),
                        #[trigger] out@[i],
                    )),
                (Err(e), Err(expected)) => e == expected,
                _ => false,
            },
    {
        let mut visit = visit;
        let ghost visit0 = visit;
        let mut firsts: Vec<Option<T>> = match self.readable_primary::<T>() {
            Ok(firsts) => firsts,
            Err(e) => {
                return Err(e);
            },
        };
        let second_name: String = U::name();
        let mut seconds: Vec<Option<U>> = match self.iter_component::<U>(second_name.as_str()) {
            Ok(seconds) => seconds,
            Err(e) => {
                return Err(e);
            },
        };
        let ghost values = self.spec_primary_values::<T>()->Ok_0;
        let ghost others = seconds@;
        let n: usize = firsts.len();
        let mut out: Vec<R> = Vec::with_capacity(n);
        let mut i: usize = 0;
        while i < n
            invariant
                i <= n == firsts@.len(),
                n == values.len(),
                n == self.row_ids().len(),
                n == seconds@.len(),
                n == others.len(),
                out@.len() == i,
                visit == visit0,
                forall|key: InstanceKey, first: T, second: Option<U>|
                    call_requires(visit0, (key, first, second)),
                forall|k: int| i <= k < n ==> #[trigger] firsts@[k] == Some(values[k]),
                forall|k: int| i <= k < n ==> #[trigger] seconds@[k] == others[k],
                forall|k: int|
                    0 <= k < i ==> call_ensures(
                        visit0,
                        (self.row_ids()[k], values[k], others[k]),
                        #[trigger] out@[k],
                    ),
            decreases n - i,
        {
            let key: InstanceKey = self.primary.row_id_at(i);
            let first: Option<T> = firsts[i].take();
            let second: Option<U> = seconds[i].take();
            match first {
                Some(value) => {
                    let returned: R = visit(key, value, second);
                    out.push(returned);
                },
                None => {
                    assert(false);
                },
            }
            i += 1;
        }
        Ok(out)
    }

    /// What a visit of three components passes for each row where both
    /// secondaries are joinable: the primary values and, aligned to them, the
    /// values of the secondaries that go by the names of `U` and of `V`.
    pub open spec fn spec_rows3<T: Component, U: Component, V: Component>(&self) -> Result<
        (Seq<T>, Seq<Option<U>>, Seq<Option<V>>),
        QueryError,
    > {
        match self.spec_rows2::<T, U>() {
            Err(e) => Err(e),
            Ok((firsts, seconds)) => match self.spec_component::<V>(V::spec_name()) {
                Err(e) => Err(e),
                Ok(thirds) => Ok((firsts, seconds, thirds)),
            },
        }
    }

    /// Calls `visit` once for each row of the view, in row order, with the
    /// identifier of the row, its primary value and the values that the
    /// components named after `U` and after `V` have for the row, where they
    /// have one; returns what the calls returned, in row order.
    ///
    /// Fails before any call: as `visit2` does for the primary and the
    /// component named after `U`; else in the same way for the component
    /// named after `V`.
    pub fn visit3<
        T: Component,
        U: Component,
        V: Component,
        R,
        F: FnMut(InstanceKey, T, Option<U>, Option<V>) -> R,
    >(&self, visit: F) -> (r: Result<Vec<R>, QueryError>)
        requires
            forall|key: InstanceKey, first: T, second: Option<U>, third: Option<V>|
                call_requires(visit, (key, first, second, third)),
        ensures
            match (r, self.spec_rows3::<T, U, V>()) {
                (Ok(out), Ok((firsts, seconds, thirds))) => out@.len() == self.row_ids().len() && (
                self.joinable(U::spec_name()) && self.joinable(V::spec_name()) ==> forall|i: int|
                    0 <= i < out@.len() ==> call_ensures(
                        visit,
                        (self.row_ids()[i], firsts[i], seconds[i], thirds[i]),
                        #[trigger] out@[i],
                    )),
                (Err(e), Err(expected)) => e == expected,
                _ => false,
            },
    {
        let mut visit = visit;
        let ghost visit0 = visit;
        let mut firsts: Vec<Option<T>> = match self.readable_primary::<T>() {
            Ok(firsts) => firsts,
            Err(e) => {
                return Err(e);
            },
        };
        let second_name: String = U::name();
        let mut seconds: Vec<Option<U>> = match self.iter_component::<U>(second_name.as_str()) {
            Ok(seconds) => seconds,
            Err(e) => {
                return Err(e);
            },
        };
        let third_name: String = V::name();
        let mut thirds: Vec<Option<V>> = match self.iter_component::<V>(third_name.as_str()) {
            Ok(thirds) => thirds,
            Err(e) => {
                return Err(e);
            },
        };
        let ghost values = self.spec_primary_values::<T>()->Ok_0;
        let ghost others = seconds@;
        let ghost lasts = thirds@;
        let n: usize = firsts.len();
        let mut out: Vec<R> = Vec::with_capacity(n);
        let mut i: usize = 0;
        while i < n
            invariant
                i <= n == firsts@.len(),
                n == values.len(),
                n == self.row_ids().len(),
                n == seconds@.len(),
                n == others.len(),
                n == thirds@.len(),
                n == lasts.len(),
                out@.len() == i,
                visit == visit0,
                forall|key: InstanceKey, first: T, second: Option<U>, third: Option<V>|
                    call_requires(visit0, (key, first, second, third)),
                forall|k: int| i <= k < n ==> #[trigger] firsts@[k] == Some(values[k]),
                forall|k: int| i <= k < n ==> #[trigger] seconds@[k] == others[k],
                forall|k: int| i <= k < n ==> #[trigger] thirds@[k] == lasts[k],
                forall|k: int|
                    0 <= k < i ==> call_ensures(
                        visit0,
                        (self.row_ids()[k], values[k], others[k], lasts[k]),
                        #[trigger] out@[k],
                    ),
            decreases n - i,
        {
            let key: InstanceKey = self.primary.row_id_at(i);
            let first: Option<T> = firsts[i].take();
            let second: Option<U> = seconds[i].take();
            let third: Option<V> = thirds[i].take();
            match first {
                Some(value) => {
                    let returned: R = visit(key, value, second, third);
                    out.push(returned);
                },
                None => {
                    assert(false);
                },
            }
            i += 1;
        }
        Ok(out)
    }
}

} // verus!
