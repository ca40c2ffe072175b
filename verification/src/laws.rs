//! What holds of every batch and every view, stated over the models that the
//! contracts of the library use.

use vstd::prelude::*;
use crate::batch::ComponentWithInstances;
use crate::component::{Component, all_present, lemma_restored_erased};
use crate::entity_view::{EntityView, all_readable};
use crate::error::QueryError;
use crate::row_ids::{InstanceKey, lemma_position_unique, strictly_ascending};

verus! {

/// A batch that stores the values `values` of type `T` reads back, as `T`,
/// exactly those values: as many, in the same order, every one present.
/// This holds of a dense batch and of one with identifiers of its own.
pub proof fn law_values_read_back<T: Component>(
    batch: ComponentWithInstances,
    keys: Option<Seq<InstanceKey>>,
    values: Seq<T>,
)
    requires
        batch.stores(keys, values),
    ensures
        batch.component_name() == T::spec_name(),
        batch.typed::<T>() == all_present(values),
        batch.typed::<T>().len() == values.len(),
        batch.row_ids().len() == values.len(),
        values.len() <= usize::MAX,
        forall|i: int| 0 <= i < values.len() ==> #[trigger] batch.typed::<T>()[i] == Some(values[i]),
{
    lemma_restored_erased(values);
    batch.lemma_wf();
}

/// Reading a secondary component through a view gives, at each row of the
/// view, the secondary's value for the identifier of that row where the
/// secondary has a row of that identifier, and `None` where it has none.
///
/// It holds wherever the identifiers of the primary and those of the
/// secondary are strictly ascending, and the secondary stores the values
/// `values` of type `T`.
pub proof fn law_join_by_identifier<T: Component>(
    view: EntityView,
    name: Seq<char>,
    keys: Option<Seq<InstanceKey>>,
    values: Seq<T>,
)
    requires
        view.wf(),
        view.components().dom().contains(name),
        view.components()[name].stores(keys, values),
        strictly_ascending(view.row_ids()),
        strictly_ascending(view.components()[name].row_ids()),
    ensures
        view.joinable(name),
        view.spec_component::<T>(name) is Ok,
        ({
            let out = view.spec_component::<T>(name)->Ok_0;
            let primary = view.row_ids();
            let secondary = view.components()[name].row_ids();
            &&& out.len() == primary.len()
            &&& secondary.len() == values.len()
            &&& forall|i: int|
                0 <= i < primary.len() ==> ((#[trigger] out[i]) is Some <==> secondary.contains(
                    primary[i],
                ))
            &&& forall|i: int, j: int|
                0 <= i < primary.len() && 0 <= j < secondary.len() && secondary[j] == primary[i]
                    ==> #[trigger] out[i] == Some(#[trigger] values[j])
        }),
{
    view.lemma_wf();
    let batch = view.components()[name];
    law_values_read_back(batch, keys, values);
    let out = view.spec_component::<T>(name)->Ok_0;
    let primary = view.row_ids();
    let secondary = batch.row_ids();
    assert forall|i: int, j: int|
        0 <= i < primary.len() && 0 <= j < secondary.len() && secondary[j] == primary[i] implies (
    #[trigger] out[i]) == Some(#[trigger] values[j]) by {
        lemma_position_unique(secondary, primary[i], j);
    }
    assert forall|i: int| 0 <= i < primary.len() implies ((#[trigger] out[i]) is Some
        <==> secondary.contains(primary[i])) by {
        if secondary.contains(primary[i]) {
            let j = secondary.index_of(primary[i]);
            lemma_position_unique(secondary, primary[i], j);
        }
    }
}

/// The primary component read through a view has a value at every row: the
/// values that the primary stores, in their order.
pub proof fn law_primary_always_present<T: Component>(
    view: EntityView,
    keys: Option<Seq<InstanceKey>>,
    values: Seq<T>,
)
    requires
        view.wf(),
        view.primary().stores(keys, values),
    ensures
        view.joinable(view.primary_name()),
        view.spec_component::<T>(view.primary_name()) == Ok::<Seq<Option<T>>, QueryError>(
            all_present(values),
        ),
        view.spec_primary_values::<T>() == Ok::<Seq<T>, QueryError>(values),
{
    law_values_read_back(view.primary(), keys, values);
    assert(view.spec_primary_values::<T>()->Ok_0 =~= values);
}

/// A visit passes the values that reading the components one by one yields:
/// at each row the primary's value, as reading the primary gives it, and for
/// the secondary what reading that secondary gives for the row.
///
/// A visit goes ahead exactly where the primary can be read as `T` with a
/// value at every row and the secondary can be read as `U`; where it does
/// not, it fails as the first of those readings that fails, an unreadable
/// row of the primary counting as a `TypeMismatch`.
pub proof fn law_visit_passes_component_values<T: Component, U: Component>(view: EntityView)
    requires
        view.wf(),
    ensures
        view.spec_primary_values::<T>() is Ok <==> view.spec_component::<T>(view.primary_name())
            is Ok && all_readable(view.spec_component::<T>(view.primary_name())->Ok_0),
        view.spec_primary_values::<T>() is Err ==> view.spec_primary_values::<T>()->Err_0
            == QueryError::TypeMismatch,
        match view.spec_rows2::<T, U>() {
            Ok((firsts, seconds)) => {
                &&& view.spec_component::<T>(view.primary_name()) == Ok::<
                    Seq<Option<T>>,
                    QueryError,
                >(all_present(firsts))
                &&& view.spec_component::<U>(U::spec_name()) == Ok::<Seq<Option<U>>, QueryError>(
                    seconds,
                )
                &&& firsts.len() == view.row_ids().len()
                &&& seconds.len() == view.row_ids().len()
            },
            Err(e) => if view.spec_primary_values::<T>() is Err {
                e == QueryError::TypeMismatch
            } else {
                view.spec_component::<U>(U::spec_name()) == Err::<Seq<Option<U>>, QueryError>(e)
            },
        },
{
    view.lemma_wf();
    view.primary().lemma_wf();
    if view.spec_rows2::<T, U>() is Ok {
        let firsts = view.spec_rows2::<T, U>()->Ok_0.0;
        assert(view.primary().typed::<T>() =~= all_present(firsts));
    }
}

/// Which reading of a component fails, and how: with `ComponentNotFound`
/// exactly where the view has no component of that name, with `TypeMismatch`
/// exactly where it has one that stores another type than the one asked for.
pub proof fn law_component_errors<T: Component>(view: EntityView, name: Seq<char>)
    requires
        view.wf(),
    ensures
        view.spec_component::<T>(name) == Err::<Seq<Option<T>>, QueryError>(
            QueryError::ComponentNotFound,
        ) <==> !view.has_component(name),
        view.spec_component::<T>(name) == Err::<Seq<Option<T>>, QueryError>(
            QueryError::TypeMismatch,
        ) <==> view.has_component(name) && (if name == view.primary_name() {
            view.primary()
        } else {
            view.components()[name]
        }).component_name() != T::spec_name(),
{
}

} // verus!
