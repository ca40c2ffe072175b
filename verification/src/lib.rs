//! Joins sparse, independently indexed component batches into per-row views
//! of one entity, and issues the time-ordered identifiers that tag stored rows.

pub mod batch;
pub mod component;
pub mod entity_view;
pub mod error;
pub mod join;
pub mod laws;
pub mod row_ids;
pub mod tuid;

pub use batch::ComponentWithInstances;
pub use component::{ColorRGBA, Component, Point2D};
pub use entity_view::EntityView;
pub use error::QueryError;
pub use row_ids::{InstanceKey, RowIds};
pub use tuid::{Clock, Tuid, TuidContext, TuidError};
