//! Clinical note prescription directives: tokenizing, reconciling against a
//! medication store, and rendering the change history.

pub mod text;
pub mod directive;
pub mod store;
pub mod reconcile;
pub mod timeline;
pub mod report;
pub mod pipeline;
