//! Schema-conformance validation for a graph-structured resource store.
//!
//! A store holds resources: a subject each, with (property, value) pairs.
//! Properties declare a datatype, classes declare required properties.
//! [`validate_store`] walks every resource and collects all that is wrong in
//! one [`ValidationReport`].

pub mod laws;
pub mod model;
pub mod render;
pub mod store;
pub mod storelike;
pub mod validate;
pub mod values;

pub use model::{Atom, Class, Property, Resource};
pub use store::Store;
pub use storelike::Storelike;
pub use validate::{validate_store, ValidationReport};
pub use values::{DataType, Value};
