//! A run-time dependency-injection container.
//!
//! Constructors are registered under the identity of the type they produce,
//! together with the ordered list of the types they depend on. The registry
//! resolves a type by first resolving its dependencies, in declaration order,
//! and then running the constructor. A validator checks ahead of time that no
//! dependency is missing and that the dependencies form no cycle.

pub mod cycle_detection;
pub mod dependable;
pub mod dependencies;
pub mod dependency_builder;
pub mod error;
mod sealed;
pub mod model;
pub mod object_builder;
pub mod registry;
pub mod types;
pub mod type_index;
pub mod graph;

pub use dependencies::Ref;
pub use dependencies::Singleton;
pub use dependencies::Transient;
pub use registry::Registry;
