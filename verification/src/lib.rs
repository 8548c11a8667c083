//! Generation of auto-incrementing unique IDs over a bounded, ordered domain.
//!
//! A [`Factory`] hands out values of a domain type one at a time, never issues
//! a value that is currently live, lets values be released for reuse, and lets
//! values be claimed out of band. Built-in domains are provided for the
//! fixed-width integer types; any type implementing [`Aictable`] can plug in.
//!
//! The factory is a plain mutable value with a single owner: it performs no
//! internal synchronization, so callers in a multi-threaded host must wrap it
//! in their own mutual exclusion or confine it to one task.

mod aictable;
mod builder;
mod error;
mod factory;

pub use aictable::Aictable;
pub use builder::FactoryBuilder;
pub use error::Error;
pub use factory::Factory;
