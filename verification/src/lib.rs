//! Reference-counted lifetime management for values attached to an owner.
//!
//! A resource is named by a [`RefCompHandleId`]: an owner and a type tag.
//! Strong handles keep it alive. Every strong handle that comes to be sends an
//! increment over a channel, and every one that goes away sends a decrement.
//! Once per tick the sweep drains the channel into the count table and hands
//! back what the host has to destroy.
//!
//! The host stays outside: owners are named by the bits of their identifier,
//! resource types by a tag, and what constructs, edits or destroys a resource
//! is handed in by the host and handed back when it is due.
//!
//! - [`key`]: keys and count changes.
//! - [`model`], [`conservation`], [`lifecycle`]: the count table as
//!   mathematics, and what follows for counts and handles.
//! - [`counts`], [`registry`], [`channel`]: the table, the registry and the
//!   channel of a manager.
//! - [`handle`]: strong and weak handles.
//! - [`insert`], [`builder`]: construct a resource once, edit it where it
//!   exists.
//! - [`server`]: the manager and the sweep.

pub mod builder;
pub mod channel;
pub mod conservation;
pub mod counts;
pub mod handle;
pub mod insert;
pub mod key;
pub mod lifecycle;
pub mod model;
pub mod plugin;
pub mod registry;
pub mod server;

pub use builder::{RefCompBuilder, RefCompBuilderExt};
pub use counts::RefCounts;
pub use handle::{RefCompHandle, RefCompHandleUntyped};
pub use insert::{FromWorldFactory, InsertCommand, InsertStep};
pub use key::{ChangeView, KeyView, RefChange, RefCompHandleId};
pub use plugin::{DespawnStage, RefCompPlugin};
pub use registry::{Despawn, SpawnerRegistry};
pub use server::RefCompServer;
