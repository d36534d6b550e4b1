//! Pack generation for a Git wire-protocol server: ref resolution, commit
//! ordering, delta selection and the composition of the packfile item stream,
//! over plain values that stand for what the repository answered.
//!
//! The handlers are in `pack`. They rest on the ref resolver (`refs`), the
//! commit set resolver (`commits`), the delta chooser (`delta`), the layout
//! of the items of a pack (`items`) and the base item provider (`provider`).
//! What holds of them on every repository is proved in `laws`.

pub mod bookmark;
pub mod buffer;
pub mod collections;
pub mod command;
pub mod commits;
pub mod delta;
pub mod error;
pub mod hash;
pub mod items;
pub mod laws;
pub mod manifest;
pub mod overrides;
pub mod pack;
pub mod provider;
pub mod refs;
pub mod repo;
pub mod service;
pub mod text;
pub mod types;
