//! Lock-step traversal of component storages.
//!
//! A storage that can take part in a join reports a presence [`Mask`] and
//! hands out its data index by index. Joins of several storages range over
//! the intersection of their masks; [`MaybeJoin`] lets a storage take part
//! without narrowing that range.

pub mod join;
pub mod world;

pub use join::dense::DenseStorage;
pub use join::drive::{get_each, join_collect, mask_indices, par_get_each};
pub use join::mask::{Index, Mask};
pub use join::maybe::MaybeJoin;
pub use join::{Join, Joinable, ParJoin};
pub use world::compinfo::{ComponentInfo, ComponentInfoTable};
