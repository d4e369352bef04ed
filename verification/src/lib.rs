//! An immutable map from text keys to values, addressed through a minimal
//! perfect hash function built once over the key set.

pub mod index;
pub mod init_vec;
pub mod laws;
pub mod map;
pub mod oracle;
pub mod placement;
pub mod store;

pub use index::{FrozenIndex, KeyStorage, NoKeys, UnverifiedIndex, VerifiedIndex, WithKeys};
pub use init_vec::InitVec;
pub use map::FrozenMap;
pub use store::Store;
