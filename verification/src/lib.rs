//! A permissioned cryptocurrency node core: a replicated entry log with
//! conflict-resolving commit, a block-by-block chain state engine with a
//! dynamic fee policy, and a canonical transaction codec.

pub mod asset;
pub mod block;
pub mod chain;
pub mod constants;
pub mod crypto;
pub mod log;
pub mod net;
pub mod script;
pub mod serializer;
pub mod tx;
pub mod util;

pub use asset::{Asset, AssetError, AssetErrorKind};
