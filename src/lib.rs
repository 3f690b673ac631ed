//! Block production, proposal streaming and storage logic of a data-availability
//! validator node, with its contracts proved.
pub mod crypto;
pub mod height;
pub mod value;
pub mod codec;
pub mod keys;
pub mod blob;
pub mod transaction;
pub mod pool;
pub mod error;
pub mod header;
pub mod block;
pub mod table;
pub mod proposal;
pub mod store;
pub mod streaming;
pub mod block_codec;
pub mod state;
pub mod context;
pub mod frieda;
pub mod rpc;
pub mod vote;
