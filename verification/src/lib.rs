//! Core of a peer-to-peer file synchronisation daemon: the wire codec, the
//! delta engine, the metadata store, path mapping and the session state
//! machines. The store keeps its data in a `sled` database and the delta
//! engine calls `fast_rsync`; nothing else here touches files or sockets.
//! A driver performs the effects that the state machines ask for.

pub mod varint;
pub mod wire;
pub mod protocol;
pub mod sync_utils;
pub mod peer;
pub mod records;
pub mod store;
pub mod paths;
pub mod watcher;
pub mod sync_manager;
pub mod session;
pub mod pull;
pub mod iroh_utils;
