//! A ZooKeeper wire-protocol codec for a proxy that sits between ZooKeeper
//! clients and a ZooKeeper server: the request and response records, their
//! big-endian encoding, the decoders on both sides of the proxy, the framing
//! of packets, and the routing decision the proxy takes for each request.

pub mod errors;
pub mod buffer;
pub mod codes;
pub mod model;
pub mod codec;
pub mod wire;
pub mod record;
pub mod parse;
pub mod framing;
pub mod packet;
pub mod laws;
pub mod layout;
pub mod server;
pub mod proto;
