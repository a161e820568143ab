//! HTIP: a signed, self-describing binary wire format for describing and
//! mutating a hierarchical UI tree, together with its encoder, decoder,
//! signature-verification pipeline and versioned delta-patching layer.

mod bytes;
pub mod codec;
pub mod config;
pub mod crypto;
pub mod delta;
pub mod dispatch;
pub mod memory;
pub mod opwire;
pub mod packet;
pub mod patchwire;
pub mod protocol;
pub mod scan;
pub mod serverdelta;
pub mod ssr;
pub mod store;
pub mod stream;
pub mod strtab;
pub mod tmpltab;
pub mod wire;
