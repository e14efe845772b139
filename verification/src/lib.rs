//! Obfuscation of HTTP bodies, with replay protection and built-in compression.
//!
//! A frame is `MAGIC` and the raw-deflate payload, encoded with a keyed byte
//! codec (`frame`, `codec`). The key travels in a header, as decimal text
//! (`headers`, `key_text`). A key of a request can be used once: two bitsets
//! that take turns remember the used keys (`state`), and `replay` says what they
//! promise over time. `service` decides what becomes of a request and of a
//! response. `prng` is the generator behind the codec's tables and the response
//! keys, and `host` is what the machine provides.

pub mod codec;
pub mod frame;
pub mod headers;
pub mod host;
pub mod key_text;
pub mod prng;
pub mod replay;
pub mod service;
pub mod state;

pub use codec::{decode_body, encode_body, Codec};
pub use frame::{decode_frame, encode_frame};
pub use headers::{with_cors, KEY_HEADER};
pub use host::SeedError;
pub use service::MAX_BODY_LEN;
pub use state::XorState;
