//! Event-stream broker and read-model materializer.
//!
//! Domain events are encoded as flat field/value lists (`codec`), appended to
//! durable topic streams (`transport`, `broker`), consumed through consumer
//! groups by subscription workers (`worker`, `reply`, `subscriber`), and used
//! as triggers to rebuild denormalized read-model rows from their normalized
//! sources (`readmodel`).
pub mod broker;
pub mod codec;
pub mod env;
pub mod error;
pub mod http;
pub mod paging;
pub mod readmodel;
pub mod reply;
pub mod subscriber;
pub mod text;
pub mod transport;
pub mod worker;
