//! Wire-protocol core for a VRPN-style peripheral network client/server:
//! buffer/unbuffer codec, message framing with alignment padding, cookie
//! handshake, sender/type translation tables, handler dispatch, and the
//! ping/pong liveness protocol.

pub mod bytes_buf;
pub mod cookie;
pub mod descriptions;
pub mod dispatcher;
pub mod endpoint;
pub mod error;
pub mod message;
pub mod ping;
pub mod primitives;
pub mod size;
pub mod tracker;
pub mod translation;
pub mod types;
pub mod unbuffer;

pub use cookie::CookieData;
pub use dispatcher::TypeDispatcher;
pub use endpoint::Endpoint;
pub use error::BufferUnbufferError;
pub use error::BytesRequired;
pub use message::GenericMessage;
pub use message::Message;
pub use size::MessageSize;
pub use tracker::PoseReport;
pub use translation::TranslationTable;
pub use unbuffer::Output;
