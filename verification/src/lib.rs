//! Server-side core of the SockJS protocol: the frame alphabet and its
//! per-transport wire encodings, the session outbox with message coalescing,
//! the session-manager state machine (acquire / release / deliver /
//! broadcast / expiry sweep), the transport event loop, the endpoint
//! dispatcher, and the HTTP header policies (CORS, caching, cookies).

pub mod codec;
pub mod dispatch;
pub mod headers;
pub mod iframe;
pub mod info;
pub mod json;
pub mod manager;
pub mod outbox;
pub mod protocol;
pub mod sendapi;
pub mod transport;
