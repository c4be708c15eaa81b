//! A typed client core for a remote calendar service's REST API.
//!
//! The library decides everything about an outgoing call that does not need
//! the network: the target URL of a request descriptor, the headers of the
//! request (with the bearer token always present exactly once), which verbs
//! carry a body, the diagnostic trace line, and how a transport's answer is
//! classified (success, expired token, or transport failure).

pub mod client;
pub mod resources;
pub mod sendable;
pub mod text;
pub mod wire;

pub use client::{classify, ClientError, GCalClient, Method, OutgoingRequest};
pub use resources::{CalendarAccessRole, SendUpdates};
pub use sendable::{RequestDescriptor, API_ROOT};
pub use wire::to_request;
