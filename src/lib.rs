//! Authentication and session bookkeeping for the deepwell service: an
//! append-only audit log of login attempts, the sessions they authorize, the
//! user directory and credentials they are checked against, and the admission
//! rule that bounds how many remote calls run at once.

pub mod dispatch;
pub mod error;
pub mod laws;
pub mod server;
pub mod session;

pub use dispatch::{ping, protocol, DispatchState, Dispatcher, MAX_PARALLEL_REQUESTS, PROTOCOL_VERSION};
pub use error::Error;
pub use session::{
    AttemptRecord, LoginAttempt, LoginAttemptId, Session, SessionId, SessionManager,
    SessionRecord, Timestamp, UserId,
};
pub use server::{Server, ServerState, User, UserMetadata, UserRecord};
