//! Broker for a home-automation hub: device identities, the binary frame
//! protocol spoken with devices, per-device sessions with single in-flight
//! command correlation, the session registry, and the dispatch front door.

pub mod auth;
pub mod broker;
pub mod codec;
pub mod error;
pub mod frame;
pub mod ids;
pub mod intent;
pub mod registry;
pub mod scan;
pub mod session;
pub mod token;

pub use auth::LoginCommand;
pub use broker::{parse_authorization_header, AuthError, Broker, Delivery};
pub use codec::{decode, DecodeOutcome};
pub use error::Error;
pub use frame::{Command, Frame, Opcode, ResponseCode};
pub use ids::{ClientID, DeviceID, DevicePassword, CLIENT_ID_SIZE};
pub use intent::{QueryPayload, QueryPayloadDevice};
pub use registry::Registry;
pub use session::{CommandOutcome, DispatchError, Session, SessionState};
