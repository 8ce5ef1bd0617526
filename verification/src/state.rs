//! The state of a voice connection.

pub mod config;
pub mod connection;
pub mod dave;
pub mod mode;
pub mod order;
pub mod pending;
pub mod receive;
pub mod retry;
pub mod session;
pub mod sources;
pub mod ssrc;

pub use config::{
    ConnectionCodecPreferences, ConnectionConfig, ConnectionIdentity, ConnectionInfo,
    ConnectionOptions, ConnectionRequest, ConnectionRuntimeConfig, ConnectionSecrets,
    ConnectionTuning, ValidatedConnectionConfig, ValidatedConnectionOptions,
};
pub use connection::{ConnectionInternalState, ConnectionState};
pub use dave::{
    DaveInternalState, DaveMlsMessageIdentity, DaveMlsMessageKind, DaveMlsSlots, DaveMlsState,
    DavePendingMlsState, DaveState, PendingDaveMlsMessage,
};
pub use mode::{EncryptionMode, OfferedEncryptionMode};
pub use pending::{PendingMediaFrame, PendingMediaPacket};
pub use receive::PendingDaveMediaQueues;
pub use retry::{DavePendingMediaBucket, DavePendingMediaRetry};
pub use sources::ReceiveState;
pub use ssrc::{MissingRtpPacket, ReceiveSsrcState};
pub use session::{SessionDescription, SessionDescriptionParts, SessionState};
