//! The end-to-end encryption protocol (DAVE): what is asked of the encryption session and
//! what is told to the gateway.

pub mod coordinator;
pub mod epoch;
pub mod identity;
pub mod laws;
pub mod pump;
pub mod run;
pub mod status;

pub use coordinator::{
    decrypting_user, CoordinatorView, DaveCoordinator, DavePassthroughController,
    PassthroughMode,
};
pub use epoch::{
    DaveGatewayStateEvent, DaveKeyPackageEvent, DaveKeyPackageScope, DavePreparedEpoch,
    DaveIgnoredProposalsEvent, DaveProposalsEvent, DaveTransitionEvent,
};
pub use identity::{DaveIdentityCache, DaveIdentityKey, IdentityKeyPersistence};
pub use pump::{DaveAnswer, DaveEvent, DavePump, DavePumpStage, DaveRequest, DaveStep};
pub use status::{DaveMediaStatus, DaveProposalsOperation, ProposalsOperation};
