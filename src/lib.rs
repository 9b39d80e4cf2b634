//! Service orchestration for a block-builder relay: the configuration, the
//! bootstrap sequence, the slot clock and the slot-to-epoch notification
//! logic, and the first-completion rule of the combined task handle.

pub mod bootstrap;
pub mod clock;
pub mod config;
pub mod handle;
pub mod service;
pub mod slot_loop;
pub mod types;

pub use bootstrap::{Action, Bootstrap, BootstrapError, Event, Stage};
pub use clock::SlotClock;
pub use config::{Config, DEFAULT_PORT};
pub use service::{Service, ServiceError};
pub use handle::{select_first, TaskPoll};
pub use slot_loop::EpochTracker;

pub use types::{
    BuilderBidV1, ExecutionPayload, ProposalRequest, SignedBlindedBeaconBlock,
    ValidatorRegistrationV1,
};
