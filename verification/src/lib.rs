//! An M-of-N multisignature authorization engine for a shared treasury.
//!
//! A fixed registry of members, each holding one non-transferable badge,
//! jointly approves operations: any enabled member may propose an action,
//! and the action executes once enough distinct, currently-enabled members
//! have signed the identical proposal.
//!
//! The crate verifies the consensus core: how an operation is identified,
//! how votes accumulate and are deduplicated, how votes from since-disabled
//! members are purged, when the threshold fires, and how votes are
//! withdrawn.  The host around the engine performs credential verification,
//! asset movement and signal delivery, and feeds the engine plain values.

pub mod cosigner;
pub mod dao_wallet;
pub mod member;
pub mod operation;

pub use crate::cosigner::Cosigner;
pub use crate::cosigner::Cosigners;
pub use crate::dao_wallet::DaoWallet;
pub use crate::dao_wallet::Error;
pub use crate::dao_wallet::Outcome;
pub use crate::member::Member;
pub use crate::operation::NewOperationEvent;
pub use crate::operation::Operation;
pub use crate::operation::OperationExecutedEvent;
pub use crate::operation::OperationType;
