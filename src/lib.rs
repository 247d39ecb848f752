//! A liveness-gated inheritance vault: an owner registers a beneficiary and a
//! heartbeat interval; once the owner stays silent past that interval, the
//! beneficiary may claim the escrowed secret and trigger asset settlement.

pub mod gate;
pub mod identity;
pub mod liveness;
pub mod registry;
pub mod settlement;
pub mod vault;
