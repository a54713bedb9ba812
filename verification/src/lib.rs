//! Core of a peer-to-peer delivery marketplace: the delivery aggregate, its
//! status state machine, the courier reputation and earnings rules, and the
//! merge that rebuilds an aggregate from an unordered, replicated event log.
//!
//! The records are in [`model`], the events of the log in [`events`] and
//! [`codec`]. [`reconstruct`] and [`catalog`] rebuild deliveries and
//! profiles from events; [`machine`] and [`reputation`] change them;
//! [`service`] and [`clock`] put both together for a backend on the log, and
//! [`memory`] for a backend in one process. What holds of all of it is
//! proved in [`merge_laws`], [`bid_laws`] and [`overlay_laws`].

pub mod arrangement;
pub mod bid_laws;
pub mod catalog;
pub mod clock;
pub mod codec;
pub mod events;
pub mod machine;
pub mod memory;
pub mod merge_laws;
pub mod model;
pub mod ordering;
pub mod overlay_laws;
pub mod reconstruct;
pub mod reputation;
pub mod service;
pub mod status;
pub mod text;

pub use model::{
    DeliveryBid, DeliveryRequest, GeoPoint, Location, PackageInfo, ProofOfDelivery, StatusUpdate,
    UserProfile,
};
pub use reputation::calculate_new_reputation;
pub use status::DeliveryStatus;
