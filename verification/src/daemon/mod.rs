//! What the daemon observes, renders and decides.
pub mod builder;
pub mod calendar;
pub mod machine;
pub mod net;
pub mod nft;
pub mod observe;
pub mod ops;
pub mod qemu;
pub mod render;
pub mod server;
pub mod store;
pub mod sightings;
