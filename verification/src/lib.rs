//! The service-discovery bridge of a small desktop browser for network services.
//!
//! A discovery worker forwards what it finds through a channel to an ingest task,
//! which appends it to an observable store; a timer task feeds a store of its own.

pub mod action;
pub mod bridge;
pub mod ingest;
pub mod menu;
pub mod session;
pub mod store;
pub mod timer;
pub mod worker;
