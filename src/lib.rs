//! A fixed-size worker pool's protocol: the shared dispatch queue, the
//! worker's reaction to each directive, and the pool's roster of workers;
//! and the radar map that the pool's host program animates.
pub mod dispatch;
pub mod radar;
pub mod request;
pub mod roster;
pub mod worker;

pub use dispatch::Message;
