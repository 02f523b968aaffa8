mod exponential;
mod fixed;
mod none;

pub use exponential::{backoff_after, backoff_step, cap_of, ExponentialBackoff, ExponentialBackoffWithCap};
pub use fixed::Fixed;
pub use none::NoDelay;
