//! The actions that the library implements itself.

pub mod loopback;

pub use loopback::LoopbackDetector;
pub mod rate_limiter;
pub mod telegram;

pub use rate_limiter::RateLimitAction;
pub use telegram::SendTelegramAction;
