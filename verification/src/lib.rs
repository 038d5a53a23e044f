//! A pluggable-authentication policy engine: a per-service configuration is
//! compiled into ordered chains of handler entries, and a dispatch walk over a
//! chain combines the individual module outcomes into one final decision.

pub mod codes;
pub mod strutil;
pub mod tokenize;
pub mod control;
pub mod delay;
pub mod env;
pub mod session;
pub mod dispatch;
pub mod ops;
pub mod laws;
pub mod line;
pub mod handlers;
pub mod start;
pub mod data;
pub mod items;
pub mod strerror;
pub mod modutil;
pub mod zeroize_wrap;
