//! Notification dispatch engine for the BlueRide ride-matching service.
//!
//! The library decodes a wire-format notification envelope, composes the
//! email that matches the notification's purpose, classifies the outcome of
//! a send attempt, and decides how the queue message must be acknowledged.
//! All queue and SMTP traffic is left to the surrounding binary; everything
//! that decides or computes lives here, verified.

pub mod dispatch;
pub mod envelope;
pub mod instant;
pub mod text;
pub mod wire;
pub mod decode;
pub mod encode;
pub mod laws;
pub mod compose;
