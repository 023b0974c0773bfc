//! Core engine of a recorded audio/video replay server: framing of the
//! recorded byte stream, the one-time join-point skip policy, and the
//! real-time pacing decisions for delivery.

pub mod content;
pub mod frame;
pub mod session;
pub mod skip;

pub use content::ContentKind;
pub use frame::Frame;
pub use frame::FrameKind;
pub use frame::StreamError;
pub use session::FrameAction;
pub use session::PlaybackSession;
