//! A live-stream remuxer: it turns an FLV byte stream into per-subscriber FLV
//! streams, rebasing timestamps so that every subscriber's stream starts at zero
//! and begins with the stream header, the script tag and the codec configuration
//! records.

pub mod flv;
pub mod subscriber;
pub mod remuxer;
pub mod transcoder;
pub mod manager;
pub mod request;

pub use manager::RemuxManager;
pub use remuxer::{Remuxer, RemuxerState};
pub use subscriber::Message;
pub use transcoder::{OptionItem, TranscoderOptions};
