//! Core of a plugin-hosting bot runtime speaking the OneBot v11 protocol.
//!
//! The crate models inbound JSON frames, classifies them, deserializes them
//! into typed event records, fans events out to plugin listeners with
//! per-frame memoization, correlates API replies by echo, and manages
//! plugin enable/disable state and shutdown.

pub mod access;
pub mod api;
pub mod cq;
pub mod dispatch;
pub mod driver;
pub mod exit;
pub mod event;
pub mod json;
pub mod lifecycle_event;
pub mod message;
pub mod msg_event;
pub mod notice_event;
pub mod plugin;
pub mod request_event;
pub mod strutil;
pub mod utils;

pub use api::{ApiReturn, Correlator, SendApi};
pub use json::JsonValue;
pub use lifecycle_event::LifecycleEvent;
pub use message::{Message, Segment};
pub use msg_event::MsgEvent;
pub use notice_event::NoticeEvent;
pub use plugin::{Plugin, PluginSet};
pub use request_event::RequestEvent;
