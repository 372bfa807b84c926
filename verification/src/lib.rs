//! Multi-session display compositor host: verified core logic.
//!
//! The crate models the state that coordinates client buffer lifecycles,
//! display hot-plug, and session presentation, together with the wire
//! framing of the control socket and the session registry.

pub mod assoc;
pub mod client_abi;
pub mod cursor_sync;
pub mod decimal;
pub mod events;
pub mod framing;
pub mod input_config;
pub mod keys;
pub mod model;
pub mod monitor_render;
pub mod output;
pub mod presenter;
pub mod rendering_layer;
pub mod session_registry;
