//! Verified core of the LumaWay ambient-light sync engine.
use vstd::prelude::*;

pub mod backend_probe;
pub mod bridge_api;
pub mod capture;
pub mod capture_profiles;
pub mod client;
pub mod color;
pub mod doctor;
pub mod dtls;
pub mod entertainment;
pub mod env_file;
pub mod error;
pub mod gui_flow;
pub mod gui_state;
pub mod hue_tls_pin;
pub mod i18n;
pub mod ordered;
pub mod outcome;
pub mod portal;
pub mod presets;
pub mod profile_env;
pub mod sync_loop;
pub mod sync_mode;
pub mod smoothing;
pub mod sync_settings;
pub mod sync_stats;
pub mod text;
pub mod tray;
pub mod user_messages;
pub mod validation;
pub mod window_replies;
pub mod window_settings;

verus! {
} // verus!
