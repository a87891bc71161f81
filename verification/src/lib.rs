//! Ad blocking, tracker poisoning, audio focus and mpv player-control logic,
//! verified with Verus.
//!
//! - `adblock_config`: the ad-blocking configuration and its whitelist and filter lists.
//! - `adblock_engine`: the engine that loads filter lists and decides what to block.
//! - `adblock_stats`: blocking statistics and their text report.
//! - `percentage`: the blocked share as binary64 arithmetic shows it, in integers.
//! - `adblock_updater`: the decisions of the filter-list update service.
//! - `tracker_poisoning`: fake browser data for trackers.
//! - `media_traits`: media-instance IDs and the audio-focus registry.
//! - `mpv_events`, `mpv_player`: mpv events and the player thread's decisions.
//! - `text`: character-sequence helpers the others share.

pub mod adblock_config;
pub mod adblock_engine;
pub mod adblock_stats;
pub mod adblock_updater;
pub mod media_traits;
pub mod mpv_backend;
pub mod mpv_events;
pub mod mpv_player;
pub mod percentage;
pub mod text;
pub mod tracker_poisoning;
