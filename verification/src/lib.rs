//! Verified core of the Wormhole desktop shell: formatting, merge and
//! navigation rules that the UI layer renders.

pub mod text;
pub mod find;
pub mod clock;
pub mod prefs;
pub mod messages;
pub mod asset_map;
pub mod share_nav;
pub mod cluster;
pub mod sizes;
pub mod workspace;
pub mod sidebar;
pub mod calls;
pub mod clipboard;
pub mod layout;
pub mod update;
pub mod device_gate;
pub mod cron;
pub mod sticker;
pub mod thread;
pub mod calendar;
pub mod devices;
pub mod format_laws;
pub mod laws;
pub mod agent_pair;
pub mod sidebar_flow;
pub mod share_listing;
pub mod search_results;
pub mod provision;
