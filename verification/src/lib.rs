//! Verified core of the lab suite: the logic of the suite's tools, proved with Verus.
pub mod text;
pub mod crypto;
pub mod history;
pub mod calc;
pub mod i18n;
pub mod theme;
pub mod config;
pub mod json;
pub mod clock;
pub mod vault;
pub mod totp;
pub mod poller;
pub mod controller;
pub mod prefs;
pub mod hub;
pub mod media;
pub mod player;
pub mod monitor;
pub mod img;
pub mod order;
pub mod quick;
pub mod tray;
