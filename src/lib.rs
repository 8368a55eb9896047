//! Hotkey cycles and equipment sets for a game HUD: the data model, the
//! persisted byte format, the entry cache and the event-driven controller.

pub mod cache;
pub mod codec;
pub mod controller;
pub mod cycles;
pub mod data;
pub mod equipsets;
pub mod facade;
pub mod icons;
pub mod numbers;
pub mod slot;
pub mod wire;
