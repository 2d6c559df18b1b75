//! Verified core of the Odilia screen reader: keyboard handling, key binding parsing,
//! role sets and the accessibility cache.

pub mod atspi_types;
pub mod role_set;
pub mod events;
pub mod keys;
pub mod modes;
pub mod keyboard;
pub mod key_order;
pub mod keyboard_laws;
pub mod text;
pub mod input;
pub mod interfaces;
pub mod states;
pub mod accessible;
pub mod errors;
pub mod cache_item;
pub mod tree;
pub mod cache;
pub mod relations;
pub mod event_handlers;
pub mod cache_laws;
pub mod command;
pub mod settings;
pub mod types;
pub mod navigation;
pub mod paths;
