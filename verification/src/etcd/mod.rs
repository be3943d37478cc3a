pub mod events;
pub mod key;
pub mod registry;
