//! The provider abstraction and the engine that combines providers.
pub mod cache;
pub mod combine;
pub mod combo;
pub mod combo_enhanced;
pub mod common;
pub mod homebrew;
pub mod keys;
