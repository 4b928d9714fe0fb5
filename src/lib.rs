//! Browsing sequences of images packed into indexed container files: the
//! container format, navigation across entries and containers, and the grid
//! selection model with its layout arithmetic.
pub mod file_container;
pub mod layout;
pub mod selector;
pub mod state;
pub mod viewer;
