//! Decision core of a desktop client that shares files over Quick Share.
pub mod devices;
pub mod figures;
pub mod filename;
pub mod laws;
pub mod session;
pub mod startup;
pub mod text;
pub mod transfer;
pub mod ui;
