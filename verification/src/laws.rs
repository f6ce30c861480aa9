//! What the parts of the library are for, stated of every input in terms of the
//! input itself: characters, numbers and fields.
pub mod calls;
pub mod devices;
pub mod figures;
pub mod filename;
pub mod startup;
pub mod text;
pub mod transfer;
pub mod ui;
