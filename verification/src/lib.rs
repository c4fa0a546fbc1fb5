//! A piano-roll composer core: layered note events, the transport that
//! decides which notes sound at which tick, and the edit and selection
//! operations that change the notes.

pub mod catalog;
pub mod edit;
pub mod editor;
pub mod project;
pub mod selection;
pub mod transport;
