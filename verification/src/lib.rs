//! Core logic of the Ottrin file manager: navigation state, transfer queue,
//! semantic file classification, the search query language and index rules,
//! privileged-helper request handling and preview planning.

pub mod text;
pub mod paths;
pub mod model;
pub mod navigation;
pub mod target;
pub mod transfer;
pub mod semantic;
pub mod query;
pub mod matchers;
pub mod ranking;
pub mod sorting;
pub mod pipeline;
pub mod indexer;
pub mod index_state;
pub mod content;
pub mod platform;
pub mod tabs;
pub mod preview;
pub mod locate;
pub mod store;
