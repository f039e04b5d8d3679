//! Remote file browser core: entry formatting, glob matching, batched
//! listings, a resumable search walk, sorting, and the state reducer that
//! applies worker messages to the browser state.

pub mod model;
pub mod text;
pub mod perms;
pub mod glob;
pub mod timefmt;
pub mod message;
pub mod listing;
pub mod search;
pub mod sorting;
pub mod viewer;
pub mod paths;
pub mod transfer;
pub mod state;
pub mod saved;
