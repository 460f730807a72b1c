//! The sidebar of a terminal workspace manager and the git facts it shows.
//!
//! `sidebar` lays out the sidebar, lists the agents and draws rows of tokens.
//! `app` decides when git facts are refreshed and for whom, `git_refresh` which
//! checkouts one refresh looks at and who is told what. `laws` states what the
//! operations are for, over their arguments and results.

pub mod app;
pub mod app_state;
pub mod git_refresh;
pub mod git_status;
pub mod laws;
pub mod path;
mod sequences;
pub mod sidebar;
