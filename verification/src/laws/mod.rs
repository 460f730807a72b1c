//! What the operations are for: laws on what a call gives back, and on how two
//! calls relate. Each speaks of the arguments and results of the operations
//! themselves.

pub mod agent_panel;
pub mod app;
pub mod app_state;
pub mod budget;
pub mod git_refresh;
pub mod git_status;
pub mod layout;
pub mod path;
pub mod path_map;
pub mod spans;
pub mod style;
pub mod tokens;
