pub mod agent_panel;
pub mod budget;
pub mod layout;
pub mod spans;
pub mod style;
pub mod tokens;
