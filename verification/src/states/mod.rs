//! State of the editor that its windows share.
pub mod project_state;
pub mod projects;
pub mod settings;
