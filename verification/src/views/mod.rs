//! The decisions behind the editor's windows and widgets.
pub mod widgets;
pub mod windows;
