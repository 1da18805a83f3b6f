//! Praat TextGrid files (text and binary formats) and the decision logic of
//! the Gridder editor, with their contracts proved by Verus.
pub mod binary_format;
pub mod font_loading;
pub mod l10n;
pub mod model;
pub mod projects;
pub mod states;
pub mod text_format;
pub mod text_grid;
pub mod textbuf;
pub mod utf16;
pub mod views;
pub mod waveform;
