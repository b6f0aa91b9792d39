//! Inline code completion from a language model: the window of text around the cursor, the
//! prompt for the model, the cleaning of its answer, and the state that decides which
//! answer may be shown; and the loading of text antialiasing preferences.

pub mod clean;
pub mod prefs;
pub mod prompt;
pub mod provider;
pub mod text;
pub mod window;
