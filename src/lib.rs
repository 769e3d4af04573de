//! Spaced-repetition note reminders: picking the least repeated note and
//! rendering its lightweight markup into display text.

pub mod bot;
pub mod markup;
pub mod note;
pub mod selection;
pub mod settings;
pub mod text;
pub mod time;
