//! An anagram quiz engine: dictionaries indexed by sorted keys, a quiz and
//! contest state machine, hints, and contest standings.
pub mod bot;
pub mod collections;
pub mod contest;
pub mod dictionary;
pub mod hint;
pub mod messages;
pub mod random;
pub mod session;
pub mod settings;
pub mod text;
pub mod validators;
