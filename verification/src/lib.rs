//! Core logic for organizing audiobook files: a number-inference engine that
//! derives a file's ordinal position from an optional embedded tag and a
//! free-form filename, and a template renderer that turns a metadata record
//! into destination path and file-name strings.

pub mod chars;
pub mod metadata;
pub mod numfmt;
pub mod rules;
pub mod schema;
pub mod template;
pub mod track;
