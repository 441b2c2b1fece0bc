//! The core of a rich-text code editor: a text buffer kept in step with its
//! syntax-highlighted rendering, and a caret that moves over it in character
//! and in pixel coordinates.

pub mod text;
pub mod chars;
pub mod metrics;
pub mod cursor;
pub mod style;
pub mod tokenizer;
pub mod engine;
pub mod highlight;
pub mod region;
pub mod state;
pub mod content;
pub mod command;
pub mod controller;
