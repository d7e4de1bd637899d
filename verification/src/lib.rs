//! A small text-note editing core: a document of statements (lines of text),
//! a cursor state machine that interprets discrete edit actions, and a glyph
//! layout engine that rasterizes statements onto a pixel canvas with
//! character-granular line wrapping.

pub mod color;
pub mod layout;
pub mod note;
