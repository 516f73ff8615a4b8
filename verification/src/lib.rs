//! Core pipeline of a screen-capture translation tool: classification of
//! extracted text, the capture-portal protocol state machine, translation
//! source selection, and the structural parser for dictionary markup.

pub mod capture;
pub mod codec;
pub mod data;
pub mod definition;
pub mod google;
pub mod html;
pub mod json;
pub mod ocr;
pub mod orchestrate;
pub mod render;
pub mod text;
