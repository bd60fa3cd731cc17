//! A verified core that converts a constrained XML-based schema vocabulary
//! into a typed, immutable schema AST.
//!
//! The library works on its own plain document tree ([`xml::XmlNode`]); the
//! surrounding build tooling loads and parses the schema file and hands the
//! tree in. Every classifier is specified by a spec-level counterpart and the
//! executable code is proved to agree with it exactly, including which error
//! is reported on which input.

pub mod attribute;
pub mod choice;
pub mod complex_type;
pub mod element;
pub mod error;
pub mod numeric;
pub mod resolve;
pub mod restriction;
pub mod schema;
pub mod sequence;
pub mod simple_content;
pub mod simple_type;
pub mod views;
pub mod xml;
