//! Resolution and rendering of base16 color schemes and templates.
//!
//! Schemes and templates live in a two-tier directory hierarchy: a
//! user-writable configuration root, checked first, and a shared data root,
//! checked second. This crate resolves glob-like patterns to concrete files
//! across the two roots, validates and classifies schemes, and renders
//! templates against a scheme's palette.

use vstd::prelude::*;

pub mod cli;
pub mod current;
pub mod find;
pub mod info;
pub mod list;
pub mod order;
pub mod palette;
pub mod render;
pub mod scheme;
pub mod text;

verus! {

/// A red/green/blue triple of 8-bit channels.
#[derive(Clone, Copy, PartialEq, Eq, Structural, Debug)]
pub struct Rgb {
    pub r: u8,
    pub g: u8,
    pub b: u8,
}

/// Everything that can go wrong while resolving, classifying, listing or
/// rendering. Each variant carries the context its message needs.
#[derive(Debug)]
pub enum Error {
    /// A glob pattern was syntactically invalid.
    InvalidPattern { pattern: String },
    /// A path matched during enumeration could not be read.
    Unreadable { path: String },
    /// A scheme lacks one of the two reserved background color slots.
    MissingBackgroundSlot { slot: u8 },
    /// A matched scheme path has no final component to take a name from.
    BadSchemeName { path: String },
    /// A matched template path lies under neither searched root.
    BadTemplateName { path: String },
    /// A scheme listing came out empty.
    NoMatchingScheme,
    /// A template listing came out empty.
    NoMatchingTemplate,
    /// The given contents do not parse as a color scheme.
    NotAScheme,
    /// The template's placeholder syntax could not be parsed.
    BadTemplate,
    /// A color was not given as hex digits naming an RGB triple.
    BadColor { color: String },
    /// Neither candidate path for a named template exists.
    TemplateNotFound { config: String, data: String },
    /// The record of the last applied scheme is empty.
    EmptyCurrentScheme,
}

} // verus!
