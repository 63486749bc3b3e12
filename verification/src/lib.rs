use vstd::prelude::*;

pub mod dates;
pub mod frontmatter;
pub mod posts;
pub mod render;
pub mod store;
pub mod text;

verus! {

/// Errors surfaced by the content pipeline.
#[derive(Clone, Copy, Debug, PartialEq, Eq, Structural)]
pub enum BlogError {
    /// The requested document or slug is absent from the content store.
    NotFound,
    /// A required front-matter field is missing or malformed.
    ExtractionError,
    /// The date field does not match the expected format or is not a valid
    /// calendar date.
    DateParseError,
}

} // verus!
