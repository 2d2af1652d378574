//! A resilient tagline-normalization-and-projection pipeline.
//!
//! Raw startup records flow through verified stages: a cache-backed tagline
//! normalizer driven as an explicit state machine, prompt construction for
//! the language-model call, the newline-delimited text format of the cache
//! file, an exact fixed-point model of coordinate normalization into the
//! unit square, and the final merge of record metadata with positions into
//! output rows. The driver around the library performs only the outside
//! work: reading the input table, the language-model, embedding and
//! projection calls, and writing the cache file and the output artifact.

pub mod artifact;
pub mod coords;
pub mod normalizer;
pub mod prompt;
pub mod record;
pub mod text;

pub use coords::Point2;
pub use coords::UnitPoint;
