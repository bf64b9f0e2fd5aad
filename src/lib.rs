//! Selects the lines of a text stream that contain (or, negated, do not
//! contain) any of a set of reference lines as a literal substring.
//!
//! The reference lines come from a text file: it is split at `'\n'` and the
//! empty pieces are dropped. The lines are escaped, joined into one regex
//! alternation and compiled once; each candidate line is then tested against
//! that regex. An empty reference set selects no line.

pub mod filter;
pub mod matcher;
pub mod pattern;
pub mod text;

pub use text::{load_reference_lines, parse_reference_lines, LoadError};
pub use pattern::alternation_pattern;
pub use matcher::{BuildError, Matcher};
pub use filter::{lemma_filter_idempotent, lemma_filter_keeps_order, lemma_negate_complements};
