//! Column-slice CSV partitioning for flashcard import.
//!
//! A CSV file whose header repeats fixed-width column groups (one group per
//! topic) is loaded into an immutable record store and then read slice by
//! slice: each slice is a contiguous column range `[i*W, i*W + W)` of every
//! row, decoded into a caller-chosen record type, eagerly or lazily, with
//! blank rows optionally filtered out.  On top of the partitioner sit the
//! vocabulary model (words and topics) and the pure parts of the flashcard
//! import pipeline: note building, response interpretation, and result
//! tallying.

pub mod anki;
pub mod parse;
pub mod partition;
pub mod text;
pub mod vocab_importer;
