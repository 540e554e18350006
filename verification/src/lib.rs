//! A literate-document evaluator core: lines of a text stream are scanned for
//! a marker substring, consecutive lines are accumulated into statement
//! batches, each batch is handed to an external expression evaluator exactly
//! once when a marker is seen, and the stream is re-emitted with each
//! evaluated fragment followed inline by its computed result.

pub mod batch;
pub mod eval;
pub mod session;
pub mod text;
pub mod token;

