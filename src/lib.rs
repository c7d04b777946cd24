//! Query-to-presentation pipeline of a trip-report search site: building the
//! engine's query bodies, and turning its response envelopes into
//! display-ready result records.

pub mod assemble;
pub mod body;
pub mod envelope;
pub mod error;
pub mod projector;
pub mod query;
pub mod report;
pub mod results;
pub mod text;
