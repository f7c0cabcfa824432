//! Extraction of a problem statement into structured data, the layout of the
//! files that persist it, and the judging of a candidate program against them.
pub mod extract;
pub mod harness;
pub mod layout;
pub mod location;
pub mod text;
