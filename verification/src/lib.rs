//! An HL7 v2 message library with MLLP framing.
//!
//! The crate decomposes pipe-delimited HL7 payloads into a
//! message tree (segments, fields, repetitions, components,
//! subcomponents), offers read-only projections for a few common
//! trigger events (ADT, ORU, RDE), frames and unframes messages
//! with the Minimal Lower Layer Protocol sentinels, and builds
//! HL7 acknowledgments. Every function carries a contract that
//! pins its result down over sequence models of the data.

pub mod ack;
pub mod adt;
pub mod escape;
pub mod mllp;
pub mod model;
pub mod oru;
pub mod parser;
pub mod rde;
pub mod text;

pub use model::{Component, Delimiters, Field, HL7Error, Message, Segment};

