//! Builder generation for records with named fields: classifying each
//! field from its declared type and directives, synthesizing the builder's
//! slots, setters and completeness check, and running that plan; plus the
//! listing function generated for an enumeration.

pub mod classify;
pub mod command;
pub mod directive;
pub mod dump;
pub mod laws;
pub mod runtime;
pub mod shape;
pub mod synth;
