//! A decoder for compact, self-describing "effect data" records that describe
//! castable abilities. A record is a stream of tagged fields, some of which
//! address bounded sub-streams (multiplier vectors, hit tables, per-part
//! sub-records). Two record modes exist: one incrementally modifies an
//! existing ability (additive merge), the other redefines it from scratch
//! (overwrite). The decoders are verified against a mathematical model of the
//! walk over the field stream.

pub mod decode;
pub mod effect;
pub mod laws;
pub mod spells;
