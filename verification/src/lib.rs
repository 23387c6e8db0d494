//! Random-projection commitment of a sample sequence, with a self-consistency
//! check.
//!
//! A seeded generator yields a deterministic stream of Goldilocks field
//! elements. A pass over an ordered sample sequence projects it onto a small
//! digest and accumulates a scalar; recombining the digest with the weight
//! vector must give that scalar again.

pub mod field;
pub mod generator;
pub mod identity;
pub mod projection;
pub mod provenance;
