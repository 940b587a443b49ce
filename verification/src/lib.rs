//! A Groth16-style zk-SNARK core for Rank-1 Constraint Systems (R1CS).
//!
//! The crate is organised around the three phases of the protocol:
//! a one-time trusted setup that compiles a constraint shape into a
//! Quadratic Arithmetic Program and emits a proving / verification key
//! pair, a prover that assembles the three proof elements by
//! multi-scalar multiplication, and a verifier that evaluates a single
//! bilinear pairing product equation.
//!
//! Field and group arithmetic is deliberately small and concrete: the
//! scalar field is the integers modulo a small prime, and the pairing
//! groups are modelled by their scalar exponents, so that every
//! algebraic step of the protocol itself is stated and checked here.

pub mod codec;
pub mod errors;
pub mod field;
pub mod group;
pub mod keys;
pub mod laws;
pub mod msm;
pub mod poly;
pub mod prover;
pub mod qap;
pub mod rng;
pub mod setup;
pub mod shape;
pub mod snark;
pub mod verify;
