//! Identity, profile-score and quiz-grading core of a small set of cooperating
//! services: the decisions each service makes, and in-memory stores of record
//! that apply them atomically.
pub mod access;
pub mod error;
pub mod identity;
pub mod lookup;
pub mod profile;
pub mod quiz;
pub mod remote;
pub mod secrets;
pub mod text;
