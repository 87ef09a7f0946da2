//! KRec: a recording container for robot telemetry.
//!
//! A recording is one header and the frames captured under it, in capture
//! order. Each frame carries the states of the actuators and, where there
//! are any, a command and a sample of the inertial measurement unit. A
//! recording is written to bytes and read back without loss, and can be
//! combined with a video into one artifact.
//!
//! The library works on values and bytes; files are the caller's business.
//! Every function is verified against its contract, but for the one call
//! into the standard library that validates UTF-8, whose contract is taken
//! on trust and says so where it stands. What follows from the contracts is
//! stated and proved in [`laws`].
//!
//! - [`schema`] and [`recording`]: the records and the recording;
//! - [`scalar`]: floating-point members, held as their bit patterns;
//! - [`wire`], [`payload`] and [`record`]: the building blocks of the format;
//! - [`codec`]: the binary form of each record and of a whole recording;
//! - [`combine`]: the artifact that holds a video and a recording;
//! - [`storage`]: saving, loading and combining, given what was read from
//!   the files, with the five kinds of failure;
//! - [`laws`]: what holds of everything that is written and read back;
//! - [`text`]: summaries, reports and messages;
//! - [`error`]: what can go wrong.

pub mod codec;
pub mod combine;
pub mod error;
pub mod laws;
pub mod payload;
pub mod record;
pub mod recording;
pub mod scalar;
pub mod schema;
pub mod storage;
pub mod text;
pub mod wire;
