//! A binary delta codec.
//!
//! Given a source and a target byte sequence, the encoder emits an ordered
//! list of steps (copy, remove, add, back-reference) that turns the source
//! into the target and, read the other way, the target into the source.
//! The list has a self-delimiting wire form.
//!
//! The codec comes in two formats. The wide format of [`delta_p`] and
//! [`instructions`] names the target of a back-reference by its position in
//! the whole list, in two bytes. The compact format of [`delta_patch`] and
//! [`commands`] names it by its place in the current block of 255 steps, in
//! one byte.
//!
//! Every executable function carries a contract over the mathematical model
//! in [`model`]. The laws that tie encoding, framing and application
//! together are proof functions in [`model::laws`]: a patch applied to its
//! source gives its target and the other way round, the wire form of a
//! patch is read back as the patch, no step outgrows its frame, and every
//! back-reference names an earlier step that is none itself.
//!
//! [`delta::lcs`] finds a longest common subsequence, and [`compression`]
//! checks that bytes survive general-purpose compression.

pub mod bytes;
pub mod commands;
pub mod compression;
pub mod cursor;
pub mod delta;
pub mod delta_p;
pub mod delta_patch;
pub mod encode;
pub mod instructions;
pub mod model;
