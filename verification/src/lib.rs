//! Preparing the fabrication files of a printed circuit board for one
//! manufacturer.
//!
//! The heart of the crate is [`drill`]: drill files of several design tools
//! are decoded, merged by plating class and written again in one canonical
//! dialect. Around it stand the helpers for Gerber files: [`dcode`] rewrites
//! aperture selections, [`fingerprint`] and [`header`] mark a file,
//! [`rename`] and [`outline`] name and order the files of an export,
//! [`validation`] checks that a set is complete, and [`file_type`] names the
//! tool that wrote a file.
//!
//! Text is handled as sequences of characters ([`text`], [`lines`],
//! [`number`], [`scan`]). Regular expressions, the digest, random picks and
//! the clock come from other crates; [`pattern`], [`fancy`], [`digest`],
//! [`random`] and [`header`] hold the few functions that call them, and
//! [`matcher`] builds on the first.

pub mod dcode;
pub mod digest;
pub mod drill;
pub mod fancy;
pub mod file_type;
pub mod fingerprint;
pub mod header;
pub mod lines;
pub mod matcher;
pub mod number;
pub mod outline;
pub mod pattern;
pub mod random;
pub mod rename;
pub mod scan;
pub mod text;
pub mod validation;
