//! A small library for validating and recording music-album metadata.
//!
//! Album fields (name, artist, track count, release year) are validated by
//! dedicated wrapper types, combined with a timestamp into a [`album::Record`],
//! and serialized as one tab-separated line for an append-only storage file.

use vstd::prelude::*;

pub mod album;
pub mod clock;
pub mod text;
pub mod user_input;

verus! {

/// Lowest release year a record may carry.
pub const MIN_RELEASE_YEAR: i32 = 1928;

/// Largest number of tracks a record may carry.
pub const MAX_TRACK_COUNT: u16 = 750;

} // verus!
