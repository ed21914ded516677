//! Decoding of OpenType and TrueType font files.

use vstd::prelude::*;

pub mod char_mapping;
pub mod date;
pub mod directory;
pub mod feature;
pub mod font;
pub mod layout;
pub mod positioning;
pub mod substitution;
pub mod tables;
pub mod tape;

verus! {

} // verus!
