//! Unpacks uploaded zip archives of audio files: each entry whose content is
//! audio is named from its tags through a filename pattern.

use vstd::prelude::*;

pub mod appconfig;
pub mod audioutils;
pub mod errors;
pub mod file_namer;
pub mod text;
pub mod ziputils;
