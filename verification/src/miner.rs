//! The records that the game's data files are read into.

use vstd::prelude::*;
use std::collections::{BTreeMap, BTreeSet};

verus! {

/// A string table: text fields by name.
#[derive(Debug)]
pub struct StlFile {
    pub fields: BTreeMap<String, String>,
}

/// An affix table: its values in the order of the file.
pub struct AffFile {
    pub values: Vec<String>,
}

/// A skill file.
pub struct SklFile {}

/// The data files that were read, by kind.
pub struct Parser {
    pub stl_files: BTreeSet<StlFile>,
    pub aff_files: BTreeSet<AffFile>,
    pub skl_files: BTreeSet<SklFile>,
}

} // verus!
