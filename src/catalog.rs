use vstd::prelude::*;

pub mod file;
pub mod package;

verus! {

/// The installed-package database: a tree two levels deep whose leaf
/// directories may hold a manifest named `CONTENTS`.
pub struct Catalog;

} // verus!
