use vstd::prelude::*;

use crate::file_info::FileInfo;

verus! {

/// One installed package: where its manifest lies and the records it
/// declares, in manifest order.
#[derive(Clone, Debug)]
pub struct Package {
    pub contents_path: String,
    pub files: Vec<FileInfo>,
}

impl Package {
    /// A package with no records yet.
    pub fn new(contents_path: &str) -> (r: Package)
        ensures
            r.contents_path@ == contents_path@,
            r.files@.len() == 0,
    {
        Package { contents_path: String::from_str(contents_path), files: Vec::new() }
    }

    pub fn contents_path(&self) -> (r: &str)
        ensures
            r@ == self.contents_path@,
    {
        self.contents_path.as_str()
    }

    pub fn files(&self) -> (r: &[FileInfo])
        ensures
            r@ == self.files@,
    {
        self.files.as_slice()
    }

    /// Appends a record after those already declared.
    pub fn add_file(&mut self, file_info: FileInfo)
        ensures
            final(self).contents_path == old(self).contents_path,
            final(self).files@ == old(self).files@.push(file_info),
    {
        self.files.push(file_info);
    }
}

} // verus!
