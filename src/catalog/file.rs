use vstd::prelude::*;

use crate::file_info::{opt_str_view, FileInfo, FileType, RecordView};

verus! {

/// One entry of a package manifest.
#[derive(Clone, Debug)]
pub struct File {
    pub path: String,
    pub file_type: FileType,
    pub mtime: Option<u64>,
    pub md5: Option<String>,
}

impl File {
    /// An entry; an empty digest means that none was recorded.
    pub fn new(path: &str, file_type: FileType, md5: String, mtime: Option<u64>) -> (r: File)
        ensures
            r.path@ == path@,
            r.file_type.kind_spec() == file_type.kind_spec(),
            r.file_type.target_spec() == file_type.target_spec(),
            opt_str_view(r.md5) == (if md5@.len() == 0 {
                None
            } else {
                Some(md5@)
            }),
            r.mtime == mtime,
    {
        let md5 = if md5.unicode_len() == 0 {
            None
        } else {
            Some(md5)
        };
        File { path: String::from_str(path), file_type, mtime, md5 }
    }

    /// The record that this entry contributes to the set of packaged files;
    /// a manifest says nothing of execute bits.
    pub fn to_file_info(self) -> (r: FileInfo)
        ensures
            r@ == (RecordView {
                kind: self.file_type.kind_spec(),
                target: self.file_type.target_spec(),
                path: self.path@,
                md5: opt_str_view(self.md5),
                mtime: self.mtime,
                executable: false,
            }),
    {
        FileInfo {
            ftype: self.file_type,
            path: self.path,
            md5: self.md5,
            mtime: self.mtime,
            executable: false,
        }
    }
}

} // verus!
