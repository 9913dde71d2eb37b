//! The decisions of safe file handling: the size limit, the directory that
//! an output file goes to, and the bookkeeping of a backup copy. The file
//! system calls themselves are made by the caller.

use vstd::prelude::*;
use crate::minifier::MinifyError;
use crate::path::{backup_path, backup_path_of, parent, parent_of, timestamped_backup_path,
    timestamped_backup_path_of};
use crate::strings::{chars_of, string_of};
use crate::text::{append_str, decimal, push_decimal_u64};

verus! {

/// Maximum file size to process (100MB)
pub const MAX_FILE_SIZE: u64 = 100 * 1024 * 1024;

/// The message of the error for a file over the size limit.
pub open spec fn too_large_text(size: nat) -> Seq<char> {
    "File too large: "@ + decimal(size) + " bytes (max: "@ + decimal(MAX_FILE_SIZE as nat)
        + " bytes)"@
}

/// Checks a file's size against the limit.
pub fn check_file_size(size: u64) -> (r: Result<(), MinifyError>)
    ensures
        r is Ok <==> size <= MAX_FILE_SIZE,
        r matches Err(e) ==> e matches MinifyError::MemoryLimitExceeded(m) && m@ == too_large_text(
            size as nat,
        ),
{
    if size > MAX_FILE_SIZE {
        let mut out: Vec<char> = Vec::new();
        append_str(&mut out, "File too large: ");
        push_decimal_u64(&mut out, size);
        append_str(&mut out, " bytes (max: ");
        push_decimal_u64(&mut out, MAX_FILE_SIZE);
        append_str(&mut out, " bytes)");
        Err(MinifyError::MemoryLimitExceeded(string_of(out.as_slice())))
    } else {
        Ok(())
    }
}

/// The directory that a file goes to: its parent, or `.` when the parent
/// is missing or empty.
pub open spec fn directory_of(path: Seq<char>) -> Seq<char> {
    match parent(path) {
        Some(p) => if p.len() > 0 {
            p
        } else {
            "."@
        },
        None => "."@,
    }
}

/// The directory that a file goes to.
pub fn output_directory(path: &str) -> (r: String)
    ensures
        r@ == directory_of(path@),
{
    let chars = chars_of(path);
    match parent_of(chars.as_slice()) {
        Some(p) => {
            if p.len() > 0 {
                string_of(p.as_slice())
            } else {
                let mut d: Vec<char> = Vec::new();
                append_str(&mut d, ".");
                string_of(d.as_slice())
            }
        },
        None => {
            let mut d: Vec<char> = Vec::new();
            append_str(&mut d, ".");
            string_of(d.as_slice())
        },
    }
}

/// File backup manager for safe operations: the original file, and the
/// backup copy once one has been made.
pub struct FileBackup {
    original_path: String,
    backup_path: Option<String>,
    backup_created: bool,
}

impl FileBackup {
    pub closed spec fn spec_original(&self) -> Seq<char> {
        self.original_path@
    }

    pub closed spec fn spec_backup(&self) -> Option<Seq<char>> {
        match self.backup_path {
            Some(p) => Some(p@),
            None => None,
        }
    }

    pub closed spec fn spec_created(&self) -> bool {
        self.backup_created
    }

    /// Create a new file backup manager
    pub fn new(original_path: &str) -> (r: Self)
        ensures
            r.spec_original() == original_path@,
            r.spec_backup() is None,
            !r.spec_created(),
    {
        let chars = chars_of(original_path);
        FileBackup {
            original_path: string_of(chars.as_slice()),
            backup_path: None,
            backup_created: false,
        }
    }

    /// The path of the original file.
    pub fn original_path(&self) -> (r: &str)
        ensures
            r@ == self.spec_original(),
    {
        self.original_path.as_str()
    }

    /// The first choice of path for the backup copy: `.backup` added to the
    /// extension of the original, or `backup` as its extension.
    pub fn first_backup_path(&self) -> (r: String)
        ensures
            r@ == backup_path(self.spec_original()),
    {
        let chars = chars_of(self.original_path.as_str());
        let p = backup_path_of(chars.as_slice());
        string_of(p.as_slice())
    }

    /// The backup path to use when the first choice is taken: the
    /// timestamp goes between its stem and its extension.
    pub fn timestamped_path(first: &str, timestamp: usize) -> (r: String)
        ensures
            r@ == timestamped_backup_path(first@, timestamp as nat),
    {
        let chars = chars_of(first);
        let p = timestamped_backup_path_of(chars.as_slice(), timestamp);
        string_of(p.as_slice())
    }

    /// Records that the backup copy was made at `path`.
    pub fn record_backup(&mut self, path: String)
        ensures
            final(self).spec_original() == old(self).spec_original(),
            final(self).spec_backup() == Some(path@),
            final(self).spec_created(),
    {
        self.backup_path = Some(path);
        self.backup_created = true;
    }

    /// The path of the backup copy, once one has been made.
    pub fn backup_path(&self) -> (r: Option<String>)
        ensures
            match r {
                Some(p) => self.spec_backup() == Some(p@),
                None => self.spec_backup() is None,
            },
    {
        match &self.backup_path {
            Some(p) => Some(p.clone()),
            None => None,
        }
    }

    /// Whether a backup copy was made and still has to be removed.
    pub fn backup_created(&self) -> (r: bool)
        ensures
            r == self.spec_created(),
    {
        self.backup_created
    }

    /// Records that the backup copy is gone.
    pub fn clear_backup(&mut self)
        ensures
            final(self).spec_original() == old(self).spec_original(),
            final(self).spec_backup() is None,
            !final(self).spec_created(),
    {
        self.backup_path = None;
        self.backup_created = false;
    }
}

} // verus!
