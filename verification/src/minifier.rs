//! The plugin interface: optimisation levels, errors, exit codes and the
//! `Minifier` trait that every plugin implements.

use vstd::prelude::*;
use crate::stats::MinifyStats;
use crate::strings::string_of;
use crate::text::append_str;

verus! {

#[verifier::external_type_specification]
#[verifier::external_body]
pub struct ExIoError(std::io::Error);

/// Minification optimization level
#[derive(Debug, Clone, Copy, PartialEq, Eq, Structural)]
pub enum MinifyLevel {
    /// Guaranteed semantic preservation - only removes whitespace and comments
    Safe,
    /// Best-effort optimization with potential renaming and aggressive optimizations
    Aggressive,
}

/// Errors that can occur during minification
#[derive(Debug)]
pub enum MinifyError {
    /// Error parsing the input format
    ParseError(String),
    /// I/O error during file operations
    IoError(std::io::Error),
    /// Format is not supported by any plugin
    UnsupportedFormat,
    /// Plugin-specific error
    PluginError(String),
    /// File permission error
    PermissionError(String),
    /// File not found error
    FileNotFound(String),
    /// Output file already exists and would be overwritten
    OutputExists(String),
    /// Memory limit exceeded for large files
    MemoryLimitExceeded(String),
    /// File backup/restore operation failed
    BackupError(String),
}

/// Exit codes for different error types; `code` gives the process exit status.
#[derive(Debug, Clone, Copy, PartialEq, Eq, Structural)]
pub enum ExitCode {
    /// Success
    Success,
    /// General error
    GeneralError,
    /// File not found
    FileNotFound,
    /// Permission denied
    PermissionDenied,
    /// Unsupported format
    UnsupportedFormat,
    /// Parse error
    ParseError,
    /// Plugin error
    PluginError,
    /// Memory limit exceeded
    MemoryLimitExceeded,
    /// Invalid arguments
    InvalidArguments,
}

pub open spec fn exit_code_number(c: ExitCode) -> i32 {
    match c {
        ExitCode::Success => 0,
        ExitCode::GeneralError => 1,
        ExitCode::FileNotFound => 2,
        ExitCode::PermissionDenied => 3,
        ExitCode::UnsupportedFormat => 4,
        ExitCode::ParseError => 5,
        ExitCode::PluginError => 6,
        ExitCode::MemoryLimitExceeded => 7,
        ExitCode::InvalidArguments => 8,
    }
}

/// The exit code that reports an error.
pub open spec fn exit_code_for(e: MinifyError) -> ExitCode {
    match e {
        MinifyError::FileNotFound(_) => ExitCode::FileNotFound,
        MinifyError::PermissionError(_) => ExitCode::PermissionDenied,
        MinifyError::UnsupportedFormat => ExitCode::UnsupportedFormat,
        MinifyError::ParseError(_) => ExitCode::ParseError,
        MinifyError::PluginError(_) => ExitCode::PluginError,
        MinifyError::MemoryLimitExceeded(_) => ExitCode::MemoryLimitExceeded,
        MinifyError::IoError(_) => ExitCode::GeneralError,
        MinifyError::OutputExists(_) => ExitCode::GeneralError,
        MinifyError::BackupError(_) => ExitCode::GeneralError,
    }
}

/// No error is reported with the success status: every error maps to an
/// exit code whose number is positive.
pub proof fn lemma_errors_exit_nonzero(e: MinifyError)
    ensures
        exit_code_for(e) != ExitCode::Success,
        exit_code_number(exit_code_for(e)) > 0,
        exit_code_for(e) != ExitCode::InvalidArguments,
{
}

impl ExitCode {
    /// The process exit status of this code.
    pub fn code(&self) -> (r: i32)
        ensures
            r == exit_code_number(*self),
    {
        match self {
            ExitCode::Success => 0,
            ExitCode::GeneralError => 1,
            ExitCode::FileNotFound => 2,
            ExitCode::PermissionDenied => 3,
            ExitCode::UnsupportedFormat => 4,
            ExitCode::ParseError => 5,
            ExitCode::PluginError => 6,
            ExitCode::MemoryLimitExceeded => 7,
            ExitCode::InvalidArguments => 8,
        }
    }
}

impl From<MinifyError> for ExitCode {
    fn from(error: MinifyError) -> (r: Self) {
        match error {
            MinifyError::FileNotFound(_) => ExitCode::FileNotFound,
            MinifyError::PermissionError(_) => ExitCode::PermissionDenied,
            MinifyError::UnsupportedFormat => ExitCode::UnsupportedFormat,
            MinifyError::ParseError(_) => ExitCode::ParseError,
            MinifyError::PluginError(_) => ExitCode::PluginError,
            MinifyError::MemoryLimitExceeded(_) => ExitCode::MemoryLimitExceeded,
            MinifyError::IoError(_) => ExitCode::GeneralError,
            MinifyError::OutputExists(_) => ExitCode::GeneralError,
            MinifyError::BackupError(_) => ExitCode::GeneralError,
        }
    }
}

impl vstd::std_specs::convert::FromSpecImpl<MinifyError> for ExitCode {
    open spec fn obeys_from_spec() -> bool {
        true
    }

    open spec fn from_spec(v: MinifyError) -> Self {
        exit_code_for(v)
    }
}

/// The text that `Display` writes for an `std::io::Error`.
#[verifier::external_body]
fn io_error_text(e: &std::io::Error) -> String {
    format!("{}", e)
}

/// Whether `t` is the text that describes an error: a fixed prefix naming
/// the kind of error, followed by its message.
pub open spec fn describes(e: MinifyError, t: Seq<char>) -> bool {
    match e {
        MinifyError::ParseError(m) => t == "Parse error: "@ + m@,
        MinifyError::IoError(_) => t.len() >= 11 && t.take(11) == "I/O error: "@,
        MinifyError::UnsupportedFormat => t == "Unsupported file format"@,
        MinifyError::PluginError(m) => t == "Plugin error: "@ + m@,
        MinifyError::PermissionError(m) => t == "Permission error: "@ + m@,
        MinifyError::FileNotFound(m) => t == "File not found: "@ + m@,
        MinifyError::OutputExists(m) => t == "Output file exists: "@ + m@,
        MinifyError::MemoryLimitExceeded(m) => t == "Memory limit exceeded: "@ + m@,
        MinifyError::BackupError(m) => t == "Backup operation failed: "@ + m@,
    }
}

impl MinifyError {
    /// The text that describes this error.
    pub fn message(&self) -> (r: String)
        ensures
            describes(*self, r@),
    {
        let mut out: Vec<char> = Vec::new();
        match self {
            MinifyError::ParseError(m) => {
                append_str(&mut out, "Parse error: ");
                append_str(&mut out, m.as_str());
            },
            MinifyError::IoError(e) => {
                append_str(&mut out, "I/O error: ");
                proof {
                    reveal_strlit("I/O error: ");
                }
                let ghost head = out@;
                let t = io_error_text(e);
                append_str(&mut out, t.as_str());
                assert(out@.take(11) =~= head);
            },
            MinifyError::UnsupportedFormat => {
                append_str(&mut out, "Unsupported file format");
            },
            MinifyError::PluginError(m) => {
                append_str(&mut out, "Plugin error: ");
                append_str(&mut out, m.as_str());
            },
            MinifyError::PermissionError(m) => {
                append_str(&mut out, "Permission error: ");
                append_str(&mut out, m.as_str());
            },
            MinifyError::FileNotFound(m) => {
                append_str(&mut out, "File not found: ");
                append_str(&mut out, m.as_str());
            },
            MinifyError::OutputExists(m) => {
                append_str(&mut out, "Output file exists: ");
                append_str(&mut out, m.as_str());
            },
            MinifyError::MemoryLimitExceeded(m) => {
                append_str(&mut out, "Memory limit exceeded: ");
                append_str(&mut out, m.as_str());
            },
            MinifyError::BackupError(m) => {
                append_str(&mut out, "Backup operation failed: ");
                append_str(&mut out, m.as_str());
            },
        }
        proof {
            reveal_strlit("Unsupported file format");
        }
        string_of(out.as_slice())
    }
}

/// The kinds of I/O failure that map to errors of their own.
#[derive(Debug, Clone, Copy, PartialEq, Eq, Structural)]
pub enum IoErrorKind {
    NotFound,
    PermissionDenied,
    Other,
}

/// `std::io::Error::kind`, told apart into the kinds that have an error of
/// their own. Nothing is claimed of which kind an error has.
#[verifier::external_body]
fn io_error_kind(e: &std::io::Error) -> IoErrorKind {
    match e.kind() {
        std::io::ErrorKind::NotFound => IoErrorKind::NotFound,
        std::io::ErrorKind::PermissionDenied => IoErrorKind::PermissionDenied,
        _ => IoErrorKind::Other,
    }
}

impl MinifyError {
    /// The error for a failed I/O operation, from its kind and its text: a
    /// missing file and a refused permission have errors of their own.
    pub fn from_io_parts(kind: IoErrorKind, text: String, err: std::io::Error) -> (r: MinifyError)
        ensures
            match kind {
                IoErrorKind::NotFound => r == MinifyError::FileNotFound(text),
                IoErrorKind::PermissionDenied => r == MinifyError::PermissionError(text),
                IoErrorKind::Other => r == MinifyError::IoError(err),
            },
    {
        match kind {
            IoErrorKind::NotFound => MinifyError::FileNotFound(text),
            IoErrorKind::PermissionDenied => MinifyError::PermissionError(text),
            IoErrorKind::Other => MinifyError::IoError(err),
        }
    }

    /// The error for a failed I/O operation.
    pub fn from_io_error(err: std::io::Error) -> (r: MinifyError)
        ensures
            r is FileNotFound || r is PermissionError || r == MinifyError::IoError(err),
    {
        let kind = io_error_kind(&err);
        let text = io_error_text(&err);
        MinifyError::from_io_parts(kind, text, err)
    }
}

/// Core trait that all minification plugins must implement.
///
/// `stats` reports the statistics of the last successful minification, and
/// nothing before the first one.
pub trait Minifier {
    /// The plugin's name.
    closed spec fn spec_name(&self) -> Seq<char> {
        vstd::pervasive::arbitrary()
    }

    /// Whether the plugin handles an input.
    closed spec fn spec_detect(&self, input: Seq<u8>) -> bool {
        vstd::pervasive::arbitrary()
    }

    /// The statistics of the last successful minification.
    closed spec fn spec_stats(&self) -> Option<MinifyStats> {
        vstd::pervasive::arbitrary()
    }

    /// The bytes that minifying an input at a level gives, or `None` when
    /// the plugin refuses that input.
    closed spec fn spec_output(&self, input: Seq<u8>, level: MinifyLevel) -> Option<Seq<u8>> {
        vstd::pervasive::arbitrary()
    }

    /// Whether `e` is an error with which the plugin refuses an input at a
    /// level.
    closed spec fn spec_error(&self, input: Seq<u8>, level: MinifyLevel, e: MinifyError) -> bool {
        vstd::pervasive::arbitrary()
    }

    /// Get the name of this minifier plugin
    fn name(&self) -> (r: &str)
        ensures
            r@ == self.spec_name(),
    ;

    /// Detect if this plugin can handle the given input bytes
    /// Returns true if the plugin can process this format
    fn detect(&self, input_bytes: &[u8]) -> (r: bool)
        ensures
            r == self.spec_detect(input_bytes@),
    ;

    /// Minify the input bytes using the specified optimization level
    /// Returns the minified bytes or an error
    fn minify(&mut self, input_bytes: &[u8], level: MinifyLevel) -> (r: Result<Vec<u8>, MinifyError>)
        ensures
            final(self).spec_name() == old(self).spec_name(),
            forall|b: Seq<u8>| final(self).spec_detect(b) == old(self).spec_detect(b),
            forall|b: Seq<u8>, l: MinifyLevel|
                #[trigger] final(self).spec_output(b, l) == old(self).spec_output(b, l),
            r is Ok <==> old(self).spec_output(input_bytes@, level) is Some,
            r matches Ok(out) ==> old(self).spec_output(input_bytes@, level) == Some(out@),
            forall|b: Seq<u8>, l: MinifyLevel, e: MinifyError|
                #[trigger] final(self).spec_error(b, l, e) == old(self).spec_error(b, l, e),
            r matches Err(e) ==> old(self).spec_error(input_bytes@, level, e),
            r is Err ==> final(self).spec_stats() == old(self).spec_stats(),
            r matches Ok(out) ==> final(self).spec_stats() matches Some(st) && st.before_bytes
                == input_bytes@.len() && st.after_bytes == out@.len(),
    ;

    /// Get statistics from the last minification operation
    /// Returns None if no minification has been performed yet
    fn stats(&self) -> (r: Option<MinifyStats>)
        ensures
            r == self.spec_stats(),
    ;
}

} // verus!
