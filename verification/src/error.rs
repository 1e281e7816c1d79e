//! The launcher's error type, with the classification the front end shows.
use vstd::prelude::*;

use crate::text::{chars_of, decimal, string_from_chars, u64_to_decimal};

verus! {

/// Every failure the launcher reports. Outside errors are carried by their
/// message.
#[derive(Debug, Clone)]
pub enum LauncherError {
    Io { path: String, message: String },
    Http(String),
    DownloadFailed { url: String, status: u16 },
    Sha1Mismatch { path: String, expected: String, actual: String },
    InvalidMavenCoordinate(String),
    PomParse(String),
    Xml(String),
    Json(String),
    InstanceNotFound(String),
    InstanceAlreadyExists(String),
    JavaNotFound(u32),
    JavaExecution(String),
    Loader(String),
    LoaderApi(String),
    Zip(String),
    Other(String),
}

pub open spec fn i18n_key_of(e: LauncherError) -> Seq<char> {
    match e {
        LauncherError::Io { .. } => "error.io"@,
        LauncherError::Http(_) => "error.http"@,
        LauncherError::DownloadFailed { .. } => "error.download_failed"@,
        LauncherError::Sha1Mismatch { .. } => "error.sha1_mismatch"@,
        LauncherError::InvalidMavenCoordinate(_) => "error.invalid_maven_coordinate"@,
        LauncherError::PomParse(_) => "error.pom_parse"@,
        LauncherError::Xml(_) => "error.xml"@,
        LauncherError::Json(_) => "error.json"@,
        LauncherError::InstanceNotFound(_) => "error.instance_not_found"@,
        LauncherError::InstanceAlreadyExists(_) => "error.instance_already_exists"@,
        LauncherError::JavaNotFound(_) => "error.java_not_found"@,
        LauncherError::JavaExecution(_) => "error.java_execution"@,
        LauncherError::Loader(_) => "error.loader"@,
        LauncherError::LoaderApi(_) => "error.loader_api"@,
        LauncherError::Zip(_) => "error.zip"@,
        LauncherError::Other(_) => "error.other"@,
    }
}

pub open spec fn kind_of(e: LauncherError) -> Seq<char> {
    match e {
        LauncherError::Io { .. } => "io"@,
        LauncherError::Http(_) | LauncherError::DownloadFailed { .. } => "network"@,
        LauncherError::Sha1Mismatch { .. } => "integrity"@,
        LauncherError::InvalidMavenCoordinate(_) | LauncherError::PomParse(_) => "maven"@,
        LauncherError::Xml(_) | LauncherError::Json(_) => "parsing"@,
        LauncherError::InstanceNotFound(_) | LauncherError::InstanceAlreadyExists(_) => "instance"@,
        LauncherError::JavaNotFound(_) | LauncherError::JavaExecution(_) => "java"@,
        LauncherError::Loader(_) | LauncherError::LoaderApi(_) => "loader"@,
        LauncherError::Zip(_) => "archive"@,
        LauncherError::Other(_) => "generic"@,
    }
}

/// Network failures, a missing Java, and file-system errors can be retried.
pub open spec fn recoverable(e: LauncherError) -> bool {
    match e {
        LauncherError::Http(_)
        | LauncherError::DownloadFailed { .. }
        | LauncherError::LoaderApi(_)
        | LauncherError::Io { .. }
        | LauncherError::JavaNotFound(_) => true,
        _ => false,
    }
}

pub open spec fn severity_of(e: LauncherError) -> Seq<char> {
    if recoverable(e) {
        "recoverable"@
    } else {
        "fatal"@
    }
}

/// A character as it appears inside a debug-quoted text.
pub open spec fn escaped_char(c: char) -> Seq<char> {
    if c == '\\' {
        seq!['\\', '\\']
    } else if c == '"' {
        seq!['\\', '"']
    } else if c == '\n' {
        seq!['\\', 'n']
    } else if c == '\r' {
        seq!['\\', 'r']
    } else if c == '\t' {
        seq!['\\', 't']
    } else if c == '\0' {
        seq!['\\', '0']
    } else {
        seq![c]
    }
}

pub open spec fn escaped(s: Seq<char>) -> Seq<char>
    decreases s.len(),
{
    if s.len() == 0 {
        Seq::empty()
    } else {
        escaped(s.drop_last()) + escaped_char(s.last())
    }
}

/// A path written the way `{:?}` writes it: in double quotes, escaped.
pub open spec fn debug_quoted(s: Seq<char>) -> Seq<char> {
    seq!['"'] + escaped(s) + seq!['"']
}

pub open spec fn message_of(e: LauncherError) -> Seq<char> {
    match e {
        LauncherError::Io { path, message } => "IO error at "@ + debug_quoted(path@) + ": "@
            + message@,
        LauncherError::Http(m) => "HTTP request failed: "@ + m@,
        LauncherError::DownloadFailed { url, status } => "Download failed for "@ + url@
            + ": HTTP "@ + decimal(status as nat),
        LauncherError::Sha1Mismatch { path, expected, actual } => "SHA-1 mismatch for "@
            + debug_quoted(path@) + ": expected "@ + expected@ + ", got "@ + actual@,
        LauncherError::InvalidMavenCoordinate(m) => "Invalid Maven coordinate: "@ + m@,
        LauncherError::PomParse(m) => "POM parse error: "@ + m@,
        LauncherError::Xml(m) => "XML parse error: "@ + m@,
        LauncherError::Json(m) => "JSON error: "@ + m@,
        LauncherError::InstanceNotFound(m) => "Instance not found: "@ + m@,
        LauncherError::InstanceAlreadyExists(m) => "Instance already exists: "@ + m@,
        LauncherError::JavaNotFound(major) => "Java not found for major version "@ + decimal(
            major as nat,
        ),
        LauncherError::JavaExecution(m) => "Java execution failed: "@ + m@,
        LauncherError::Loader(m) => "Loader error: "@ + m@,
        LauncherError::LoaderApi(m) => "Loader API unreachable: "@ + m@,
        LauncherError::Zip(m) => "Zip extraction error: "@ + m@,
        LauncherError::Other(m) => m@,
    }
}

/// Writes `s` as `{:?}` does for a path.
pub(crate) fn debug_quote(s: &str) -> (r: String)
    ensures
        r@ == debug_quoted(s@),
{
    let v = chars_of(s);
    let mut out: Vec<char> = Vec::new();
    out.push('"');
    let mut i: usize = 0;
    while i < v.len()
        invariant
            i <= v.len(),
            v@ == s@,
            out@ == seq!['"'] + escaped(v@.take(i as int)),
        decreases v.len() - i,
    {
        let c = v[i];
        assert(v@.take(i + 1).drop_last() =~= v@.take(i as int));
        if c == '\\' {
            out.push('\\');
            out.push('\\');
        } else if c == '"' {
            out.push('\\');
            out.push('"');
        } else if c == '\n' {
            out.push('\\');
            out.push('n');
        } else if c == '\r' {
            out.push('\\');
            out.push('r');
        } else if c == '\t' {
            out.push('\\');
            out.push('t');
        } else if c == '\0' {
            out.push('\\');
            out.push('0');
        } else {
            out.push(c);
        }
        i += 1;
        assert(out@ =~= seq!['"'] + escaped(v@.take(i as int)));
    }
    out.push('"');
    assert(v@.take(v.len() as int) =~= v@);
    assert(out@ =~= debug_quoted(s@));
    string_from_chars(out.as_slice())
}

fn joined(a: &str, b: &str) -> (r: String)
    ensures
        r@ == a@ + b@,
{
    let mut r = String::from_str(a);
    r.append(b);
    r
}

impl LauncherError {
    /// The translation key the front end shows for this error.
    pub fn i18n_key(&self) -> (r: &'static str)
        ensures
            r@ == i18n_key_of(*self),
    {
        match self {
            LauncherError::Io { .. } => "error.io",
            LauncherError::Http(_) => "error.http",
            LauncherError::DownloadFailed { .. } => "error.download_failed",
            LauncherError::Sha1Mismatch { .. } => "error.sha1_mismatch",
            LauncherError::InvalidMavenCoordinate(_) => "error.invalid_maven_coordinate",
            LauncherError::PomParse(_) => "error.pom_parse",
            LauncherError::Xml(_) => "error.xml",
            LauncherError::Json(_) => "error.json",
            LauncherError::InstanceNotFound(_) => "error.instance_not_found",
            LauncherError::InstanceAlreadyExists(_) => "error.instance_already_exists",
            LauncherError::JavaNotFound(_) => "error.java_not_found",
            LauncherError::JavaExecution(_) => "error.java_execution",
            LauncherError::Loader(_) => "error.loader",
            LauncherError::LoaderApi(_) => "error.loader_api",
            LauncherError::Zip(_) => "error.zip",
            LauncherError::Other(_) => "error.other",
        }
    }

    /// `recoverable` or `fatal`.
    pub fn severity(&self) -> (r: &'static str)
        ensures
            r@ == severity_of(*self),
    {
        if self.is_recoverable() {
            "recoverable"
        } else {
            "fatal"
        }
    }

    /// The broad area the error comes from.
    pub fn kind(&self) -> (r: &'static str)
        ensures
            r@ == kind_of(*self),
    {
        match self {
            LauncherError::Io { .. } => "io",
            LauncherError::Http(_) | LauncherError::DownloadFailed { .. } => "network",
            LauncherError::Sha1Mismatch { .. } => "integrity",
            LauncherError::InvalidMavenCoordinate(_) | LauncherError::PomParse(_) => "maven",
            LauncherError::Xml(_) | LauncherError::Json(_) => "parsing",
            LauncherError::InstanceNotFound(_) | LauncherError::InstanceAlreadyExists(_) => {
                "instance"
            },
            LauncherError::JavaNotFound(_) | LauncherError::JavaExecution(_) => "java",
            LauncherError::Loader(_) | LauncherError::LoaderApi(_) => "loader",
            LauncherError::Zip(_) => "archive",
            LauncherError::Other(_) => "generic",
        }
    }

    /// Whether retrying the operation may succeed.
    pub fn is_recoverable(&self) -> (b: bool)
        ensures
            b == recoverable(*self),
    {
        match self {
            LauncherError::Http(_)
            | LauncherError::DownloadFailed { .. }
            | LauncherError::LoaderApi(_)
            | LauncherError::Io { .. }
            | LauncherError::JavaNotFound(_) => true,
            _ => false,
        }
    }

    /// The human-readable message of the error.
    pub fn message(&self) -> (r: String)
        ensures
            r@ == message_of(*self),
    {
        match self {
            LauncherError::Io { path, message } => {
                let a = joined("IO error at ", debug_quote(path.as_str()).as_str());
                let b = joined(a.as_str(), ": ");
                joined(b.as_str(), message.as_str())
            },
            LauncherError::Http(m) => joined("HTTP request failed: ", m.as_str()),
            LauncherError::DownloadFailed { url, status } => {
                let a = joined("Download failed for ", url.as_str());
                let b = joined(a.as_str(), ": HTTP ");
                joined(b.as_str(), u64_to_decimal(*status as u64).as_str())
            },
            LauncherError::Sha1Mismatch { path, expected, actual } => {
                let a = joined("SHA-1 mismatch for ", debug_quote(path.as_str()).as_str());
                let b = joined(a.as_str(), ": expected ");
                let c = joined(b.as_str(), expected.as_str());
                let d = joined(c.as_str(), ", got ");
                joined(d.as_str(), actual.as_str())
            },
            LauncherError::InvalidMavenCoordinate(m) => joined(
                "Invalid Maven coordinate: ",
                m.as_str(),
            ),
            LauncherError::PomParse(m) => joined("POM parse error: ", m.as_str()),
            LauncherError::Xml(m) => joined("XML parse error: ", m.as_str()),
            LauncherError::Json(m) => joined("JSON error: ", m.as_str()),
            LauncherError::InstanceNotFound(m) => joined("Instance not found: ", m.as_str()),
            LauncherError::InstanceAlreadyExists(m) => joined(
                "Instance already exists: ",
                m.as_str(),
            ),
            LauncherError::JavaNotFound(major) => joined(
                "Java not found for major version ",
                u64_to_decimal(*major as u64).as_str(),
            ),
            LauncherError::JavaExecution(m) => joined("Java execution failed: ", m.as_str()),
            LauncherError::Loader(m) => joined("Loader error: ", m.as_str()),
            LauncherError::LoaderApi(m) => joined("Loader API unreachable: ", m.as_str()),
            LauncherError::Zip(m) => joined("Zip extraction error: ", m.as_str()),
            LauncherError::Other(m) => String::from_str(m.as_str()),
        }
    }
}

/// An error's severity is `recoverable` exactly when it is recoverable, and
/// `fatal` otherwise.
pub proof fn severity_matches_recoverability(e: LauncherError)
    ensures
        severity_of(e) == "recoverable"@ <==> recoverable(e),
        severity_of(e) == "fatal"@ <==> !recoverable(e),
{
    reveal_strlit("recoverable");
    reveal_strlit("fatal");
    assert("recoverable"@.len() != "fatal"@.len());
}

} // verus!
