//! The host platform as the launcher sees it, and path joining.
use vstd::prelude::*;

verus! {

/// The operating system the launcher runs on (chosen by the caller at start-up).
#[derive(Clone, Copy, PartialEq, Eq, Structural, Debug)]
pub enum HostOs {
    Windows,
    MacOs,
    Linux,
}

/// Text of `Path::new(base).join(part)`.
pub uninterp spec fn path_join_result(base: Seq<char>, part: Seq<char>) -> Seq<char>;

/// `Path::new(base).join(part)` rendered as text. Its result is left to the
/// host's path rules (a separator is inserted where needed; an absolute
/// `part` replaces `base`); the contract only names it.
#[verifier::external_body]
pub(crate) fn path_join(base: &str, part: &str) -> (r: String)
    ensures
        r@ == path_join_result(base@, part@),
{
    std::path::Path::new(base).join(part).to_string_lossy().into_owned()
}

/// Joins several components in turn, as chained `Path::join` calls do.
pub open spec fn path_join_all(base: Seq<char>, parts: Seq<Seq<char>>) -> Seq<char>
    decreases parts.len(),
{
    if parts.len() == 0 {
        base
    } else {
        path_join_result(path_join_all(base, parts.drop_last()), parts.last())
    }
}

/// Mojang's name of an operating system in library and argument rules.
pub open spec fn os_name(os: HostOs) -> Seq<char> {
    match os {
        HostOs::Windows => "windows"@,
        HostOs::MacOs => "osx"@,
        HostOs::Linux => "linux"@,
    }
}

/// The Mojang OS name of the host (`windows`, `osx` or `linux`).
pub fn current_os_name(os: HostOs) -> (r: &'static str)
    ensures
        r@ == os_name(os),
{
    match os {
        HostOs::Windows => "windows",
        HostOs::MacOs => "osx",
        HostOs::Linux => "linux",
    }
}

pub open spec fn classpath_separator(os: HostOs) -> Seq<char> {
    if os == HostOs::Windows {
        ";"@
    } else {
        ":"@
    }
}

/// Platform-specific Java classpath separator: `;` on Windows, `:` elsewhere.
pub fn get_classpath_separator(os: HostOs) -> (r: &'static str)
    ensures
        r@ == classpath_separator(os),
{
    match os {
        HostOs::Windows => ";",
        _ => ":",
    }
}

pub open spec fn java_exe_name(os: HostOs) -> Seq<char> {
    if os == HostOs::Windows {
        "java.exe"@
    } else {
        "java"@
    }
}

/// File name of the Java launcher binary on the host.
pub fn java_exe(os: HostOs) -> (r: &'static str)
    ensures
        r@ == java_exe_name(os),
{
    match os {
        HostOs::Windows => "java.exe",
        _ => "java",
    }
}

} // verus!
