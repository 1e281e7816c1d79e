//! Checksums of downloaded data: SHA-1 and SHA-256 digests, written in hex.
use sha1::Digest;
use vstd::prelude::*;

use crate::error::LauncherError;
use crate::text::{ascii_lower_seq, str_eq, str_eq_ignore_ascii_case, string_from_chars};

verus! {

/// The SHA-1 digest of a byte string.
pub uninterp spec fn sha1_of(data: Seq<u8>) -> Seq<u8>;

/// The SHA-256 digest of a byte string.
pub uninterp spec fn sha256_of(data: Seq<u8>) -> Seq<u8>;

/// SHA-1 of `data` through the `sha1` crate (`Sha1::digest`); the digest is
/// 20 bytes long.
#[verifier::external_body]
fn sha1_digest(data: &[u8]) -> (r: Vec<u8>)
    ensures
        r@ == sha1_of(data@),
        r@.len() == 20,
{
    sha1::Sha1::digest(data).to_vec()
}

/// SHA-256 of `data` through the `sha2` crate (`Sha256::digest`); the digest
/// is 32 bytes long.
#[verifier::external_body]
fn sha256_digest(data: &[u8]) -> (r: Vec<u8>)
    ensures
        r@ == sha256_of(data@),
        r@.len() == 32,
{
    sha2::Sha256::digest(data).to_vec()
}

pub open spec fn hex_table() -> Seq<char> {
    seq!['0', '1', '2', '3', '4', '5', '6', '7', '8', '9', 'a', 'b', 'c', 'd', 'e', 'f']
}

/// Each byte as two lowercase hex digits, high nibble first.
pub open spec fn hex_lower(bytes: Seq<u8>) -> Seq<char>
    decreases bytes.len(),
{
    if bytes.len() == 0 {
        Seq::empty()
    } else {
        let b = bytes.last();
        hex_lower(bytes.drop_last()) + seq![hex_table()[(b / 16) as int], hex_table()[(b % 16) as int]]
    }
}

/// Lowercase hex of a byte string, as `{:x}` writes a digest.
pub fn lower_hex(bytes: &[u8]) -> (r: String)
    ensures
        r@ == hex_lower(bytes@),
{
    let table: Vec<char> = vec!['0', '1', '2', '3', '4', '5', '6', '7', '8', '9', 'a', 'b', 'c', 'd', 'e', 'f'];
    assert(table@ =~= hex_table());
    let mut out: Vec<char> = Vec::new();
    let mut i: usize = 0;
    while i < bytes.len()
        invariant
            i <= bytes.len(),
            table@ == hex_table(),
            out@ == hex_lower(bytes@.take(i as int)),
        decreases bytes.len() - i,
    {
        let b = bytes[i];
        assert(bytes@.take(i + 1).drop_last() =~= bytes@.take(i as int));
        out.push(table[(b / 16) as usize]);
        out.push(table[(b % 16) as usize]);
        i += 1;
        assert(out@ =~= hex_lower(bytes@.take(i as int)));
    }
    assert(bytes@.take(bytes.len() as int) =~= bytes@);
    string_from_chars(out.as_slice())
}

/// The SHA-1 of `data` in lowercase hex.
pub fn sha1_hex(data: &[u8]) -> (r: String)
    ensures
        r@ == hex_lower(sha1_of(data@)),
{
    let d = sha1_digest(data);
    lower_hex(d.as_slice())
}

/// The SHA-256 of `data` in lowercase hex.
pub fn sha256_hex(data: &[u8]) -> (r: String)
    ensures
        r@ == hex_lower(sha256_of(data@)),
{
    let d = sha256_digest(data);
    lower_hex(d.as_slice())
}

/// Whether `data` has the SHA-1 `expected` (compared exactly, as text).
pub fn sha1_matches(data: &[u8], expected: &str) -> (b: bool)
    ensures
        b == (hex_lower(sha1_of(data@)) == expected@),
{
    let actual = sha1_hex(data);
    str_eq(actual.as_str(), expected)
}

/// Checks a download against its expected SHA-1, if it has one; a mismatch
/// names `dest` and both digests.
pub fn check_sha1(dest: &str, data: &[u8], expected: Option<&str>) -> (r: Result<
    (),
    LauncherError,
>)
    ensures
        match expected {
            None => r is Ok,
            Some(e) => if hex_lower(sha1_of(data@)) == e@ {
                r is Ok
            } else {
                r is Err && match r->Err_0 {
                    LauncherError::Sha1Mismatch { path, expected: x, actual } => path@ == dest@
                        && x@ == e@ && actual@ == hex_lower(sha1_of(data@)),
                    _ => false,
                }
            },
        },
{
    match expected {
        None => Ok(()),
        Some(e) => {
            let actual = sha1_hex(data);
            if str_eq(actual.as_str(), e) {
                Ok(())
            } else {
                Err(
                    LauncherError::Sha1Mismatch {
                        path: String::from_str(dest),
                        expected: String::from_str(e),
                        actual,
                    },
                )
            }
        },
    }
}

/// `SHA-256 mismatch for "<path>": expected <expected>, got <actual>`.
pub open spec fn sha256_mismatch_message(path: Seq<char>, expected: Seq<char>, actual: Seq<char>) -> Seq<char> {
    "SHA-256 mismatch for "@ + crate::error::debug_quoted(path) + ": expected "@ + expected
        + ", got "@ + actual
}

/// Checks data against an expected SHA-256, ignoring the case of hex digits.
pub fn verify_sha256(reference_path: &str, data: &[u8], expected_sha256: &str) -> (r: Result<
    (),
    LauncherError,
>)
    ensures
        ascii_lower_seq(hex_lower(sha256_of(data@))) == ascii_lower_seq(expected_sha256@)
            ==> r is Ok,
        ascii_lower_seq(hex_lower(sha256_of(data@))) != ascii_lower_seq(expected_sha256@)
            ==> (r is Err && match r->Err_0 {
            LauncherError::Other(m) => m@ == sha256_mismatch_message(
                reference_path@,
                expected_sha256@,
                hex_lower(sha256_of(data@)),
            ),
            _ => false,
        }),
{
    let actual = sha256_hex(data);
    if str_eq_ignore_ascii_case(actual.as_str(), expected_sha256) {
        Ok(())
    } else {
        let mut m = String::from_str("SHA-256 mismatch for ");
        let q = crate::error::debug_quote(reference_path);
        m.append(q.as_str());
        m.append(": expected ");
        m.append(expected_sha256);
        m.append(", got ");
        m.append(actual.as_str());
        Err(LauncherError::Other(m))
    }
}

/// A response status in `200..=299` lets a download go on; any other is a
/// `DownloadFailed` naming the URL and the status.
pub fn check_download_status(url: &str, status: u16) -> (r: Result<(), LauncherError>)
    ensures
        (200 <= status <= 299) ==> r is Ok,
        !(200 <= status <= 299) ==> (r is Err && match r->Err_0 {
            LauncherError::DownloadFailed { url: u, status: s } => u@ == url@ && s == status,
            _ => false,
        }),
{
    if 200 <= status && status <= 299 {
        Ok(())
    } else {
        Err(LauncherError::DownloadFailed { url: String::from_str(url), status })
    }
}

} // verus!
