//! Resolution of the application's storage paths.
//!
//! The library computes the path strings; looking at the file system — does
//! a directory exist, can it be created — and reading the environment happen
//! outside, and their outcomes are passed in as plain values.

use vstd::prelude::*;
use vstd::string::StringExecFns;

verus! {

/// Errors raised when a requested path is missing on disk.
#[derive(Debug, Clone, Copy, PartialEq, Eq, Structural)]
pub enum FileErrors {
    DoesNotExist,
}

/// The path of an application subdirectory under the base directory.
/// `dir_exists` reports whether the directory is already present on disk;
/// `create` grants leave to create it.
pub fn get_path(base: &str, relative_path: &str, create: bool, dir_exists: bool) -> (r: Result<
    String,
    FileErrors,
>)
    ensures
        match r {
            Ok(p) => (dir_exists || create) && p@ == base@ + "/"@ + relative_path@,
            Err(e) => !dir_exists && !create && e == FileErrors::DoesNotExist,
        },
{
    if !dir_exists && !create {
        return Err(FileErrors::DoesNotExist);
    }
    let p = base.to_owned().concat("/").concat(relative_path);
    proof {
        reveal_strlit("/");
        assert(p@ =~= base@ + "/"@ + relative_path@);
    }
    Ok(p)
}

/// The application's base directory under the user's home directory.
pub fn get_frostbyte_base_path(home: &str) -> (r: Result<String, String>)
    ensures
        r matches Ok(p) && p@ == home@ + "/.frostbyte"@,
{
    Ok(home.to_owned().concat("/.frostbyte"))
}

/// The user's home directory, from the environment values passed in:
/// the application data directory when it is set, the home directory
/// otherwise.
pub fn get_base_home_path(appdata: Option<String>, home: Option<String>) -> (r: Result<
    String,
    String,
>)
    ensures
        match r {
            Ok(p) => (appdata matches Some(a) && p@ == a@) || (appdata is None && (
            home matches Some(h) && p@ == h@)),
            Err(_) => appdata is None && home is None,
        },
{
    match appdata {
        Some(a) => Ok(a),
        None => match home {
            Some(h) => Ok(h),
            None => Err("no home directory is set".to_owned()),
        },
    }
}

} // verus!
