use vstd::prelude::*;

use crate::daemon::{join_path, join_path_spec};

verus! {

/// The kinds of I/O failure that the command line reports by name.
#[derive(Clone, Copy, Debug, PartialEq, Eq, Structural)]
pub enum IoErrorKind {
    NotFound,
    PermissionDenied,
    InvalidData,
    Other,
}

pub open spec fn io_error_text(kind: IoErrorKind) -> Seq<char> {
    match kind {
        IoErrorKind::NotFound => "File not found"@,
        IoErrorKind::PermissionDenied => "Permission denied"@,
        IoErrorKind::InvalidData => "Invalid data"@,
        IoErrorKind::Other => "Unknown I/O error"@,
    }
}

/// A short human-readable description of an I/O failure.
pub fn msg_from_io_error(kind: IoErrorKind) -> (r: String)
    ensures
        r@ == io_error_text(kind),
{
    match kind {
        IoErrorKind::NotFound => String::from_str("File not found"),
        IoErrorKind::PermissionDenied => String::from_str("Permission denied"),
        IoErrorKind::InvalidData => String::from_str("Invalid data"),
        IoErrorKind::Other => String::from_str("Unknown I/O error"),
    }
}

/// Errors of the command line's actions.
#[derive(Debug)]
pub enum CliError {
    RequiresArgs,
    InvalidSubcommand,
    EnvironmentError(String),
    ActionError(String),
}

/// Where system-wide keys are kept.
pub const SYSTEM_KEY_PATH: &'static str = "/etc/splinter/keys";

/// Where a user's keys are kept, under the home directory.
pub const USER_KEY_DIR: &'static str = ".splinter/keys";

/// Chooses the directory of a new key pair: the one given, else the system directory where
/// asked, else the keys directory under the user's home.
pub fn resolve_key_dir(key_dir: Option<String>, system: bool, home_dir: Option<String>) -> (r: Result<
    String,
    CliError,
>)
    ensures
        match r {
            Ok(d) => match key_dir {
                Some(k) => d == k,
                None => if system {
                    d@ == SYSTEM_KEY_PATH@
                } else {
                    home_dir is Some && d@ == join_path_spec(home_dir.unwrap()@, USER_KEY_DIR@)
                },
            },
            Err(CliError::EnvironmentError(m)) => key_dir is None && !system && home_dir is None
                && m@ == "Home directory not found"@,
            Err(_) => false,
        },
{
    match key_dir {
        Some(d) => Ok(d),
        None => {
            if system {
                Ok(String::from_str(SYSTEM_KEY_PATH))
            } else {
                match home_dir {
                    Some(h) => Ok(join_path(h.as_str(), USER_KEY_DIR)),
                    None => Err(CliError::EnvironmentError(String::from_str("Home directory not found"))),
                }
            }
        },
    }
}

/// The name of a file once its extension, if any, is replaced by `ext`: the extension is what
/// follows the last `.` that is not the first character.
pub open spec fn with_extension_spec(name: Seq<char>, ext: Seq<char>) -> Seq<char> {
    if exists|i: int| 0 < i < name.len() && name[i] == '.' && forall|j: int| i < j < name.len() ==> name[j] != '.' {
        let i = choose|i: int| 0 < i < name.len() && name[i] == '.' && forall|j: int| i < j < name.len() ==> name[j] != '.';
        name.subrange(0, i) + seq!['.'] + ext
    } else {
        name + seq!['.'] + ext
    }
}

/// The name of a file once its extension, if any, is replaced by `ext`.
pub fn with_extension(name: &str, ext: &str) -> (r: String)
    ensures
        r@ == with_extension_spec(name@, ext@),
{
    let n = name.unicode_len();
    let mut i: usize = n;
    while i > 1
        invariant
            i <= n,
            n == name@.len(),
            forall|j: int| i <= j < n ==> name@[j] != '.',
        decreases i,
    {
        if name.get_char(i - 1) == '.' {
            let k = i - 1;
            proof {
                let w = choose|w: int| 0 < w < name@.len() && name@[w] == '.' && forall|j: int| w < j < name@.len() ==> name@[j] != '.';
                if w < k {
                    assert(name@[k as int] != '.');
                } else if w > k {
                    assert(name@[w] != '.');
                }
            }
            let stem = name.substring_char(0, k).to_owned();
            proof {
                reveal_strlit(".");
            }
            return stem.concat(".").concat(ext);
        }
        i = i - 1;
    }
    proof {
        if exists|w: int| 0 < w < name@.len() && name@[w] == '.' && forall|j: int| w < j < name@.len() ==> name@[j] != '.' {
            let w = choose|w: int| 0 < w < name@.len() && name@[w] == '.' && forall|j: int| w < j < name@.len() ==> name@[j] != '.';
            assert(name@[w] != '.');
        }
        reveal_strlit(".");
    }
    name.to_owned().concat(".").concat(ext)
}

/// The paths of the private and public key files of key `key_name` in `key_dir`.
pub fn key_file_paths(key_dir: &str, key_name: &str) -> (r: (String, String))
    ensures
        r.0@ == join_path_spec(key_dir@, with_extension_spec(key_name@, "priv"@)),
        r.1@ == join_path_spec(key_dir@, with_extension_spec(key_name@, "pub"@)),
{
    let private_name = with_extension(key_name, "priv");
    let public_name = with_extension(key_name, "pub");
    (join_path(key_dir, private_name.as_str()), join_path(key_dir, public_name.as_str()))
}

/// The `Authorization` header value that carries a Cylinder JSON web token.
pub fn cylinder_authorization(token: &str) -> (r: String)
    ensures
        r@ == "Bearer Cylinder:"@ + token@,
{
    String::from_str("Bearer Cylinder:").concat(token)
}

} // verus!
