//! The directories of the server instances, as `/`-separated paths below
//! the data directory of the program.

use vstd::prelude::*;
use vstd::string::StringExecFns;

verus! {

/// A directory that should be there and is not.
#[derive(Clone, Debug, PartialEq, Eq)]
pub enum DirectoryError {
    ServerDirDoesNotExist(String),
    ModsDirDoesNotExist(String),
}

/// A text as `{:?}` shows it: in double quotes, with the characters that
/// need it escaped.
pub uninterp spec fn debug_text(text: Seq<char>) -> Seq<char>;

/// `format!("{:?}", text)`: the `Debug` form of a string, which is a
/// function of the string alone.
#[verifier::external_body]
fn quoted(text: &str) -> (r: String)
    ensures
        r@ == debug_text(text@),
{
    format!("{:?}", text)
}

impl DirectoryError {
    /// The words shown to the user.
    pub fn message(&self) -> (r: String)
        ensures
            r@ == match *self {
                DirectoryError::ServerDirDoesNotExist(path) => "Server directory does not exist: "@
                    + debug_text(path@),
                DirectoryError::ModsDirDoesNotExist(path) => "Mods directory does not exist: "@
                    + debug_text(path@),
            },
    {
        match self {
            DirectoryError::ServerDirDoesNotExist(path) => String::from_str(
                "Server directory does not exist: ",
            ).concat(quoted(path.as_str()).as_str()),
            DirectoryError::ModsDirDoesNotExist(path) => String::from_str(
                "Mods directory does not exist: ",
            ).concat(quoted(path.as_str()).as_str()),
        }
    }
}

/// The entry called `name` of the directory `dir`.
pub open spec fn entry(dir: Seq<char>, name: Seq<char>) -> Seq<char> {
    dir + "/"@ + name
}

/// The directory that holds the server instances.
pub fn instances_dir(data_dir: &str) -> (r: String)
    ensures
        r@ == entry(data_dir@, "instances"@),
{
    String::from_str(data_dir).concat("/").concat("instances")
}

/// The directory of the server instance `server_name`.
pub fn server_dir(data_dir: &str, server_name: &str) -> (r: String)
    ensures
        r@ == entry(entry(data_dir@, "instances"@), server_name@),
{
    instances_dir(data_dir).concat("/").concat(server_name)
}

/// The directory of mods of the server instance `server_name`.
pub fn mods_dir(data_dir: &str, server_name: &str) -> (r: String)
    ensures
        r@ == entry(entry(entry(data_dir@, "instances"@), server_name@), "mods"@),
{
    server_dir(data_dir, server_name).concat("/").concat("mods")
}

/// The directory of a server instance, given whether it exists.
pub fn try_server_dir(data_dir: &str, server_name: &str, exists: bool) -> (r: Result<
    String,
    DirectoryError,
>)
    ensures
        match r {
            Ok(dir) => exists && dir@ == entry(entry(data_dir@, "instances"@), server_name@),
            Err(DirectoryError::ServerDirDoesNotExist(dir)) => !exists && dir@ == entry(
                entry(data_dir@, "instances"@),
                server_name@,
            ),
            Err(DirectoryError::ModsDirDoesNotExist(_)) => false,
        },
{
    let dir = server_dir(data_dir, server_name);
    if !exists {
        return Err(DirectoryError::ServerDirDoesNotExist(dir));
    }
    Ok(dir)
}

/// The directory of mods of a server instance, given whether it exists.
pub fn try_mods_dir(data_dir: &str, server_name: &str, exists: bool) -> (r: Result<
    String,
    DirectoryError,
>)
    ensures
        match r {
            Ok(dir) => exists && dir@ == entry(
                entry(entry(data_dir@, "instances"@), server_name@),
                "mods"@,
            ),
            Err(DirectoryError::ModsDirDoesNotExist(dir)) => !exists && dir@ == entry(
                entry(entry(data_dir@, "instances"@), server_name@),
                "mods"@,
            ),
            Err(DirectoryError::ServerDirDoesNotExist(_)) => false,
        },
{
    let dir = mods_dir(data_dir, server_name);
    if !exists {
        return Err(DirectoryError::ModsDirDoesNotExist(dir));
    }
    Ok(dir)
}

} // verus!
