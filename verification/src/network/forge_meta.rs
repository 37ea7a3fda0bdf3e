//! The files of the Forge installer.

use vstd::prelude::*;
use vstd::string::StringExecFns;

verus! {

/// The name of the installer jar of a Forge version.
pub open spec fn installer_name(version: Seq<char>) -> Seq<char> {
    "forge-"@ + version + "-installer.jar"@
}

/// The address of the installer jar of a Forge version.
pub open spec fn installer_url(version: Seq<char>) -> Seq<char> {
    "https://maven.minecraftforge.net/net/minecraftforge/forge/"@ + version + "/"@
        + installer_name(version)
}

/// The address to fetch the installer of a Forge version from and the name
/// of the file to save it under.
pub fn download_installer(version: &str) -> (r: (String, String))
    ensures
        r.0@ == installer_url(version@),
        r.1@ == installer_name(version@),
{
    let filename = String::from_str("forge-").concat(version).concat("-installer.jar");
    let url = String::from_str(
        "https://maven.minecraftforge.net/net/minecraftforge/forge/",
    ).concat(version).concat("/").concat(filename.as_str());
    (url, filename)
}

/// The name of the server jar that the installer of a Forge version leaves.
pub fn server_jar_name(version: &str) -> (r: String)
    ensures
        r@ == "forge-"@ + version@ + "-shim.jar"@,
{
    String::from_str("forge-").concat(version).concat("-shim.jar")
}

} // verus!
