//! The kinds of server software, and how a server jar tells which kind it
//! is and which version of the game it runs.

use vstd::prelude::*;
use crate::seqs::{first_index, lemma_first_index_is, lemma_first_index_none};
use crate::system::jar_parser::{entries_of, parse_manifest, parse_properties};
use crate::text::{
    chars_of,
    contains,
    has_infix,
    lines,
    lines_of,
    option_view,
    piece_views,
    split,
    split_on,
    string_from_chars,
};
use crate::config::word_holds;

verus! {

/// The kinds of server software.
#[derive(Clone, Copy, Debug, PartialEq, Eq, Structural)]
pub enum ServerFork {
    Vanilla,
    Fabric,
    Forge,
}

/// Why a jar does not tell what it is.
#[derive(Clone, Copy, Debug, PartialEq, Eq, Structural)]
pub enum DetectServerInfoError {
    /// The manifest names no main class.
    MainClassNotFound,
    /// The main class belongs to none of the kinds known here.
    UnknownServerFork,
    /// The jar does not say which version of the game it runs.
    GameVersionNotFound,
}

impl DetectServerInfoError {
    /// The words shown to the user.
    pub fn message(&self) -> (r: &'static str)
        ensures
            r@ == match *self {
                DetectServerInfoError::MainClassNotFound => "Main-Class not found in MANIFEST.MF"@,
                DetectServerInfoError::UnknownServerFork =>
                    "Detected an unknown server fork. Probably not supported by mcerv"@,
                DetectServerInfoError::GameVersionNotFound =>
                    "Game version not found in install.properties"@,
            },
    {
        match self {
            DetectServerInfoError::MainClassNotFound => "Main-Class not found in MANIFEST.MF",
            DetectServerInfoError::UnknownServerFork =>
                "Detected an unknown server fork. Probably not supported by mcerv",
            DetectServerInfoError::GameVersionNotFound =>
                "Game version not found in install.properties",
        }
    }
}

/// The texts read from a server jar, each missing where the jar does not
/// hold the file or does not give the value.
pub struct JarTexts {
    /// `META-INF/MANIFEST.MF`.
    pub manifest: Option<String>,
    /// The value of `name` in `version.json`.
    pub version_name: Option<String>,
    /// `install.properties`.
    pub install_properties: Option<String>,
    /// `bootstrap-shim.list`.
    pub bootstrap_shim_list: Option<String>,
}

/// The package that the main class of a kind of server lies in.
pub open spec fn package_of(fork: ServerFork) -> Seq<char> {
    match fork {
        ServerFork::Vanilla => "net.minecraft."@,
        ServerFork::Fabric => "net.fabricmc."@,
        ServerFork::Forge => "net.minecraftforge."@,
    }
}

/// The kind of server that a main class belongs to: the first of Vanilla,
/// Fabric and Forge whose package the name holds.
pub open spec fn fork_of(main_class: Seq<char>) -> Result<ServerFork, DetectServerInfoError> {
    if has_infix(main_class, package_of(ServerFork::Vanilla)) {
        Ok(ServerFork::Vanilla)
    } else if has_infix(main_class, package_of(ServerFork::Fabric)) {
        Ok(ServerFork::Fabric)
    } else if has_infix(main_class, package_of(ServerFork::Forge)) {
        Ok(ServerFork::Forge)
    } else {
        Err(DetectServerInfoError::UnknownServerFork)
    }
}

/// The kind of server that a manifest tells of.
pub open spec fn fork_in_manifest(manifest: Seq<char>) -> Result<
    ServerFork,
    DetectServerInfoError,
> {
    let entries = entries_of(lines_of(manifest), ": "@);
    if entries.contains_key("Main-Class"@) {
        fork_of(entries["Main-Class"@])
    } else {
        Err(DetectServerInfoError::MainClassNotFound)
    }
}

/// Holds of the line of a Forge shim list that names the server jar.
pub open spec fn is_forge_server_line() -> spec_fn(Seq<char>) -> bool {
    |line: Seq<char>|
        has_infix(line, "net.minecraftforge:forge:"@) && has_infix(line, ":server"@)
}

/// The game version that a Forge shim list names: in the first line that
/// names the server jar, the third of the parts between colons, up to its
/// first dash.
pub open spec fn forge_game_version(list: Seq<char>) -> Option<Seq<char>> {
    match first_index(lines_of(list), is_forge_server_line()) {
        None => None,
        Some(i) => {
            let parts = split_on(lines_of(list)[i], ':');
            if parts.len() > 2 {
                Some(split_on(parts[2], '-')[0])
            } else {
                None
            }
        },
    }
}

/// The game version that the install properties of a Fabric server name.
pub open spec fn fabric_game_version(properties: Seq<char>) -> Option<Seq<char>> {
    let entries = entries_of(lines_of(properties), "="@);
    if entries.contains_key("game-version"@) {
        Some(entries["game-version"@])
    } else {
        None
    }
}

/// The game version that the texts of a jar give for a kind of server.
pub open spec fn game_version_in(
    fork: ServerFork,
    version_name: Option<Seq<char>>,
    install_properties: Option<Seq<char>>,
    bootstrap_shim_list: Option<Seq<char>>,
) -> Option<Seq<char>> {
    match fork {
        ServerFork::Vanilla => version_name,
        ServerFork::Fabric => match install_properties {
            Some(text) => fabric_game_version(text),
            None => None,
        },
        ServerFork::Forge => match bootstrap_shim_list {
            Some(text) => forge_game_version(text),
            None => None,
        },
    }
}

impl ServerFork {
    /// The name of the kind.
    pub fn name(&self) -> (r: &'static str)
        ensures
            r@ == match *self {
                ServerFork::Vanilla => "Vanilla"@,
                ServerFork::Fabric => "Fabric"@,
                ServerFork::Forge => "Forge"@,
            },
    {
        match self {
            ServerFork::Vanilla => "Vanilla",
            ServerFork::Fabric => "Fabric",
            ServerFork::Forge => "Forge",
        }
    }

    /// Whether a main class belongs to this kind of server.
    pub fn is_this_fork(&self, main_class: &str) -> (b: bool)
        ensures
            b == has_infix(main_class@, package_of(*self)),
    {
        match self {
            ServerFork::Vanilla => word_holds(main_class, "net.minecraft."),
            ServerFork::Fabric => word_holds(main_class, "net.fabricmc."),
            ServerFork::Forge => word_holds(main_class, "net.minecraftforge."),
        }
    }

    /// The file of the jar that tells the game version.
    pub fn version_file(&self) -> (r: &'static str)
        ensures
            r@ == match *self {
                ServerFork::Vanilla => "version.json"@,
                ServerFork::Fabric => "install.properties"@,
                ServerFork::Forge => "bootstrap-shim.list"@,
            },
    {
        match self {
            ServerFork::Vanilla => "version.json",
            ServerFork::Fabric => "install.properties",
            ServerFork::Forge => "bootstrap-shim.list",
        }
    }
}

/// The kind of server that a main class belongs to.
pub fn detect_fork_from_main_class(main_class: &str) -> (r: Result<
    ServerFork,
    DetectServerInfoError,
>)
    ensures
        r == fork_of(main_class@),
{
    if ServerFork::Vanilla.is_this_fork(main_class) {
        Ok(ServerFork::Vanilla)
    } else if ServerFork::Fabric.is_this_fork(main_class) {
        Ok(ServerFork::Fabric)
    } else if ServerFork::Forge.is_this_fork(main_class) {
        Ok(ServerFork::Forge)
    } else {
        Err(DetectServerInfoError::UnknownServerFork)
    }
}

/// The kind of server that the manifest of a jar tells of.
pub fn detect_server_fork(manifest: &str) -> (r: Result<ServerFork, DetectServerInfoError>)
    ensures
        r == fork_in_manifest(manifest@),
{
    let entries = parse_manifest(manifest);
    match entries.get("Main-Class") {
        Some(main_class) => detect_fork_from_main_class(main_class.as_str()),
        None => Err(DetectServerInfoError::MainClassNotFound),
    }
}

/// The game version named in the install properties of a Fabric server.
pub fn fabric_version(install_properties: &str) -> (r: Option<String>)
    ensures
        option_view(r) == fabric_game_version(install_properties@),
{
    let entries = parse_properties(install_properties);
    match entries.get("game-version") {
        Some(version) => Some(version.clone()),
        None => None,
    }
}

/// The game version named in the shim list of a Forge server.
pub fn forge_version(bootstrap_shim_list: &str) -> (r: Option<String>)
    ensures
        option_view(r) == forge_game_version(bootstrap_shim_list@),
{
    let chars = chars_of(bootstrap_shim_list);
    let forge = chars_of("net.minecraftforge:forge:");
    let server = chars_of(":server");
    let all = lines(chars.as_slice());
    let ghost views = piece_views(all@);
    let ghost test = is_forge_server_line();
    let mut i: usize = 0;
    while i < all.len()
        invariant
            i <= all@.len(),
            views == piece_views(all@),
            views == lines_of(bootstrap_shim_list@),
            test == is_forge_server_line(),
            forge@ == "net.minecraftforge:forge:"@,
            server@ == ":server"@,
            forall|j: int| 0 <= j < i ==> !test(#[trigger] views[j]),
        decreases all@.len() - i,
    {
        let line = &all[i];
        if contains(line.as_slice(), forge.as_slice()) && contains(
            line.as_slice(),
            server.as_slice(),
        ) {
            proof {
                lemma_first_index_is(views, test, i as int);
            }
            let parts = split(line.as_slice(), ':');
            if parts.len() > 2 {
                let pieces = split(parts[2].as_slice(), '-');
                return Some(string_from_chars(pieces[0].as_slice()));
            } else {
                return None;
            }
        }
        i += 1;
    }
    proof {
        lemma_first_index_none(views, test);
    }
    None
}

/// The game version that a jar of the given kind runs.
pub fn detect_game_version(texts: &JarTexts, fork: ServerFork) -> (r: Result<
    String,
    DetectServerInfoError,
>)
    ensures
        match game_version_in(
            fork,
            option_view(texts.version_name),
            option_view(texts.install_properties),
            option_view(texts.bootstrap_shim_list),
        ) {
            Some(version) => r matches Ok(found) && found@ == version,
            None => r == Err::<String, DetectServerInfoError>(
                DetectServerInfoError::GameVersionNotFound,
            ),
        },
{
    let found = match fork {
        ServerFork::Vanilla => match &texts.version_name {
            Some(name) => Some(name.clone()),
            None => None,
        },
        ServerFork::Fabric => match &texts.install_properties {
            Some(text) => fabric_version(text.as_str()),
            None => None,
        },
        ServerFork::Forge => match &texts.bootstrap_shim_list {
            Some(text) => forge_version(text.as_str()),
            None => None,
        },
    };
    match found {
        Some(version) => Ok(version),
        None => Err(DetectServerInfoError::GameVersionNotFound),
    }
}

/// Whether the manifest of a jar tells of a vanilla server.
pub fn is_vanilla(manifest: &str) -> (r: Result<bool, DetectServerInfoError>)
    ensures
        match fork_in_manifest(manifest@) {
            Ok(fork) => r == Ok::<bool, DetectServerInfoError>(fork == ServerFork::Vanilla),
            Err(e) => r == Err::<bool, DetectServerInfoError>(e),
        },
{
    match detect_server_fork(manifest) {
        Ok(ServerFork::Vanilla) => Ok(true),
        Ok(_) => Ok(false),
        Err(e) => Err(e),
    }
}

} // verus!
