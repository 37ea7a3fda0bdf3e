//! The versions that the Fabric metadata service lists.

use vstd::prelude::*;
use vstd::string::StringExecFns;
use crate::seqs::{first_index, lemma_filter_step, lemma_first_index_is, lemma_first_index_none};
use crate::tokenizer::word_views;

verus! {

/// Which versions a listing shows.
#[derive(Clone, Copy, Debug, PartialEq, Eq, Structural)]
pub enum PrintVersionMode {
    All,
    StableOnly,
}

impl PrintVersionMode {
    /// The mode that the flag `all` asks for.
    pub fn from_all_flag(all: bool) -> (r: PrintVersionMode)
        ensures
            r == if all {
                PrintVersionMode::All
            } else {
                PrintVersionMode::StableOnly
            },
    {
        if all {
            PrintVersionMode::All
        } else {
            PrintVersionMode::StableOnly
        }
    }
}

/// A version of the game, as the service lists it.
#[derive(Clone, Debug, PartialEq, Eq)]
pub struct MinecraftVersion {
    pub version: String,
    pub stable: bool,
}

/// A version of the Fabric loader, as the service lists it.
#[derive(Clone, Debug, PartialEq, Eq)]
pub struct FabricLoaderVersion {
    pub separator: String,
    pub build: i32,
    pub maven: String,
    pub version: String,
    pub stable: bool,
}

/// A version of the Fabric installer, as the service lists it.
#[derive(Clone, Debug, PartialEq, Eq)]
pub struct FabricInstallerVersion {
    pub url: String,
    pub maven: String,
    pub version: String,
    pub stable: bool,
}

/// An entry of a version list: a version and whether it is stable.
pub trait Versioned: Sized {
    spec fn version_view(&self) -> Seq<char>;

    spec fn stable_view(&self) -> bool;

    fn version(&self) -> (r: &str)
        ensures
            r@ == self.version_view(),
    ;

    fn is_stable(&self) -> (b: bool)
        ensures
            b == self.stable_view(),
    ;
}

impl Versioned for MinecraftVersion {
    open spec fn version_view(&self) -> Seq<char> {
        self.version@
    }

    open spec fn stable_view(&self) -> bool {
        self.stable
    }

    fn version(&self) -> (r: &str) {
        self.version.as_str()
    }

    fn is_stable(&self) -> (b: bool) {
        self.stable
    }
}

impl Versioned for FabricLoaderVersion {
    open spec fn version_view(&self) -> Seq<char> {
        self.version@
    }

    open spec fn stable_view(&self) -> bool {
        self.stable
    }

    fn version(&self) -> (r: &str) {
        self.version.as_str()
    }

    fn is_stable(&self) -> (b: bool) {
        self.stable
    }
}

impl Versioned for FabricInstallerVersion {
    open spec fn version_view(&self) -> Seq<char> {
        self.version@
    }

    open spec fn stable_view(&self) -> bool {
        self.stable
    }

    fn version(&self) -> (r: &str) {
        self.version.as_str()
    }

    fn is_stable(&self) -> (b: bool) {
        self.stable
    }
}

/// Holds of an entry that a listing in `mode` shows.
pub open spec fn is_shown<T: Versioned>(mode: PrintVersionMode) -> spec_fn(T) -> bool {
    |entry: T| mode == PrintVersionMode::All || entry.stable_view()
}

/// An entry as a listing shows it: the version, and in brackets whether it
/// is stable.
pub open spec fn label<T: Versioned>() -> spec_fn(T) -> Seq<char> {
    |entry: T|
        entry.version_view() + if entry.stable_view() {
            " (stable)"@
        } else {
            " (unstable)"@
        }
}

/// Holds of a stable entry.
pub open spec fn is_stable_entry<T: Versioned>() -> spec_fn(T) -> bool {
    |entry: T| entry.stable_view()
}

/// The entries that a listing in `print_mode` shows, each with its label,
/// in their order.
pub fn filter_and_format<T: Versioned>(versions: &[T], print_mode: PrintVersionMode) -> (r: Vec<
    String,
>)
    ensures
        word_views(r@) == versions@.filter(is_shown::<T>(print_mode)).map_values(label::<T>()),
{
    let ghost shown = is_shown::<T>(print_mode);
    let mut out: Vec<String> = Vec::new();
    let mut i: usize = 0;
    assert(word_views(out@) =~= versions@.take(0).filter(shown).map_values(label::<T>())) by {
        reveal(Seq::filter);
    }
    while i < versions.len()
        invariant
            i <= versions@.len(),
            shown == is_shown::<T>(print_mode),
            word_views(out@) == versions@.take(i as int).filter(shown).map_values(label::<T>()),
        decreases versions@.len() - i,
    {
        let entry = &versions[i];
        let stable = entry.is_stable();
        let keep = match print_mode {
            PrintVersionMode::All => true,
            PrintVersionMode::StableOnly => stable,
        };
        proof {
            lemma_filter_step(versions@, shown, i as int);
        }
        if keep {
            let text = String::from_str(entry.version()).concat(
                if stable {
                    " (stable)"
                } else {
                    " (unstable)"
                },
            );
            proof {
                assert(word_views(out@.push(text)) =~= word_views(out@).push(text@));
            }
            out.push(text);
        }
        i += 1;
    }
    assert(versions@.take(i as int) =~= versions@);
    out
}

/// The version of the first stable entry.
pub fn first_stable<T: Versioned>(versions: &[T]) -> (r: Option<String>)
    ensures
        match first_index(versions@, is_stable_entry::<T>()) {
            Some(i) => r matches Some(version) && version@ == versions@[i].version_view(),
            None => r is None,
        },
{
    let ghost stable = is_stable_entry::<T>();
    let mut i: usize = 0;
    while i < versions.len()
        invariant
            i <= versions@.len(),
            stable == is_stable_entry::<T>(),
            forall|j: int| 0 <= j < i ==> !stable(#[trigger] versions@[j]),
        decreases versions@.len() - i,
    {
        if versions[i].is_stable() {
            proof {
                lemma_first_index_is(versions@, stable, i as int);
            }
            return Some(String::from_str(versions[i].version()));
        }
        i += 1;
    }
    proof {
        lemma_first_index_none(versions@, stable);
    }
    None
}

/// The latest stable versions of the game, the loader and the installer:
/// the first stable entry of each list, which the service gives with the
/// newest first.
pub fn fetch_latest_stable_versions(
    minecraft_versions: &[MinecraftVersion],
    fabric_loader_versions: &[FabricLoaderVersion],
    installer_versions: &[FabricInstallerVersion],
) -> (r: Result<(String, String, String), String>)
    ensures
        match first_index(minecraft_versions@, is_stable_entry::<MinecraftVersion>()) {
            None => r matches Err(message) && message@
                == "Failed to find stable minecraft version"@,
            Some(g) => match first_index(
                fabric_loader_versions@,
                is_stable_entry::<FabricLoaderVersion>(),
            ) {
                None => r matches Err(message) && message@
                    == "Failed to find stable fabric loader version"@,
                Some(l) => match first_index(
                    installer_versions@,
                    is_stable_entry::<FabricInstallerVersion>(),
                ) {
                    None => r matches Err(message) && message@
                        == "Failed to find stable fabric installer version"@,
                    Some(n) => r matches Ok(found) && found.0@ == minecraft_versions@[g].version@
                        && found.1@ == fabric_loader_versions@[l].version@ && found.2@
                        == installer_versions@[n].version@,
                },
            },
        },
{
    let game = match first_stable(minecraft_versions) {
        Some(version) => version,
        None => {
            return Err(String::from_str("Failed to find stable minecraft version"));
        },
    };
    let loader = match first_stable(fabric_loader_versions) {
        Some(version) => version,
        None => {
            return Err(String::from_str("Failed to find stable fabric loader version"));
        },
    };
    let installer = match first_stable(installer_versions) {
        Some(version) => version,
        None => {
            return Err(String::from_str("Failed to find stable fabric installer version"));
        },
    };
    Ok((game, loader, installer))
}

/// The text of column entry `i`: the entry, or a dash where the column has
/// run out.
pub open spec fn cell(column: Seq<Seq<char>>, i: int) -> Seq<char> {
    if 0 <= i < column.len() {
        column[i]
    } else {
        "-"@
    }
}

/// The larger of two lengths.
pub open spec fn longer(a: int, b: int) -> int {
    if a >= b {
        a
    } else {
        b
    }
}

/// The rows of the table of versions: as many as the longest column has
/// entries, with a dash where a shorter column has run out.
pub fn version_rows(
    minecraft_versions: &[String],
    loader_versions: &[String],
    installer_versions: &[String],
) -> (r: Vec<(String, String, String)>)
    ensures
        r@.len() == longer(
            longer(minecraft_versions@.len() as int, loader_versions@.len() as int),
            installer_versions@.len() as int,
        ),
        forall|i: int|
            0 <= i < r@.len() ==> {
                &&& (#[trigger] r@[i]).0@ == cell(word_views(minecraft_versions@), i)
                &&& r@[i].1@ == cell(word_views(loader_versions@), i)
                &&& r@[i].2@ == cell(word_views(installer_versions@), i)
            },
{
    let mut length = minecraft_versions.len();
    if loader_versions.len() > length {
        length = loader_versions.len();
    }
    if installer_versions.len() > length {
        length = installer_versions.len();
    }
    let mut rows: Vec<(String, String, String)> = Vec::new();
    let mut i: usize = 0;
    while i < length
        invariant
            i <= length,
            rows@.len() == i,
            forall|k: int|
                0 <= k < i ==> {
                    &&& (#[trigger] rows@[k]).0@ == cell(word_views(minecraft_versions@), k)
                    &&& rows@[k].1@ == cell(word_views(loader_versions@), k)
                    &&& rows@[k].2@ == cell(word_views(installer_versions@), k)
                },
        decreases length - i,
    {
        let a = column_cell(minecraft_versions, i);
        let b = column_cell(loader_versions, i);
        let c = column_cell(installer_versions, i);
        rows.push((a, b, c));
        i += 1;
    }
    rows
}

fn column_cell(column: &[String], i: usize) -> (r: String)
    ensures
        r@ == cell(word_views(column@), i as int),
{
    if i < column.len() {
        column[i].clone()
    } else {
        String::from_str("-")
    }
}

/// The name of the server jar for these versions.
pub open spec fn jar_name(game: Seq<char>, loader: Seq<char>, installer: Seq<char>) -> Seq<char> {
    "fabric-server-mc."@ + game + "-loader."@ + loader + "-launcher."@ + installer + ".jar"@
}

/// The address of the server jar for these versions.
pub open spec fn jar_url(game: Seq<char>, loader: Seq<char>, installer: Seq<char>) -> Seq<char> {
    "https://meta.fabricmc.net/v2/versions/loader/"@ + game + "/"@ + loader + "/"@ + installer
        + "/server/jar"@
}

/// The address to fetch the server jar from and the name of the file to
/// save it under.
pub fn download_server(game_version: &str, fabric_loader_version: &str, installer_version: &str) -> (r:
    (String, String))
    ensures
        r.0@ == jar_url(game_version@, fabric_loader_version@, installer_version@),
        r.1@ == jar_name(game_version@, fabric_loader_version@, installer_version@),
{
    let url = String::from_str("https://meta.fabricmc.net/v2/versions/loader/").concat(
        game_version,
    ).concat("/").concat(fabric_loader_version).concat("/").concat(installer_version).concat(
        "/server/jar",
    );
    let filename = String::from_str("fabric-server-mc.").concat(game_version).concat(
        "-loader.",
    ).concat(fabric_loader_version).concat("-launcher.").concat(installer_version).concat(".jar");
    (url, filename)
}

} // verus!
