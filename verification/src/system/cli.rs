//! The arguments of the one-shot commands, and the versions that they ask
//! for.

use vstd::prelude::*;
use crate::text::option_view;

verus! {

/// Marks the arguments that narrow a listing of versions.
pub trait FetchFilter {

}

/// Which versions a listing shows.
#[derive(Clone, Copy, Debug, PartialEq, Eq, Structural)]
pub struct VersionsFilter {
    /// List all versions, stable and unstable.
    pub all: bool,
}

impl FetchFilter for VersionsFilter {

}

/// Whether a question is answered with yes beforehand.
#[derive(Clone, Copy, Debug, PartialEq, Eq, Structural)]
pub struct YesArgs {
    pub yes: bool,
}

/// The version of a vanilla server: a version of the game, or the latest
/// stable one.
#[derive(Clone, Debug, PartialEq, Eq)]
pub struct VanillaVersionArgs {
    pub latest_stable: bool,
    pub version: Option<String>,
}

/// The versions of a Fabric server: of the game, of the loader and of the
/// installer. With `latest_stable`, those left out are the latest stable
/// ones.
#[derive(Clone, Debug, PartialEq, Eq)]
pub struct FabricVersionArgs {
    pub latest_stable: bool,
    pub game_version: Option<String>,
    pub loader_version: Option<String>,
    pub installer_version: Option<String>,
}

/// The version of a Forge server: a version of the installer, as in
/// `1.21.8-58.1.1`, or the latest one.
#[derive(Clone, Debug, PartialEq, Eq)]
pub struct ForgeVersionArgs {
    pub latest: bool,
    pub version: Option<String>,
}

/// One of two texts: the first where it is there, else the second.
pub open spec fn first_of(own: Option<Seq<char>>, other: Option<Seq<char>>) -> Option<Seq<char>> {
    match own {
        Some(text) => Some(text),
        None => other,
    }
}

fn pick(own: &Option<String>, other: Option<&String>) -> (r: Option<String>)
    ensures
        option_view(r) == first_of(
            option_view(*own),
            match other {
                Some(text) => Some(text@),
                None => None,
            },
        ),
{
    match own {
        Some(text) => Some(text.clone()),
        None => match other {
            Some(text) => Some(text.clone()),
            None => None,
        },
    }
}

impl VanillaVersionArgs {
    /// Whether the arguments are as the command line accepts them: either
    /// the latest stable version is asked for, or a version is named.
    pub open spec fn wf(&self) -> bool {
        self.latest_stable != (self.version is Some)
    }

    /// Whether the latest stable version has to be fetched.
    pub fn needs_latest(&self) -> (b: bool)
        ensures
            b == self.latest_stable,
    {
        self.latest_stable
    }

    /// The version to install, given the latest stable one where it was
    /// fetched. `None` where the version asked for is not at hand.
    pub fn versions(&self, latest: Option<String>) -> (r: Option<String>)
        ensures
            option_view(r) == if self.latest_stable {
                option_view(latest)
            } else {
                option_view(self.version)
            },
    {
        if self.latest_stable {
            latest
        } else {
            match &self.version {
                Some(version) => Some(version.clone()),
                None => None,
            }
        }
    }
}

impl FabricVersionArgs {
    /// Whether the arguments are as the command line accepts them: without
    /// `latest_stable` all three versions are named.
    pub open spec fn wf(&self) -> bool {
        self.latest_stable || (self.game_version is Some && self.loader_version is Some
            && self.installer_version is Some)
    }

    /// Whether the latest stable versions have to be fetched.
    pub fn needs_latest(&self) -> (b: bool)
        ensures
            b == self.latest_stable,
    {
        self.latest_stable
    }

    /// The versions of the game, the loader and the installer to install,
    /// given the latest stable ones where they were fetched. Each is the
    /// one named; where none is named and `latest_stable` is set, it is the
    /// latest stable one. `None` where one of the three is not at hand.
    pub fn versions(&self, latest: &Option<(String, String, String)>) -> (r: Option<
        (String, String, String),
    >)
        ensures
            ({
                let fetched = if self.latest_stable {
                    crate::handlers::triple_view(*latest)
                } else {
                    None
                };
                let game = first_of(
                    option_view(self.game_version),
                    match fetched {
                        Some(triple) => Some(triple.0),
                        None => None,
                    },
                );
                let loader = first_of(
                    option_view(self.loader_version),
                    match fetched {
                        Some(triple) => Some(triple.1),
                        None => None,
                    },
                );
                let installer = first_of(
                    option_view(self.installer_version),
                    match fetched {
                        Some(triple) => Some(triple.2),
                        None => None,
                    },
                );
                if game is Some && loader is Some && installer is Some {
                    r matches Some(found) && found.0@ == game->0 && found.1@ == loader->0
                        && found.2@ == installer->0
                } else {
                    r is None
                }
            }),
    {
        let (latest_game, latest_loader, latest_installer) = match latest {
            Some(triple) => if self.latest_stable {
                (Some(&triple.0), Some(&triple.1), Some(&triple.2))
            } else {
                (None, None, None)
            },
            None => (None, None, None),
        };
        let game = pick(&self.game_version, latest_game);
        let loader = pick(&self.loader_version, latest_loader);
        let installer = pick(&self.installer_version, latest_installer);
        match (game, loader, installer) {
            (Some(game), Some(loader), Some(installer)) => Some((game, loader, installer)),
            _ => None,
        }
    }
}

impl ForgeVersionArgs {
    /// Whether the arguments are as the command line accepts them: either
    /// the latest version is asked for, or a version is named.
    pub open spec fn wf(&self) -> bool {
        self.latest != (self.version is Some)
    }

    /// Whether the latest version has to be fetched.
    pub fn needs_latest(&self) -> (b: bool)
        ensures
            b == self.latest,
    {
        self.latest
    }

    /// The version to install, given the latest one where it was fetched.
    /// `None` where the version asked for is not at hand.
    pub fn versions(&self, latest: Option<String>) -> (r: Option<String>)
        ensures
            option_view(r) == if self.latest {
                option_view(latest)
            } else {
                option_view(self.version)
            },
    {
        if self.latest {
            latest
        } else {
            match &self.version {
                Some(version) => Some(version.clone()),
                None => None,
            }
        }
    }
}

} // verus!
