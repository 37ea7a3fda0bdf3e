//! What is known of a server from its jar.

use vstd::prelude::*;
use vstd::string::StringExecFns;
use crate::system::forks::{
    detect_game_version,
    detect_server_fork,
    fork_in_manifest,
    game_version_in,
    DetectServerInfoError,
    JarTexts,
    ServerFork,
};
use crate::text::option_view;

verus! {

/// The kind of a server and the version of the game that it runs.
#[derive(Clone, Debug, PartialEq, Eq)]
pub struct ServerInfo {
    pub server_fork: ServerFork,
    pub game_version: String,
}

/// What the texts of a jar tell of the server: its kind, from the manifest,
/// and the game version, from the file that this kind keeps it in.
pub open spec fn info_in(
    manifest: Option<Seq<char>>,
    version_name: Option<Seq<char>>,
    install_properties: Option<Seq<char>>,
    bootstrap_shim_list: Option<Seq<char>>,
) -> Result<(ServerFork, Seq<char>), DetectServerInfoError> {
    match manifest {
        None => Err(DetectServerInfoError::MainClassNotFound),
        Some(text) => match fork_in_manifest(text) {
            Err(e) => Err(e),
            Ok(fork) => match game_version_in(
                fork,
                version_name,
                install_properties,
                bootstrap_shim_list,
            ) {
                Some(version) => Ok((fork, version)),
                None => Err(DetectServerInfoError::GameVersionNotFound),
            },
        },
    }
}

impl ServerInfo {
    /// Reads the kind of server and the game version from the texts of its
    /// jar.
    pub fn new(texts: &JarTexts) -> (r: Result<ServerInfo, DetectServerInfoError>)
        ensures
            match info_in(
                option_view(texts.manifest),
                option_view(texts.version_name),
                option_view(texts.install_properties),
                option_view(texts.bootstrap_shim_list),
            ) {
                Ok((fork, version)) => r matches Ok(info) && info.server_fork == fork
                    && info.game_version@ == version,
                Err(e) => r == Err::<ServerInfo, DetectServerInfoError>(e),
            },
    {
        let manifest = match &texts.manifest {
            Some(text) => text,
            None => {
                return Err(DetectServerInfoError::MainClassNotFound);
            },
        };
        let server_fork = match detect_server_fork(manifest.as_str()) {
            Ok(fork) => fork,
            Err(e) => {
                return Err(e);
            },
        };
        match detect_game_version(texts, server_fork) {
            Ok(game_version) => Ok(ServerInfo { server_fork, game_version }),
            Err(e) => Err(e),
        }
    }

    /// The information in words, one fact to a line.
    pub fn describe(&self) -> (r: String)
        ensures
            r@ == "Server Fork: "@ + match self.server_fork {
                ServerFork::Vanilla => "Vanilla"@,
                ServerFork::Fabric => "Fabric"@,
                ServerFork::Forge => "Forge"@,
            } + "\nMinecraft Version: "@ + self.game_version@ + "\n"@,
    {
        String::from_str("Server Fork: ").concat(self.server_fork.name()).concat(
            "\nMinecraft Version: ",
        ).concat(self.game_version.as_str()).concat("\n")
    }
}

} // verus!
