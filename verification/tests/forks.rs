use mcerv::system::forks::{
    detect_fork_from_main_class, detect_game_version, detect_server_fork, fabric_version,
    forge_version, is_vanilla, DetectServerInfoError, JarTexts, ServerFork,
};
use mcerv::system::server_info::ServerInfo;

const VANILLA_MANIFEST: &str =
    "Manifest-Version: 1.0\r\nMain-Class: net.minecraft.bundler.Main\r\nBundler-Format: 1.0\r\n\r\n";
const FABRIC_MANIFEST: &str =
    "Manifest-Version: 1.0\nMain-Class: net.fabricmc.installer.ServerLauncher\n";
const FORGE_MANIFEST: &str =
    "Manifest-Version: 1.0\r\nMain-Class: net.minecraftforge.bootstrap.shim.Main\r\n";
const FABRIC_PROPERTIES: &str = "fabric-loader-version=0.16.14\ngame-version=1.21.8\n";
const FORGE_SHIM_LIST: &str = "0a1b net.minecraftforge:bootstrap:2.1.7 net/minecraftforge/bootstrap/2.1.7/bootstrap-2.1.7.jar\n9f8e net.minecraftforge:forge:1.21.8-58.1.0:server net/minecraftforge/forge/1.21.8-58.1.0/forge-1.21.8-58.1.0-server.jar\n";

fn texts(
    manifest: Option<&str>,
    version_name: Option<&str>,
    install_properties: Option<&str>,
    bootstrap_shim_list: Option<&str>,
) -> JarTexts {
    JarTexts {
        manifest: manifest.map(String::from),
        version_name: version_name.map(String::from),
        install_properties: install_properties.map(String::from),
        bootstrap_shim_list: bootstrap_shim_list.map(String::from),
    }
}

#[test]
fn test_detect_vanilla_fork() {
    let fork = detect_server_fork(VANILLA_MANIFEST).unwrap();

    assert!(matches!(fork, ServerFork::Vanilla))
}

#[test]
fn test_detect_fabric_fork() {
    let fork = detect_server_fork(FABRIC_MANIFEST).unwrap();

    assert!(matches!(fork, ServerFork::Fabric));
}

#[test]
fn test_detect_forge_fork() {
    let fork = detect_server_fork(FORGE_MANIFEST).unwrap();

    assert!(matches!(fork, ServerFork::Forge));
}

#[test]
fn test_detect_game_version_vanilla() {
    let jar = texts(Some(VANILLA_MANIFEST), Some("1.21.8"), None, None);
    let version = detect_game_version(&jar, ServerFork::Vanilla).unwrap();

    assert_eq!(version, "1.21.8")
}

#[test]
fn test_detect_game_version_fabric() {
    let jar = texts(Some(FABRIC_MANIFEST), None, Some(FABRIC_PROPERTIES), None);
    let version = detect_game_version(&jar, ServerFork::Fabric).unwrap();

    assert_eq!(version, "1.21.8")
}

#[test]
fn test_detect_game_version_forge() {
    let jar = texts(Some(FORGE_MANIFEST), None, None, Some(FORGE_SHIM_LIST));
    let version = detect_game_version(&jar, ServerFork::Forge).unwrap();

    assert_eq!(version, "1.21.8")
}

#[test]
fn main_class_decides_the_fork() {
    assert_eq!(
        detect_fork_from_main_class("net.minecraft.server.Main"),
        Ok(ServerFork::Vanilla)
    );
    assert_eq!(
        detect_fork_from_main_class("net.fabricmc.loader.launch.server.FabricServerLauncher"),
        Ok(ServerFork::Fabric)
    );
    assert_eq!(
        detect_fork_from_main_class("net.minecraftforge.server.ServerMain"),
        Ok(ServerFork::Forge)
    );
    assert_eq!(
        detect_fork_from_main_class("org.bukkit.craftbukkit.Main"),
        Err(DetectServerInfoError::UnknownServerFork)
    );
    assert_eq!(
        detect_fork_from_main_class("x.net.fabricmc.y.net.minecraft.z"),
        Ok(ServerFork::Vanilla)
    );
    assert!(ServerFork::Forge.is_this_fork("net.minecraftforge.Main"));
    assert!(!ServerFork::Vanilla.is_this_fork("net.minecraftforge.Main"));
}

#[test]
fn manifest_without_main_class_is_an_error() {
    assert_eq!(
        detect_server_fork("Manifest-Version: 1.0\nCreated-By: someone\n"),
        Err(DetectServerInfoError::MainClassNotFound)
    );
    assert_eq!(
        detect_server_fork("Main-Class:net.minecraft.Main\n"),
        Err(DetectServerInfoError::MainClassNotFound)
    );
    assert_eq!(
        detect_server_fork("Main-Class: com.example.Main\n"),
        Err(DetectServerInfoError::UnknownServerFork)
    );
}

#[test]
fn is_vanilla_reads_the_manifest() {
    assert_eq!(is_vanilla(VANILLA_MANIFEST), Ok(true));
    assert_eq!(is_vanilla(FABRIC_MANIFEST), Ok(false));
    assert_eq!(
        is_vanilla("nothing here"),
        Err(DetectServerInfoError::MainClassNotFound)
    );
}

#[test]
fn game_version_needs_its_file() {
    let empty = texts(None, None, None, None);
    for fork in [ServerFork::Vanilla, ServerFork::Fabric, ServerFork::Forge] {
        assert_eq!(
            detect_game_version(&empty, fork),
            Err(DetectServerInfoError::GameVersionNotFound)
        );
    }
    assert_eq!(fabric_version("fabric-loader-version=0.16.14\n"), None);
    assert_eq!(fabric_version("game-version=1.20\ngame-version=1.21\n"), Some("1.21".to_string()));
    assert_eq!(forge_version("no such line\n"), None);
    assert_eq!(
        forge_version("h net.minecraftforge:forge:1.20.1-47.2.0:server path\n"),
        Some("1.20.1".to_string())
    );
    assert_eq!(
        forge_version("h net.minecraftforge:forge:1.20.1:server path\n"),
        Some("1.20.1".to_string())
    );
}

#[test]
fn version_file_by_fork() {
    assert_eq!(ServerFork::Vanilla.version_file(), "version.json");
    assert_eq!(ServerFork::Fabric.version_file(), "install.properties");
    assert_eq!(ServerFork::Forge.version_file(), "bootstrap-shim.list");
    assert_eq!(ServerFork::Forge.name(), "Forge");
}

#[test]
fn server_info_from_the_texts_of_a_jar() {
    let jar = texts(Some(FABRIC_MANIFEST), None, Some(FABRIC_PROPERTIES), None);
    let info = ServerInfo::new(&jar).unwrap();
    assert_eq!(
        info,
        ServerInfo {
            server_fork: ServerFork::Fabric,
            game_version: "1.21.8".to_string(),
        }
    );
    assert_eq!(
        info.describe(),
        "Server Fork: Fabric\nMinecraft Version: 1.21.8\n"
    );

    assert_eq!(
        ServerInfo::new(&texts(None, Some("1.21.8"), None, None)),
        Err(DetectServerInfoError::MainClassNotFound)
    );
    assert_eq!(
        ServerInfo::new(&texts(Some(VANILLA_MANIFEST), None, Some(FABRIC_PROPERTIES), None)),
        Err(DetectServerInfoError::GameVersionNotFound)
    );
    assert_eq!(
        ServerInfo::new(&texts(Some("Main-Class: a.b.C\n"), Some("1.21.8"), None, None)),
        Err(DetectServerInfoError::UnknownServerFork)
    );
}

#[test]
fn errors_have_their_words() {
    assert_eq!(
        DetectServerInfoError::MainClassNotFound.message(),
        "Main-Class not found in MANIFEST.MF"
    );
    assert_eq!(
        DetectServerInfoError::UnknownServerFork.message(),
        "Detected an unknown server fork. Probably not supported by mcerv"
    );
    assert_eq!(
        DetectServerInfoError::GameVersionNotFound.message(),
        "Game version not found in install.properties"
    );
}
