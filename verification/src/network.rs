//! The rules about what the metadata services tell: which versions are
//! listed, what is asked of the services, and what a batch of downloads
//! leaves to do.

pub mod fabric_meta;
pub mod forge_meta;
pub mod modrinth;
pub mod vanilla_meta;
