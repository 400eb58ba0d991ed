use vstd::prelude::*;

use crate::strmap::StrMap;

verus! {

/// A JSON value that the launcher carries through without reading it.
#[verifier::external_type_specification]
#[verifier::external_body]
pub struct ExJsonValue(serde_json::Value);

/// The version manifest: the latest version ids and every published version.
pub struct VersionManifest {
    pub latest: Latest,
    pub versions: Vec<Versions>,
}

/// Ids of the latest release and the latest snapshot.
pub struct Latest {
    pub release: String,
    pub snapshot: String,
}

/// One entry of the version manifest.
pub struct Versions {
    pub id: String,
    /// The manifest's `type` field ("release", "snapshot", "old_beta", ...).
    pub version_type: String,
    pub url: String,
    pub time: String,
    pub release_time: String,
    pub sha1: String,
    pub compliance_level: u32,
}

/// The description of one game version, as its version file gives it.
pub struct Version {
    pub arguments: Option<serde_json::Value>,
    pub asset_index: AssetIndex,
    pub assets: String,
    pub compliance_level: u32,
    pub downloads: StrMap<VersionDownload>,
    pub id: String,
    pub java_version: serde_json::Value,
    pub libraries: Vec<Library>,
    pub logging: Option<serde_json::Value>,
    pub main_class: String,
    pub minimum_launcher_version: u32,
    pub release_time: String,
    pub time: String,
    /// The version file's `type` field.
    pub version_type: String,
}

/// Where the asset index of a version is found.
pub struct AssetIndex {
    pub id: String,
    pub sha1: String,
    pub size: u32,
    pub total_size: u32,
    pub url: String,
}

/// One downloadable file of a version (the client jar, the server jar, ...).
pub struct VersionDownload {
    pub sha1: String,
    pub size: u32,
    pub url: String,
}

/// A library that the game needs on its class path.
pub struct Library {
    pub downloads: Downloads,
    pub extract: Option<serde_json::Value>,
    pub name: Option<String>,
    pub natives: Option<serde_json::Value>,
    pub rules: Option<Vec<serde_json::Value>>,
}

/// The files of a library: its main artifact and its native classifiers.
pub struct Downloads {
    pub artifact: Option<Artifact>,
    pub classifiers: Option<StrMap<Artifact>>,
}

/// A file to download, with the path it takes under the libraries folder.
pub struct Artifact {
    pub path: String,
    pub sha1: String,
    pub size: u32,
    pub url: String,
}

/// An asset index: every asset object by its name.
pub struct Assets {
    pub objects: StrMap<Asset>,
}

/// One asset object, found by its hash.
pub struct Asset {
    pub hash: String,
    pub size: u32,
}

} // verus!
