use kawaii_launcher::model::{
    Artifact, Asset, AssetIndex, Assets, Downloads, Library, Version, VersionDownload,
};
use kawaii_launcher::plan::{
    asset_downloads, check_asset_hashes, check_library_artifacts, client_download,
    library_downloads,
};
use kawaii_launcher::strmap::StrMap;

fn asset(hash: &str) -> Asset {
    Asset { hash: hash.to_string(), size: 10 }
}

fn library(path: Option<&str>) -> Library {
    Library {
        downloads: Downloads {
            artifact: path.map(|p| Artifact {
                path: p.to_string(),
                sha1: "s".to_string(),
                size: 1,
                url: format!("https://libraries.minecraft.net/{}", p),
            }),
            classifiers: None,
        },
        extract: None,
        name: Some("lib".to_string()),
        natives: None,
        rules: None,
    }
}

fn version_with_downloads(downloads: StrMap<VersionDownload>) -> Version {
    Version {
        arguments: None,
        asset_index: AssetIndex {
            id: "5".to_string(),
            sha1: "s".to_string(),
            size: 1,
            total_size: 2,
            url: "u".to_string(),
        },
        assets: "5".to_string(),
        compliance_level: 1,
        downloads,
        id: "1.20.1".to_string(),
        java_version: serde_json::Value::Null,
        libraries: Vec::new(),
        logging: None,
        main_class: "Main".to_string(),
        minimum_launcher_version: 21,
        release_time: "t".to_string(),
        time: "t".to_string(),
        version_type: "release".to_string(),
    }
}

#[test]
fn one_download_per_asset() {
    let mut objects = StrMap::new();
    objects.insert("icons/icon_16x16.png".to_string(), asset("bdf48ef6b5d0d23bbb02e17d04865216179f510a"));
    objects.insert("minecraft/sounds/a.ogg".to_string(), asset("0123456789abcdef0123456789abcdef01234567"));
    let assets = Assets { objects };
    assert!(check_asset_hashes(&assets));
    let plan = asset_downloads(&assets);
    assert_eq!(plan.len(), 2);
    assert_eq!(plan[0].hash, "bdf48ef6b5d0d23bbb02e17d04865216179f510a");
    assert_eq!(plan[0].path, "minecraft/assets/objects/bd/bdf48ef6b5d0d23bbb02e17d04865216179f510a");
    assert_eq!(
        plan[0].url,
        "https://resources.download.minecraft.net/bd/bdf48ef6b5d0d23bbb02e17d04865216179f510a"
    );
    assert_eq!(plan[1].path, "minecraft/assets/objects/01/0123456789abcdef0123456789abcdef01234567");
    assert_eq!(
        plan[1].url,
        "https://resources.download.minecraft.net/01/0123456789abcdef0123456789abcdef01234567"
    );
}

#[test]
fn short_hash_is_refused() {
    let mut objects = StrMap::new();
    objects.insert("ok".to_string(), asset("abcd"));
    objects.insert("bad".to_string(), asset("a"));
    assert!(!check_asset_hashes(&Assets { objects }));
    assert!(check_asset_hashes(&Assets { objects: StrMap::new() }));
}

#[test]
fn one_download_per_library() {
    let libs = vec![
        library(Some("com/mojang/logging/1.1.1/logging-1.1.1.jar")),
        library(Some("/abs/x.jar")),
    ];
    assert!(check_library_artifacts(&libs));
    let plan = library_downloads(&libs);
    assert_eq!(plan.len(), 2);
    assert_eq!(plan[0].path, "minecraft/libraries/com/mojang/logging/1.1.1/logging-1.1.1.jar");
    assert_eq!(
        plan[0].url,
        "https://libraries.minecraft.net/com/mojang/logging/1.1.1/logging-1.1.1.jar"
    );
    assert_eq!(plan[1].path, "/abs/x.jar");
}

#[test]
fn library_without_artifact_is_refused() {
    let libs = vec![library(Some("a.jar")), library(None)];
    assert!(!check_library_artifacts(&libs));
    assert!(check_library_artifacts(&Vec::new()));
}

#[test]
fn client_download_found_by_name() {
    let mut d = StrMap::new();
    d.insert(
        "server".to_string(),
        VersionDownload { sha1: "1".to_string(), size: 1, url: "server-url".to_string() },
    );
    d.insert(
        "client".to_string(),
        VersionDownload { sha1: "2".to_string(), size: 2, url: "client-url".to_string() },
    );
    let v = version_with_downloads(d);
    assert_eq!(client_download(&v).unwrap().url, "client-url");
    let w = version_with_downloads(StrMap::new());
    assert!(client_download(&w).is_none());
}
