use kawaii_launcher::paths::{
    asset_index_download_path, asset_index_path, asset_object_name_of, asset_object_path,
    asset_object_url, assets_objects_folder, hash_prefix_of, is_hash_splittable, join_path,
    library_path, required_folders, version_jar_path, version_json_path, ASSETS_FOLDER,
    LIBRARY_FOLDER, VERSION_FOLDER, VERSION_MANIFEST_URL,
};
use kawaii_launcher::model::{Artifact, AssetIndex, Version};
use kawaii_launcher::strmap::StrMap;

fn version(id: &str, asset_id: &str, assets: &str) -> Version {
    Version {
        arguments: None,
        asset_index: AssetIndex {
            id: asset_id.to_string(),
            sha1: "s".to_string(),
            size: 1,
            total_size: 2,
            url: "https://example.org/index.json".to_string(),
        },
        assets: assets.to_string(),
        compliance_level: 1,
        downloads: StrMap::new(),
        id: id.to_string(),
        java_version: serde_json::Value::Null,
        libraries: Vec::new(),
        logging: None,
        main_class: "net.minecraft.client.main.Main".to_string(),
        minimum_launcher_version: 21,
        release_time: "t".to_string(),
        time: "t".to_string(),
        version_type: "release".to_string(),
    }
}

#[test]
fn join_puts_one_separator() {
    assert_eq!(join_path("minecraft/assets", "objects"), "minecraft/assets/objects");
    assert_eq!(join_path("minecraft/", "objects"), "minecraft/objects");
    assert_eq!(join_path("", "objects"), "objects");
    assert_eq!(join_path("a", ""), "a/");
}

#[test]
fn join_with_absolute_path_replaces_base() {
    assert_eq!(join_path("minecraft/libraries", "/opt/x.jar"), "/opt/x.jar");
}

#[test]
fn hash_prefix_is_first_two_bytes() {
    assert_eq!(hash_prefix_of("bdf48ef6b5d0d23bbb02e17d04865216179f510a"), "bd");
    assert_eq!(hash_prefix_of("é1"), "é");
    assert!(is_hash_splittable("ab"));
    assert!(!is_hash_splittable("a"));
    assert!(!is_hash_splittable("aé"));
}

#[test]
fn asset_object_locations() {
    let h = "bdf48ef6b5d0d23bbb02e17d04865216179f510a";
    assert_eq!(asset_object_name_of(h), "bd/bdf48ef6b5d0d23bbb02e17d04865216179f510a");
    assert_eq!(
        asset_object_path(h),
        "minecraft/assets/objects/bd/bdf48ef6b5d0d23bbb02e17d04865216179f510a"
    );
    assert_eq!(
        asset_object_url(h),
        "https://resources.download.minecraft.net/bd/bdf48ef6b5d0d23bbb02e17d04865216179f510a"
    );
    assert_eq!(assets_objects_folder(), "minecraft/assets/objects");
}

#[test]
fn asset_index_files() {
    let v = version("1.20.1", "5", "5");
    assert_eq!(asset_index_path(&v), "minecraft/assets/indexes/5.json");
    assert_eq!(asset_index_download_path(&v), "minecraft/assets/indexes/5.json");
    let w = version("1.20.1", "17", "legacy");
    assert_eq!(asset_index_path(&w), "minecraft/assets/indexes/17.json");
    assert_eq!(asset_index_download_path(&w), "minecraft/assets/indexes/legacy.json");
}

#[test]
fn index_written_is_read_when_names_agree() {
    let v = version("1.8.9", "1.8", "1.8");
    assert_eq!(asset_index_path(&v), asset_index_download_path(&v));
    let abs = version("1.8.9", "/tmp/x", "/tmp/x");
    assert_eq!(asset_index_path(&abs), "/tmp/x.json");
    assert_eq!(asset_index_download_path(&abs), "minecraft/assets/indexes//tmp/x.json");
}

#[test]
fn version_files() {
    let v = version("1.20.1", "5", "5");
    assert_eq!(version_jar_path(&v), "minecraft/versions/1.20.1/1.20.1.jar");
    assert_eq!(version_json_path(&v), "minecraft/versions/1.20.1/1.20.1.json");
}

#[test]
fn library_file() {
    let a = Artifact {
        path: "org/lwjgl/lwjgl/3.3.1/lwjgl-3.3.1.jar".to_string(),
        sha1: "x".to_string(),
        size: 3,
        url: "https://libraries.minecraft.net/org/lwjgl/lwjgl/3.3.1/lwjgl-3.3.1.jar".to_string(),
    };
    assert_eq!(library_path(&a), "minecraft/libraries/org/lwjgl/lwjgl/3.3.1/lwjgl-3.3.1.jar");
}

#[test]
fn folders_and_addresses() {
    assert_eq!(
        required_folders(),
        vec!["minecraft", "minecraft/assets", "minecraft/libraries", "minecraft/versions"]
    );
    assert_eq!(ASSETS_FOLDER, "minecraft/assets");
    assert_eq!(LIBRARY_FOLDER, "minecraft/libraries");
    assert_eq!(VERSION_FOLDER, "minecraft/versions");
    assert_eq!(
        VERSION_MANIFEST_URL,
        "https://piston-meta.mojang.com/mc/game/version_manifest_v2.json"
    );
}
