use kawaii_launcher::launch::{classpath, jar_file, join_strings, launch_arguments};
use kawaii_launcher::model::{AssetIndex, Version};
use kawaii_launcher::paths::version_jar_path;
use kawaii_launcher::strmap::StrMap;

fn version() -> Version {
    Version {
        arguments: None,
        asset_index: AssetIndex {
            id: "5".to_string(),
            sha1: "s".to_string(),
            size: 1,
            total_size: 2,
            url: "u".to_string(),
        },
        assets: "5".to_string(),
        compliance_level: 1,
        downloads: StrMap::new(),
        id: "1.20.1".to_string(),
        java_version: serde_json::Value::Null,
        libraries: Vec::new(),
        logging: None,
        main_class: "net.minecraft.client.main.Main".to_string(),
        minimum_launcher_version: 21,
        release_time: "t".to_string(),
        time: "t".to_string(),
        version_type: "release".to_string(),
    }
}

#[test]
fn join_strings_puts_separator_between() {
    let v = vec!["a".to_string(), "b".to_string(), "c".to_string()];
    assert_eq!(join_strings(&v, ":"), "a:b:c");
    assert_eq!(join_strings(&vec!["x".to_string()], ":"), "x");
    assert_eq!(join_strings(&Vec::new(), ":"), "");
}

#[test]
fn classpath_lists_jar_then_libraries() {
    let libs = vec!["/home/u/minecraft/libraries/a.jar".to_string(), "/home/u/minecraft/libraries/b.jar".to_string()];
    assert_eq!(
        classpath("1.20.1", &libs),
        "minecraft/versions/1.20.1/1.20.1.jar:/home/u/minecraft/libraries/a.jar:/home/u/minecraft/libraries/b.jar"
    );
    assert_eq!(classpath("1.20.1", &Vec::new()), "minecraft/versions/1.20.1/1.20.1.jar:");
}

#[test]
fn classpath_starts_with_downloaded_jar() {
    let v = version();
    let cp = classpath(&v.id, &vec!["l.jar".to_string()]);
    assert_eq!(cp, format!("{}:l.jar", version_jar_path(&v)));
}

#[test]
fn launch_arguments_exact() {
    let v = version();
    let libs = vec!["/l/a.jar".to_string()];
    let args = launch_arguments(&v, &libs);
    let expected: Vec<String> = vec![
        "-XX:HeapDumpPath=MojangTricksIntelDriversForPerformance_javaw.exe_minecraft.exe.heapdump",
        "-Xss1M",
        "-Djava.library.path=minecraft/libraries",
        "-Djna.tmpdir=minecraft/libraries",
        "-Dorg.lwjgl.system.SharedLibraryExtractPath=minecraft/libraries",
        "-Dio.netty.native.workdir=minecraft/libraries",
        "-Dminecraft.launcher.brand=Kawaii",
        "-Dminecraft.launcher.version=100",
        "-cp",
        "minecraft/versions/1.20.1/1.20.1.jar:/l/a.jar",
        "net.minecraft.client.main.Main",
        "--username",
        "player",
        "--version",
        "1.20.1",
        "--gameDir",
        "minecraft/",
        "--assetsDir",
        "minecraft/assets",
        "--assetIndex",
        "5",
        "--uuid",
        "0",
        "--accessToken",
        "0",
        "--versionType",
        "release",
    ]
    .into_iter()
    .map(|s| s.to_string())
    .collect();
    assert_eq!(args, expected);
}

#[test]
fn jar_file_by_extension() {
    assert_eq!(jar_file("lwjgl-3.3.1.jar"), Some(true));
    assert_eq!(jar_file("x.tar.jar"), Some(true));
    assert_eq!(jar_file("lwjgl.so"), Some(false));
    assert_eq!(jar_file("a.jarx"), Some(false));
    assert_eq!(jar_file("a."), Some(false));
    assert_eq!(jar_file("..jar"), Some(true));
    assert_eq!(jar_file("..."), Some(false));
    assert_eq!(jar_file("README"), None);
    assert_eq!(jar_file(".jar"), None);
    assert_eq!(jar_file(".."), None);
    assert_eq!(jar_file("."), None);
}
