use vstd::prelude::*;
use vstd::string::StringExecFns;

use crate::model::Version;
use crate::paths::{ASSETS_FOLDER, GAME_FOLDER, LIBRARY_FOLDER, VERSION_FOLDER};
use crate::text::{chars_of, concat2, owned};

verus! {

/// The brand the launcher reports to the game.
pub const LAUNCHER_BRAND: &'static str = "Kawaii";

/// The launcher version it reports to the game.
pub const LAUNCHER_VERSION: &'static str = "100";

/// The player name the game is started with.
pub const PLAYER_NAME: &'static str = "player";

/// Where the JVM writes a heap dump.
pub const HEAP_DUMP_ARG: &'static str = "-XX:HeapDumpPath=MojangTricksIntelDriversForPerformance_javaw.exe_minecraft.exe.heapdump";

/// The strings of `list`, with `sep` between each two.
pub open spec fn join_with(list: Seq<Seq<char>>, sep: Seq<char>) -> Seq<char>
    decreases list.len(),
{
    if list.len() == 0 {
        Seq::empty()
    } else if list.len() == 1 {
        list[0]
    } else {
        join_with(list.drop_last(), sep) + sep + list.last()
    }
}

/// The strings of `list` with `sep` between each two.
pub fn join_strings(list: &Vec<String>, sep: &str) -> (r: String)
    ensures
        r@ == join_with(list@.map_values(|s: String| s@), sep@),
{
    let ghost views = list@.map_values(|s: String| s@);
    let mut r = owned("");
    proof {
        reveal_strlit("");
        assert(views.take(0) =~= Seq::<Seq<char>>::empty());
    }
    let n = list.len();
    let mut i: usize = 0;
    while i < n
        invariant
            n == list@.len(),
            views == list@.map_values(|s: String| s@),
            i <= n,
            r@ == join_with(views.take(i as int), sep@),
        decreases n - i,
    {
        assert(views.take(i + 1).drop_last() =~= views.take(i as int));
        assert(views.take(i + 1).last() == list@[i as int]@);
        if i != 0 {
            r.append(sep);
        } else {
            assert(r@ =~= Seq::<char>::empty());
        }
        r.append(list[i].as_str());
        i = i + 1;
    }
    assert(views.take(n as int) =~= views);
    r
}

/// The class path: the version's jar, then every library, separated by `:`.
pub open spec fn classpath_spec(id: Seq<char>, libraries: Seq<Seq<char>>) -> Seq<char> {
    VERSION_FOLDER@ + "/"@ + id + "/"@ + id + ".jar:"@ + join_with(libraries, ":"@)
}

/// The class path of a version, with the given library files.
pub fn classpath(id: &str, libraries: &Vec<String>) -> (r: String)
    ensures
        r@ == classpath_spec(id@, libraries@.map_values(|s: String| s@)),
{
    let libs = join_strings(libraries, ":");
    let mut r = owned(VERSION_FOLDER);
    r.append("/");
    r.append(id);
    r.append("/");
    r.append(id);
    r.append(".jar:");
    r.append(libs.as_str());
    r
}

/// The command-line arguments the game's JVM is started with.
pub open spec fn launch_arguments_spec(version: Version, libraries: Seq<Seq<char>>) -> Seq<
    Seq<char>,
> {
    seq![
        HEAP_DUMP_ARG@,
        "-Xss1M"@,
        "-Djava.library.path="@ + LIBRARY_FOLDER@,
        "-Djna.tmpdir="@ + LIBRARY_FOLDER@,
        "-Dorg.lwjgl.system.SharedLibraryExtractPath="@ + LIBRARY_FOLDER@,
        "-Dio.netty.native.workdir="@ + LIBRARY_FOLDER@,
        "-Dminecraft.launcher.brand="@ + LAUNCHER_BRAND@,
        "-Dminecraft.launcher.version="@ + LAUNCHER_VERSION@,
        "-cp"@,
        classpath_spec(version.id@, libraries),
        version.main_class@,
        "--username"@,
        PLAYER_NAME@,
        "--version"@,
        version.id@,
        "--gameDir"@,
        GAME_FOLDER@,
        "--assetsDir"@,
        ASSETS_FOLDER@,
        "--assetIndex"@,
        version.asset_index.id@,
        "--uuid"@,
        "0"@,
        "--accessToken"@,
        "0"@,
        "--versionType"@,
        version.version_type@,
    ]
}

/// The arguments of `java` that start `version` with the given library files
/// on its class path.
pub fn launch_arguments(version: &Version, libraries: &Vec<String>) -> (r: Vec<String>)
    ensures
        r@.map_values(|s: String| s@) == launch_arguments_spec(
            *version,
            libraries@.map_values(|s: String| s@),
        ),
{
    let mut r: Vec<String> = Vec::new();
    r.push(owned(HEAP_DUMP_ARG));
    r.push(owned("-Xss1M"));
    r.push(concat2("-Djava.library.path=", LIBRARY_FOLDER));
    r.push(concat2("-Djna.tmpdir=", LIBRARY_FOLDER));
    r.push(concat2("-Dorg.lwjgl.system.SharedLibraryExtractPath=", LIBRARY_FOLDER));
    r.push(concat2("-Dio.netty.native.workdir=", LIBRARY_FOLDER));
    r.push(concat2("-Dminecraft.launcher.brand=", LAUNCHER_BRAND));
    r.push(concat2("-Dminecraft.launcher.version=", LAUNCHER_VERSION));
    r.push(owned("-cp"));
    r.push(classpath(version.id.as_str(), libraries));
    r.push(version.main_class.clone());
    r.push(owned("--username"));
    r.push(owned(PLAYER_NAME));
    r.push(owned("--version"));
    r.push(version.id.clone());
    r.push(owned("--gameDir"));
    r.push(owned(GAME_FOLDER));
    r.push(owned("--assetsDir"));
    r.push(owned(ASSETS_FOLDER));
    r.push(owned("--assetIndex"));
    r.push(version.asset_index.id.clone());
    r.push(owned("--uuid"));
    r.push(owned("0"));
    r.push(owned("--accessToken"));
    r.push(owned("0"));
    r.push(owned("--versionType"));
    r.push(version.version_type.clone());
    assert(r@.map_values(|s: String| s@) =~= launch_arguments_spec(
        *version,
        libraries@.map_values(|s: String| s@),
    ));
    r
}

/// The jar at the head of the class path is the file the downloader stores
/// the version's client jar in, whenever the version id is a non-empty
/// relative path.
pub proof fn law_classpath_starts_with_version_jar(version: Version, libraries: Seq<Seq<char>>)
    requires
        version.id@.len() > 0,
        version.id@[0] != '/',
    ensures
        classpath_spec(version.id@, libraries) == crate::paths::version_jar_path_spec(version)
            + ":"@ + join_with(libraries, ":"@),
{
    reveal_strlit("minecraft/versions");
    reveal_strlit("/");
    reveal_strlit(".jar");
    reveal_strlit(".jar:");
    reveal_strlit(":");
    let id = version.id@;
    let name = crate::paths::version_file_name(id, ".jar"@);
    assert(name[0] == id[0]);
    assert(VERSION_FOLDER@.last() == 's');
    assert(classpath_spec(id, libraries) =~= VERSION_FOLDER@ + seq!['/'] + name + ":"@
        + join_with(libraries, ":"@));
}

/// What the command line holds where: the jar and libraries after `-cp`,
/// the main class after them, and after `--version`, `--assetIndex` and
/// `--versionType` the version's own id, asset index id and type.
pub proof fn law_launch_arguments_name_the_version(version: Version, libraries: Seq<Seq<char>>)
    ensures
        launch_arguments_spec(version, libraries).len() == 27,
        launch_arguments_spec(version, libraries)[8] == "-cp"@,
        launch_arguments_spec(version, libraries)[9] == "minecraft/versions/"@ + version.id@
            + "/"@ + version.id@ + ".jar:"@ + join_with(libraries, ":"@),
        launch_arguments_spec(version, libraries)[10] == version.main_class@,
        launch_arguments_spec(version, libraries)[11] == "--username"@,
        launch_arguments_spec(version, libraries)[12] == "player"@,
        launch_arguments_spec(version, libraries)[13] == "--version"@,
        launch_arguments_spec(version, libraries)[14] == version.id@,
        launch_arguments_spec(version, libraries)[15] == "--gameDir"@,
        launch_arguments_spec(version, libraries)[16] == "minecraft/"@,
        launch_arguments_spec(version, libraries)[17] == "--assetsDir"@,
        launch_arguments_spec(version, libraries)[18] == "minecraft/assets"@,
        launch_arguments_spec(version, libraries)[19] == "--assetIndex"@,
        launch_arguments_spec(version, libraries)[20] == version.asset_index.id@,
        launch_arguments_spec(version, libraries)[25] == "--versionType"@,
        launch_arguments_spec(version, libraries)[26] == version.version_type@,
{
    reveal_strlit("minecraft/versions");
    reveal_strlit("minecraft/versions/");
    reveal_strlit("/");
    assert(classpath_spec(version.id@, libraries) =~= "minecraft/versions/"@ + version.id@ + "/"@
        + version.id@ + ".jar:"@ + join_with(libraries, ":"@));
}

/// Joining two non-empty lists is joining each, with one separator between.
pub proof fn law_join_with_concat(a: Seq<Seq<char>>, b: Seq<Seq<char>>, sep: Seq<char>)
    requires
        a.len() > 0,
        b.len() > 0,
    ensures
        join_with(a + b, sep) == join_with(a, sep) + sep + join_with(b, sep),
    decreases b.len(),
{
    if b.len() == 1 {
        assert((a + b).drop_last() =~= a);
        assert((a + b).last() == b[0]);
    } else {
        let b1 = b.drop_last();
        law_join_with_concat(a, b1, sep);
        assert((a + b).drop_last() =~= a + b1);
        assert((a + b).last() == b.last());
        assert(join_with(a + b, sep) =~= join_with(a, sep) + sep + join_with(b, sep));
    }
}

/// A list of one string joins to that string; a longer list is its first
/// string, the separator and the join of the rest.
pub proof fn law_join_with_first(list: Seq<Seq<char>>, sep: Seq<char>)
    requires
        list.len() > 0,
    ensures
        list.len() == 1 ==> join_with(list, sep) == list[0],
        list.len() > 1 ==> join_with(list, sep) == list[0] + sep + join_with(list.drop_first(), sep),
{
    if list.len() > 1 {
        law_join_with_concat(seq![list[0]], list.drop_first(), sep);
        assert(seq![list[0]] + list.drop_first() =~= list);
    }
}

/// Index of the last `.` in `s`, or -1 when there is none.
pub open spec fn last_dot(s: Seq<char>) -> int
    decreases s.len(),
{
    if s.len() == 0 {
        -1
    } else if s.last() == '.' {
        s.len() - 1
    } else {
        last_dot(s.drop_last())
    }
}

/// The extension of a file name: the text after its last `.`. A name
/// without a `.`, a name whose only `.` is its first character, and `..`
/// have none.
pub open spec fn file_extension(name: Seq<char>) -> Option<Seq<char>> {
    if name == ".."@ {
        None
    } else if last_dot(name) <= 0 {
        None
    } else {
        Some(name.subrange(last_dot(name) + 1, name.len() as int))
    }
}

proof fn lemma_last_dot(s: Seq<char>)
    ensures
        -1 <= last_dot(s) < s.len(),
        last_dot(s) >= 0 ==> s[last_dot(s)] == '.',
        forall|j: int| last_dot(s) < j < s.len() ==> s[j] != '.',
    decreases s.len(),
{
    if s.len() > 0 && s.last() != '.' {
        lemma_last_dot(s.drop_last());
        assert forall|j: int| last_dot(s) < j < s.len() implies s[j] != '.' by {
            if j < s.len() - 1 {
                assert(s[j] == s.drop_last()[j]);
            }
        }
    }
}

/// Whether a file with this name is a jar: `Some(true)` when its extension
/// is `jar`, `Some(false)` for another extension, `None` when it has none.
pub fn jar_file(name: &str) -> (r: Option<bool>)
    ensures
        match file_extension(name@) {
            None => r is None,
            Some(ext) => r == Some(ext == "jar"@),
        },
{
    proof {
        reveal_strlit("..");
        reveal_strlit("jar");
        lemma_last_dot(name@);
    }
    let cs = chars_of(name);
    let n = cs.len();
    if n == 2 && cs[0] == '.' && cs[1] == '.' {
        assert(name@ =~= ".."@);
        return None;
    }
    assert(name@ != ".."@ ==> !(n == 2 && name@[0] == '.' && name@[1] == '.'));
    let mut i: usize = n;
    while i > 0 && cs[i - 1] != '.'
        invariant
            n == cs@.len(),
            cs@ == name@,
            i <= n,
            forall|j: int| i <= j < n ==> cs@[j] != '.',
        decreases i,
    {
        i = i - 1;
    }
    // `i - 1` is the last dot, when `i > 0`
    proof {
        lemma_last_dot_is(name@, i as int - 1);
    }
    if i <= 1 {
        return None;
    }
    let ghost ext = name@.subrange(i as int, n as int);
    if n - i == 3 && cs[i] == 'j' && cs[i + 1] == 'a' && cs[i + 2] == 'r' {
        assert(ext =~= "jar"@);
        Some(true)
    } else {
        assert(ext.len() == 3 ==> ext[0] == cs@[i as int] && ext[1] == cs@[i + 1]
            && ext[2] == cs@[i + 2]);
        assert(ext != "jar"@);
        Some(false)
    }
}

/// A name made of a non-empty start, a dot and a text without dots has
/// that text as its extension (`..` alone excepted); a name without any dot
/// has none.
pub proof fn law_file_extension(stem: Seq<char>, ext: Seq<char>, plain: Seq<char>)
    requires
        stem.len() > 0,
        stem + seq!['.'] + ext != ".."@,
        forall|j: int| 0 <= j < ext.len() ==> ext[j] != '.',
        forall|j: int| 0 <= j < plain.len() ==> plain[j] != '.',
    ensures
        file_extension(stem + seq!['.'] + ext) == Some(ext),
        file_extension(plain) is None,
{
    reveal_strlit("..");
    let name = stem + seq!['.'] + ext;
    let k = stem.len() as int;
    assert(name[k] == '.');
    assert forall|j: int| k < j < name.len() implies name[j] != '.' by {
        assert(name[j] == ext[j - k - 1]);
    }
    lemma_last_dot_is(name, k);
    assert(name.subrange(k + 1, name.len() as int) =~= ext);
    lemma_last_dot_is(plain, -1);
}

proof fn lemma_last_dot_is(s: Seq<char>, k: int)
    requires
        -1 <= k < s.len(),
        k >= 0 ==> s[k] == '.',
        forall|j: int| k < j < s.len() ==> s[j] != '.',
    ensures
        last_dot(s) == k,
    decreases s.len(),
{
    if s.len() > 0 && k < s.len() - 1 {
        lemma_last_dot_is(s.drop_last(), k);
    }
}

} // verus!
