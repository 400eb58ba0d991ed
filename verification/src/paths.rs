use vstd::prelude::*;
use vstd::string::{StringExecFns, StringSliceAdditionalSpecFns};
use vstd::utf8::{decode_utf8, encode_utf8, is_char_boundary};

use crate::model::{Artifact, Version};
use crate::text::{chars_of, concat2, owned};

verus! {

/// The folder that holds everything the launcher writes.
pub const GAME_FOLDER: &'static str = "minecraft/";

/// The folder of the game's libraries.
pub const LIBRARY_FOLDER: &'static str = "minecraft/libraries";

/// The folder of the game's assets.
pub const ASSETS_FOLDER: &'static str = "minecraft/assets";

/// The folder of the asset indexes.
pub const ASSET_INDEXES_FOLDER: &'static str = "minecraft/assets/indexes";

/// The folder of the game versions (jars and version files).
pub const VERSION_FOLDER: &'static str = "minecraft/versions";

/// Where asset objects are served from.
pub const RESOURCES_URL: &'static str = "https://resources.download.minecraft.net";

/// Where the version manifest is served from.
pub const VERSION_MANIFEST_URL: &'static str = "https://piston-meta.mojang.com/mc/game/version_manifest_v2.json";

/// Joining a relative path onto `base` with `/` as the separator: an
/// absolute `rel` (one that starts with `/`) replaces `base`; otherwise a
/// separator goes between them unless `base` is empty or already ends in one.
pub open spec fn path_join(base: Seq<char>, rel: Seq<char>) -> Seq<char> {
    if rel.len() > 0 && rel[0] == '/' {
        rel
    } else if base.len() == 0 || base.last() == '/' {
        base + rel
    } else {
        base + seq!['/'] + rel
    }
}

/// `base` joined with `rel`, as a path.
pub fn join_path(base: &str, rel: &str) -> (r: String)
    ensures
        r@ == path_join(base@, rel@),
{
    let rc = chars_of(rel);
    let bc = chars_of(base);
    if rc.len() > 0 && rc[0] == '/' {
        owned(rel)
    } else if bc.len() == 0 || bc[bc.len() - 1] == '/' {
        concat2(base, rel)
    } else {
        let mut r = owned(base);
        r.append("/");
        r.append(rel);
        proof {
            reveal_strlit("/");
        }
        r
    }
}

/// A hash can be cut after its second byte only where a character ends there.
pub open spec fn hash_splittable(hash: Seq<char>) -> bool {
    is_char_boundary(encode_utf8(hash), 2)
}

/// The text of the first two bytes of `hash`: the name of the folder that
/// holds the asset object.
pub open spec fn hash_prefix(hash: Seq<char>) -> Seq<char> {
    decode_utf8(encode_utf8(hash).subrange(0, 2))
}

/// Whether `hash` can be cut after its second byte.
pub fn is_hash_splittable(hash: &str) -> (b: bool)
    ensures
        b == hash_splittable(hash@),
{
    hash.is_char_boundary(2)
}

/// The first two bytes of `hash`, as text.
pub fn hash_prefix_of(hash: &str) -> (r: String)
    requires
        hash_splittable(hash@),
    ensures
        r@ == hash_prefix(hash@),
{
    broadcast use vstd::utf8::group_utf8_lib;

    let (two, _rest) = hash.split_at(2);
    let r = two.to_owned();
    proof {
        assert(two.spec_bytes() == encode_utf8(two@));
        assert(hash.spec_bytes() == encode_utf8(hash@));
        vstd::utf8::encode_utf8_decode_utf8(two@);
    }
    r
}

/// `<prefix>/<hash>`: where an asset object lies below the objects folder and
/// below the resources address.
pub open spec fn asset_object_name(hash: Seq<char>) -> Seq<char> {
    hash_prefix(hash) + seq!['/'] + hash
}

/// The folder of the asset objects.
pub open spec fn assets_objects_folder_spec() -> Seq<char> {
    path_join(ASSETS_FOLDER@, "objects"@)
}

/// The file of the asset object with this hash.
pub open spec fn asset_object_path_spec(hash: Seq<char>) -> Seq<char> {
    path_join(assets_objects_folder_spec(), asset_object_name(hash))
}

/// The address of the asset object with this hash.
pub open spec fn asset_object_url_spec(hash: Seq<char>) -> Seq<char> {
    RESOURCES_URL@ + seq!['/'] + asset_object_name(hash)
}

/// `<prefix>/<hash>` for an asset object.
pub fn asset_object_name_of(hash: &str) -> (r: String)
    requires
        hash_splittable(hash@),
    ensures
        r@ == asset_object_name(hash@),
{
    let mut r = hash_prefix_of(hash);
    r.append("/");
    r.append(hash);
    proof {
        reveal_strlit("/");
    }
    r
}

/// The folder of the asset objects.
pub fn assets_objects_folder() -> (r: String)
    ensures
        r@ == assets_objects_folder_spec(),
{
    join_path(ASSETS_FOLDER, "objects")
}

/// The file of the asset object with this hash.
pub fn asset_object_path(hash: &str) -> (r: String)
    requires
        hash_splittable(hash@),
    ensures
        r@ == asset_object_path_spec(hash@),
{
    let folder = assets_objects_folder();
    let name = asset_object_name_of(hash);
    join_path(folder.as_str(), name.as_str())
}

/// The address of the asset object with this hash.
pub fn asset_object_url(hash: &str) -> (r: String)
    requires
        hash_splittable(hash@),
    ensures
        r@ == asset_object_url_spec(hash@),
{
    let name = asset_object_name_of(hash);
    let mut r = owned(RESOURCES_URL);
    r.append("/");
    r.append(name.as_str());
    proof {
        reveal_strlit("/");
    }
    r
}

/// The file that caches the asset index of `version`, named by the index's id.
pub open spec fn asset_index_path_spec(version: Version) -> Seq<char> {
    path_join(ASSET_INDEXES_FOLDER@, version.asset_index.id@ + ".json"@)
}

/// The file that the asset index of `version` is read from.
pub fn asset_index_path(version: &Version) -> (r: String)
    ensures
        r@ == asset_index_path_spec(*version),
{
    let name = concat2(version.asset_index.id.as_str(), ".json");
    join_path(ASSET_INDEXES_FOLDER, name.as_str())
}

/// The file that the asset index of `version` is downloaded to, named by the
/// version's `assets` field.
pub open spec fn asset_index_download_path_spec(version: Version) -> Seq<char> {
    path_join(ASSETS_FOLDER@, "indexes/"@ + version.assets@ + ".json"@)
}

/// The file that the asset index of `version` is downloaded to.
pub fn asset_index_download_path(version: &Version) -> (r: String)
    ensures
        r@ == asset_index_download_path_spec(*version),
{
    let mut name = owned("indexes/");
    name.append(version.assets.as_str());
    name.append(".json");
    join_path(ASSETS_FOLDER, name.as_str())
}

/// The file of a library artifact below the libraries folder.
pub open spec fn library_path_spec(artifact: Artifact) -> Seq<char> {
    path_join(LIBRARY_FOLDER@, artifact.path@)
}

/// The file of a library artifact.
pub fn library_path(artifact: &Artifact) -> (r: String)
    ensures
        r@ == library_path_spec(*artifact),
{
    join_path(LIBRARY_FOLDER, artifact.path.as_str())
}

/// `<id>/<id><ext>`: a file of a version in its own folder.
pub open spec fn version_file_name(id: Seq<char>, ext: Seq<char>) -> Seq<char> {
    id + seq!['/'] + id + ext
}

/// The client jar of `version`.
pub open spec fn version_jar_path_spec(version: Version) -> Seq<char> {
    path_join(VERSION_FOLDER@, version_file_name(version.id@, ".jar"@))
}

/// The version file of `version`.
pub open spec fn version_json_path_spec(version: Version) -> Seq<char> {
    path_join(VERSION_FOLDER@, version_file_name(version.id@, ".json"@))
}

fn version_file(id: &str, ext: &str) -> (r: String)
    ensures
        r@ == path_join(VERSION_FOLDER@, version_file_name(id@, ext@)),
{
    let mut name = owned(id);
    name.append("/");
    name.append(id);
    name.append(ext);
    proof {
        reveal_strlit("/");
    }
    join_path(VERSION_FOLDER, name.as_str())
}

/// The file the client jar of `version` is stored in.
pub fn version_jar_path(version: &Version) -> (r: String)
    ensures
        r@ == version_jar_path_spec(*version),
{
    version_file(version.id.as_str(), ".jar")
}

/// The file the version file of `version` is stored in.
pub fn version_json_path(version: &Version) -> (r: String)
    ensures
        r@ == version_json_path_spec(*version),
{
    version_file(version.id.as_str(), ".json")
}

/// The asset index that the downloader stores is the file the index reader
/// opens, whenever the version's `assets` field names its asset index and
/// that name is a relative path.
pub proof fn law_index_written_is_read(version: Version)
    requires
        version.assets@ == version.asset_index.id@,
        version.asset_index.id@.len() == 0 || version.asset_index.id@[0] != '/',
    ensures
        asset_index_download_path_spec(version) == asset_index_path_spec(version),
{
    reveal_strlit("minecraft/assets");
    reveal_strlit("minecraft/assets/indexes");
    reveal_strlit("indexes/");
    reveal_strlit(".json");
    let id = version.asset_index.id@;
    let rel1 = "indexes/"@ + id + ".json"@;
    let rel2 = id + ".json"@;
    assert(rel1[0] == 'i');
    if id.len() > 0 {
        assert(rel2[0] == id[0]);
    } else {
        assert(rel2[0] == '.');
    }
    assert(ASSETS_FOLDER@.last() == 's');
    assert(ASSET_INDEXES_FOLDER@.last() == 's');
    assert(ASSETS_FOLDER@ + seq!['/'] + rel1 =~= ASSET_INDEXES_FOLDER@ + seq!['/'] + rel2);
}

/// Joining paths: an absolute part replaces the folder, a part joined onto
/// a folder that ends in `/` follows it directly, and otherwise exactly one
/// `/` goes between them.
pub proof fn law_join_path(base: Seq<char>, rel: Seq<char>)
    ensures
        rel.len() > 0 && rel[0] == '/' ==> path_join(base, rel) == rel,
        (rel.len() == 0 || rel[0] != '/') && base.len() > 0 && base.last() == '/' ==> path_join(
            base,
            rel,
        ) == base + rel,
        (rel.len() == 0 || rel[0] != '/') && base.len() > 0 && base.last() != '/' ==> path_join(
            base,
            rel,
        ) == base + "/"@ + rel,
{
    reveal_strlit("/");
    assert("/"@ =~= seq!['/']);
}

/// UTF-8 of a concatenation is the concatenation of the UTF-8 of its parts.
pub proof fn lemma_encode_utf8_concat(a: Seq<char>, b: Seq<char>)
    ensures
        encode_utf8(a + b) == encode_utf8(a) + encode_utf8(b),
    decreases a.len(),
{
    if a.len() == 0 {
        assert(a + b =~= b);
        assert(encode_utf8(a) + encode_utf8(b) =~= encode_utf8(b));
    } else {
        lemma_encode_utf8_concat(a.drop_first(), b);
        assert((a + b).drop_first() =~= a.drop_first() + b);
        assert((a + b)[0] == a[0]);
        assert(encode_utf8(a + b) =~= encode_utf8(a) + encode_utf8(b));
    }
}

/// The folder name of an asset object is the start of its hash whose UTF-8
/// is exactly the hash's first two bytes. For a hash whose first two
/// characters are ASCII (every hexadecimal hash) it is those two characters.
pub proof fn law_hash_prefix(hash: Seq<char>)
    requires
        hash_splittable(hash),
    ensures
        encode_utf8(hash_prefix(hash)) == encode_utf8(hash).subrange(0, 2),
        0 < hash_prefix(hash).len() <= hash.len(),
        hash_prefix(hash) == hash.subrange(0, hash_prefix(hash).len() as int),
        hash.len() >= 2 && (hash[0] as u32) <= 0x7f && (hash[1] as u32) <= 0x7f ==> hash_prefix(hash)
            == hash.subrange(0, 2),
{
    broadcast use vstd::utf8::group_utf8_lib;

    let b = encode_utf8(hash);
    let p = hash_prefix(hash);
    assert(b.len() >= 2);
    vstd::utf8::valid_utf8_split(b, 2);
    vstd::utf8::decode_utf8_encode_utf8(b.subrange(0, 2));
    assert(encode_utf8(p) == b.subrange(0, 2));
    if p.len() == 0 {
        assert(encode_utf8(p).len() == 0);
        assert(false);
    }
    vstd::utf8::decode_utf8_split(b, 2);
    vstd::utf8::encode_utf8_decode_utf8(hash);
    let rest = decode_utf8(b.subrange(2, b.len() as int));
    assert(hash == p + rest);
    assert(hash.subrange(0, p.len() as int) =~= p);
    if hash.len() >= 2 && (hash[0] as u32) <= 0x7f && (hash[1] as u32) <= 0x7f {
        let t = hash.subrange(0, 2);
        let rest = hash.subrange(2, hash.len() as int);
        lemma_encode_utf8_concat(t, rest);
        assert(t + rest =~= hash);
        let t1 = t.drop_first();
        assert(t1[0] == hash[1]);
        assert(t1.drop_first() =~= Seq::<char>::empty());
        assert(encode_utf8(t1.drop_first()) =~= Seq::<u8>::empty());
        assert(encode_utf8(t1) == vstd::utf8::encode_scalar(t1[0] as u32) + encode_utf8(
            t1.drop_first(),
        ));
        assert(encode_utf8(t1).len() == 1);
        assert(encode_utf8(t) == vstd::utf8::encode_scalar(t[0] as u32) + encode_utf8(t1));
        assert(encode_utf8(t).len() == 2);
        assert(b.subrange(0, 2) =~= encode_utf8(t));
        vstd::utf8::encode_utf8_decode_utf8(t);
    }
}

/// An asset object lies in `minecraft/assets/objects/<prefix>/<hash>` and is
/// served at `https://resources.download.minecraft.net/<prefix>/<hash>`,
/// where `<prefix>` is the hash's first two bytes (its first two characters
/// for a hexadecimal hash); this holds for every hash that does not start
/// with `/`.
pub proof fn law_asset_object_locations(hash: Seq<char>)
    requires
        hash_splittable(hash),
        hash[0] != '/',
    ensures
        asset_object_path_spec(hash) == "minecraft/assets/objects/"@ + hash_prefix(hash) + "/"@
            + hash,
        asset_object_url_spec(hash) == "https://resources.download.minecraft.net/"@ + hash_prefix(
            hash,
        ) + "/"@ + hash,
        hash.len() >= 2 && (hash[0] as u32) <= 0x7f && (hash[1] as u32) <= 0x7f ==> asset_object_path_spec(
            hash,
        ) == "minecraft/assets/objects/"@ + hash.subrange(0, 2) + "/"@ + hash,
        hash.len() >= 2 && (hash[0] as u32) <= 0x7f && (hash[1] as u32) <= 0x7f ==> asset_object_url_spec(
            hash,
        ) == "https://resources.download.minecraft.net/"@ + hash.subrange(0, 2) + "/"@ + hash,
{
    reveal_strlit("minecraft/assets");
    reveal_strlit("objects");
    reveal_strlit("minecraft/assets/objects");
    reveal_strlit("minecraft/assets/objects/");
    reveal_strlit("https://resources.download.minecraft.net");
    reveal_strlit("https://resources.download.minecraft.net/");
    reveal_strlit("/");
    law_hash_prefix(hash);
    let p = hash_prefix(hash);
    let name = asset_object_name(hash);
    assert(name =~= p + "/"@ + hash);
    assert(hash.subrange(0, p.len() as int)[0] == hash[0]);
    assert(p[0] == hash[0]);
    assert(name[0] == p[0]);
    assert(ASSETS_FOLDER@.last() == 's');
    assert("objects"@[0] == 'o');
    assert(assets_objects_folder_spec() =~= "minecraft/assets/objects"@);
    assert("minecraft/assets/objects"@.last() == 's');
    assert(asset_object_path_spec(hash) =~= "minecraft/assets/objects/"@ + p + "/"@ + hash);
    assert(asset_object_url_spec(hash) =~= "https://resources.download.minecraft.net/"@ + p + "/"@
        + hash);
}

/// The asset index is read from `minecraft/assets/indexes/<asset index id>.json`
/// (for an id that does not start with `/`) and downloaded to
/// `minecraft/assets/indexes/<assets>.json`: both are named by the whole id.
pub proof fn law_asset_index_files(version: Version)
    ensures
        version.asset_index.id@.len() == 0 || version.asset_index.id@[0] != '/'
            ==> asset_index_path_spec(version) == "minecraft/assets/indexes/"@
            + version.asset_index.id@ + ".json"@,
        asset_index_download_path_spec(version) == "minecraft/assets/indexes/"@ + version.assets@
            + ".json"@,
{
    reveal_strlit("minecraft/assets");
    reveal_strlit("minecraft/assets/indexes");
    reveal_strlit("minecraft/assets/indexes/");
    reveal_strlit("indexes/");
    reveal_strlit(".json");
    let id = version.asset_index.id@;
    let rel1 = "indexes/"@ + version.assets@ + ".json"@;
    let rel2 = id + ".json"@;
    assert(rel1[0] == 'i');
    assert(ASSETS_FOLDER@.last() == 's');
    assert(ASSET_INDEXES_FOLDER@.last() == 's');
    assert(asset_index_download_path_spec(version) =~= "minecraft/assets/indexes/"@
        + version.assets@ + ".json"@);
    if id.len() == 0 || id[0] != '/' {
        if id.len() > 0 {
            assert(rel2[0] == id[0]);
        } else {
            assert(rel2[0] == '.');
        }
        assert(asset_index_path_spec(version) =~= "minecraft/assets/indexes/"@ + id + ".json"@);
    }
}

/// A library artifact with a relative path lies at
/// `minecraft/libraries/<path>`; an absolute path is used as it is.
pub proof fn law_library_path(artifact: Artifact)
    ensures
        artifact.path@.len() == 0 || artifact.path@[0] != '/' ==> library_path_spec(artifact)
            == "minecraft/libraries/"@ + artifact.path@,
        artifact.path@.len() > 0 && artifact.path@[0] == '/' ==> library_path_spec(artifact)
            == artifact.path@,
{
    reveal_strlit("minecraft/libraries");
    reveal_strlit("minecraft/libraries/");
    assert(LIBRARY_FOLDER@.last() == 's');
    assert(LIBRARY_FOLDER@ + seq!['/'] + artifact.path@ =~= "minecraft/libraries/"@
        + artifact.path@);
}

/// The client jar and version file of a version with a non-empty id that
/// does not start with `/` are `minecraft/versions/<id>/<id>.jar` and
/// `minecraft/versions/<id>/<id>.json`.
pub proof fn law_version_files(version: Version)
    requires
        version.id@.len() > 0,
        version.id@[0] != '/',
    ensures
        version_jar_path_spec(version) == "minecraft/versions/"@ + version.id@ + "/"@
            + version.id@ + ".jar"@,
        version_json_path_spec(version) == "minecraft/versions/"@ + version.id@ + "/"@
            + version.id@ + ".json"@,
{
    reveal_strlit("minecraft/versions");
    reveal_strlit("minecraft/versions/");
    reveal_strlit("/");
    let id = version.id@;
    assert(version_file_name(id, ".jar"@)[0] == id[0]);
    assert(version_file_name(id, ".json"@)[0] == id[0]);
    assert(VERSION_FOLDER@.last() == 's');
    assert(version_jar_path_spec(version) =~= "minecraft/versions/"@ + id + "/"@ + id + ".jar"@);
    assert(version_json_path_spec(version) =~= "minecraft/versions/"@ + id + "/"@ + id
        + ".json"@);
}

/// The folders the launcher makes before anything else, parents first.
pub fn required_folders() -> (r: Vec<&'static str>)
    ensures
        r@.len() == 4,
        r@[0]@ == "minecraft"@,
        r@[1]@ == ASSETS_FOLDER@,
        r@[2]@ == LIBRARY_FOLDER@,
        r@[3]@ == VERSION_FOLDER@,
{
    vec!["minecraft", ASSETS_FOLDER, LIBRARY_FOLDER, VERSION_FOLDER]
}

} // verus!
