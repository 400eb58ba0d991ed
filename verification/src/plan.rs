use vstd::prelude::*;

use crate::model::{Assets, Library, Version, VersionDownload};
use crate::paths::{
    asset_object_path, asset_object_path_spec, asset_object_url, asset_object_url_spec,
    hash_prefix, hash_splittable, is_hash_splittable, law_asset_object_locations, law_library_path,
    library_path, library_path_spec,
};
use crate::strmap::lookup;
use crate::text::owned;

verus! {

/// One asset object to fetch: its hash, the file it is stored in and the
/// address it is served from.
pub struct AssetDownload {
    pub hash: String,
    pub path: String,
    pub url: String,
}

/// One library artifact to fetch: the file it is stored in and its address.
pub struct LibraryDownload {
    pub path: String,
    pub url: String,
}

/// Every asset hash of the index can be cut after its second byte.
pub open spec fn asset_hashes_splittable(assets: Assets) -> bool {
    forall|i: int|
        0 <= i < assets.objects@.len() ==> hash_splittable(#[trigger] assets.objects@[i].1.hash@)
}

/// Whether every asset hash of the index can be cut after its second byte.
pub fn check_asset_hashes(assets: &Assets) -> (b: bool)
    ensures
        b == asset_hashes_splittable(*assets),
{
    let n = assets.objects.len();
    let mut i: usize = 0;
    while i < n
        invariant
            n == assets.objects@.len(),
            i <= n,
            forall|j: int| 0 <= j < i ==> hash_splittable(#[trigger] assets.objects@[j].1.hash@),
        decreases n - i,
    {
        let (_name, asset) = assets.objects.entry(i);
        if !is_hash_splittable(asset.hash.as_str()) {
            return false;
        }
        i = i + 1;
    }
    true
}

/// `d` fetches the asset object with hash `hash`.
pub open spec fn asset_download_of(d: AssetDownload, hash: Seq<char>) -> bool {
    &&& d.hash@ == hash
    &&& d.path@ == asset_object_path_spec(hash)
    &&& d.url@ == asset_object_url_spec(hash)
}

/// For each object of the index, in index order, where it is stored and where
/// it is fetched from.
pub fn asset_downloads(assets: &Assets) -> (r: Vec<AssetDownload>)
    requires
        asset_hashes_splittable(*assets),
    ensures
        r@.len() == assets.objects@.len(),
        forall|i: int|
            0 <= i < r@.len() ==> asset_download_of(#[trigger] r@[i], assets.objects@[i].1.hash@),
{
    let n = assets.objects.len();
    let mut r: Vec<AssetDownload> = Vec::new();
    let mut i: usize = 0;
    while i < n
        invariant
            n == assets.objects@.len(),
            asset_hashes_splittable(*assets),
            i <= n,
            r@.len() == i,
            forall|j: int|
                0 <= j < i ==> asset_download_of(#[trigger] r@[j], assets.objects@[j].1.hash@),
        decreases n - i,
    {
        let (_name, asset) = assets.objects.entry(i);
        let hash = asset.hash.as_str();
        assert(hash_splittable(assets.objects@[i as int].1.hash@));
        let d = AssetDownload {
            hash: owned(hash),
            path: asset_object_path(hash),
            url: asset_object_url(hash),
        };
        r.push(d);
        i = i + 1;
    }
    r
}

/// Every library names its main artifact.
pub open spec fn libraries_have_artifacts(libraries: Seq<Library>) -> bool {
    forall|i: int| 0 <= i < libraries.len() ==> (#[trigger] libraries[i]).downloads.artifact is Some
}

/// Whether every library names its main artifact.
pub fn check_library_artifacts(libraries: &Vec<Library>) -> (b: bool)
    ensures
        b == libraries_have_artifacts(libraries@),
{
    let n = libraries.len();
    let mut i: usize = 0;
    while i < n
        invariant
            n == libraries@.len(),
            i <= n,
            forall|j: int| 0 <= j < i ==> (#[trigger] libraries@[j]).downloads.artifact is Some,
        decreases n - i,
    {
        if libraries[i].downloads.artifact.is_none() {
            return false;
        }
        i = i + 1;
    }
    true
}

/// `d` fetches the main artifact of `library`.
pub open spec fn library_download_of(d: LibraryDownload, library: Library) -> bool {
    &&& library.downloads.artifact is Some
    &&& d.path@ == library_path_spec(library.downloads.artifact->0)
    &&& d.url@ == library.downloads.artifact->0.url@
}

/// For each library, in order, where its main artifact is stored and where it
/// is fetched from.
pub fn library_downloads(libraries: &Vec<Library>) -> (r: Vec<LibraryDownload>)
    requires
        libraries_have_artifacts(libraries@),
    ensures
        r@.len() == libraries@.len(),
        forall|i: int| 0 <= i < r@.len() ==> library_download_of(#[trigger] r@[i], libraries@[i]),
{
    let n = libraries.len();
    let mut r: Vec<LibraryDownload> = Vec::new();
    let mut i: usize = 0;
    while i < n
        invariant
            n == libraries@.len(),
            libraries_have_artifacts(libraries@),
            i <= n,
            r@.len() == i,
            forall|j: int| 0 <= j < i ==> library_download_of(#[trigger] r@[j], libraries@[j]),
        decreases n - i,
    {
        assert(libraries@[i as int].downloads.artifact is Some);
        match &libraries[i].downloads.artifact {
            Some(artifact) => {
                let d = LibraryDownload {
                    path: library_path(artifact),
                    url: artifact.url.clone(),
                };
                r.push(d);
            },
            None => {},
        }
        i = i + 1;
    }
    r
}

/// A planned asset download keeps the hash and fetches
/// `https://resources.download.minecraft.net/<prefix>/<hash>` into
/// `minecraft/assets/objects/<prefix>/<hash>`, `<prefix>` being the hash's
/// first two bytes (for a hash that does not start with `/`).
pub proof fn law_asset_download(d: AssetDownload, hash: Seq<char>)
    requires
        asset_download_of(d, hash),
        hash_splittable(hash),
        hash[0] != '/',
    ensures
        d.hash@ == hash,
        d.path@ == "minecraft/assets/objects/"@ + hash_prefix(hash) + "/"@ + hash,
        d.url@ == "https://resources.download.minecraft.net/"@ + hash_prefix(hash) + "/"@ + hash,
{
    law_asset_object_locations(hash);
}

/// A planned library download fetches the artifact's own address into
/// `minecraft/libraries/<artifact path>` (for a relative artifact path).
pub proof fn law_library_download(d: LibraryDownload, library: Library)
    requires
        library_download_of(d, library),
    ensures
        library.downloads.artifact is Some,
        d.url@ == library.downloads.artifact->0.url@,
        library.downloads.artifact->0.path@.len() == 0 || library.downloads.artifact->0.path@[0]
            != '/' ==> d.path@ == "minecraft/libraries/"@ + library.downloads.artifact->0.path@,
{
    law_library_path(library.downloads.artifact->0);
}

/// The download entry named `client` of a version: its game jar.
pub fn client_download(version: &Version) -> (r: Option<&VersionDownload>)
    ensures
        match r {
            Some(d) => lookup(version.downloads@, "client"@) == Some(*d),
            None => lookup(version.downloads@, "client"@) is None,
        },
{
    let key = owned("client");
    version.downloads.get(&key)
}

} // verus!
