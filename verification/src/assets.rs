//! Game assets: the asset index and the objects it names, and the records
//! of downloads.
use vstd::prelude::*;

use crate::platform::{path_join, path_join_result};
use crate::text::{chars_of, copy_range, last_index_of, rfind_char, string_from_chars};

verus! {

/// A file to download, with what it should hash to and weigh.
#[derive(Debug, Clone)]
pub struct DownloadEntry {
    pub url: String,
    pub dest: String,
    pub sha1: Option<String>,
    pub size: Option<u64>,
}

/// Progress reported to the front end after a file is downloaded.
#[derive(Debug, Clone)]
pub struct DownloadProgress {
    pub url: String,
    pub bytes_downloaded: u64,
    pub total_bytes: Option<u64>,
    pub file_name: String,
}

/// The progress record of a finished download: the file name of `dest` (empty
/// when it has none).
pub fn download_progress(url: &str, dest: &str, bytes_downloaded: u64, total_bytes: Option<u64>) -> (r: DownloadProgress)
    ensures
        r.url@ == url@,
        r.bytes_downloaded == bytes_downloaded,
        r.total_bytes == total_bytes,
        r.file_name@ == match crate::classpath::file_name_result(dest@) {
            Some(n) => n,
            None => Seq::<char>::empty(),
        },
{
    let file_name = match crate::classpath::path_file_name(dest) {
        Some(n) => n,
        None => {
            let e = String::new();
            assert(e@ =~= Seq::<char>::empty());
            e
        },
    };
    DownloadProgress { url: String::from_str(url), bytes_downloaded, total_bytes, file_name }
}

/// One object of an asset index.
#[derive(Debug, Clone)]
pub struct AssetObject {
    pub hash: String,
    pub size: u64,
}

/// An asset index: the objects, by name.
#[derive(Debug, Clone)]
pub struct AssetIndex {
    pub objects: Vec<(String, AssetObject)>,
}

/// Downloads the assets of a version.
pub struct AssetManager;

/// Where asset objects are served.
pub const RESOURCES_URL: &'static str = "https://resources.download.minecraft.net";

/// The last `/`-separated part of an index URL (`17.json` from `.../17.json`).
pub open spec fn index_name_of(url: Seq<char>) -> Seq<char> {
    url.skip(last_index_of(url, '/') + 1)
}

/// A hash whose first two characters are ASCII, so that they can be cut off.
pub open spec fn has_prefix_pair(hash: Seq<char>) -> bool {
    hash.len() >= 2 && (hash[0] as u32) < 128 && (hash[1] as u32) < 128
}

/// `<objects>/<first two of hash>/<hash>`, and the object's URL.
pub open spec fn object_download_of(objects_dir: Seq<char>, obj: AssetObject) -> (Seq<char>, Seq<char>) {
    let prefix = obj.hash@.take(2);
    (
        path_join_result(path_join_result(objects_dir, prefix), obj.hash@),
        RESOURCES_URL@ + "/"@ + prefix + "/"@ + obj.hash@,
    )
}

impl AssetManager {
    /// The file the asset index is saved to: `<assets>/indexes/<name from the URL>`.
    pub fn index_path(assets_dir: &str, index_url: &str) -> (r: String)
        ensures
            r@ == path_join_result(path_join_result(assets_dir@, "indexes"@), index_name_of(index_url@)),
    {
        let v = chars_of(index_url);
        let found = rfind_char(&v, '/');
        proof {
            crate::text::lemma_last_index_of_bounds(v@, '/');
        }
        let start = match found {
            Some(i) => {
                assert(i < v.len());
                i + 1
            },
            None => 0,
        };
        let name = copy_range(&v, start, v.len());
        assert(name@ =~= index_name_of(index_url@));
        let indexes = path_join(assets_dir, "indexes");
        path_join(indexes.as_str(), string_from_chars(name.as_slice()).as_str())
    }

    /// The downloads of the objects not yet present (`present[i]` tells
    /// whether the file of object `i` exists), in index order.
    pub fn object_downloads(index: &AssetIndex, assets_dir: &str, present: &Vec<bool>) -> (r: Vec<DownloadEntry>)
        requires
            present.len() == index.objects.len(),
            forall|i: int| 0 <= i < index.objects@.len() ==> has_prefix_pair(#[trigger] index.objects@[i].1.hash@),
        ensures
            r@.len() == missing_objects(index.objects@, present@).len(),
            forall|i: int|
                0 <= i < r@.len() ==> {
                    let obj = missing_objects(index.objects@, present@)[i];
                    let (dest, url) = object_download_of(
                        path_join_result(assets_dir@, "objects"@),
                        obj,
                    );
                    &&& (#[trigger] r@[i]).dest@ == dest
                    &&& r@[i].url@ == url
                    &&& r@[i].sha1 == Some(obj.hash)
                    &&& r@[i].size == Some(obj.size)
                },
    {
        let objects_dir = path_join(assets_dir, "objects");
        let mut out: Vec<DownloadEntry> = Vec::new();
        let mut i: usize = 0;
        while i < index.objects.len()
            invariant
                i <= index.objects.len(),
                present.len() == index.objects.len(),
                forall|j: int| 0 <= j < index.objects@.len() ==> has_prefix_pair(#[trigger] index.objects@[j].1.hash@),
                objects_dir@ == path_join_result(assets_dir@, "objects"@),
                out@.len() == missing_objects(index.objects@.take(i as int), present@.take(i as int)).len(),
                forall|j: int|
                    0 <= j < out@.len() ==> {
                        let obj = missing_objects(index.objects@.take(i as int), present@.take(i as int))[j];
                        let (dest, url) = object_download_of(objects_dir@, obj);
                        &&& (#[trigger] out@[j]).dest@ == dest
                        &&& out@[j].url@ == url
                        &&& out@[j].sha1 == Some(obj.hash)
                        &&& out@[j].size == Some(obj.size)
                    },
            decreases index.objects.len() - i,
        {
            let ghost prev = missing_objects(index.objects@.take(i as int), present@.take(i as int));
            assert(index.objects@.take(i + 1).drop_last() =~= index.objects@.take(i as int));
            assert(present@.take(i + 1).drop_last() =~= present@.take(i as int));
            if !present[i] {
                let obj = &index.objects[i].1;
                let hv = chars_of(obj.hash.as_str());
                let prefix = copy_range(&hv, 0, 2);
                assert(prefix@ =~= obj.hash@.take(2));
                let prefix_s = string_from_chars(prefix.as_slice());
                let dir = path_join(objects_dir.as_str(), prefix_s.as_str());
                let dest = path_join(dir.as_str(), obj.hash.as_str());
                let mut url = String::from_str(RESOURCES_URL);
                url.append("/");
                url.append(prefix_s.as_str());
                url.append("/");
                url.append(obj.hash.as_str());
                out.push(DownloadEntry { url, dest, sha1: Some(obj.hash.clone()), size: Some(obj.size) });
                assert(missing_objects(index.objects@.take(i + 1), present@.take(i + 1)) == prev.push(
                    index.objects@[i as int].1,
                ));
            }
            i += 1;
        }
        assert(index.objects@.take(index.objects.len() as int) =~= index.objects@);
        assert(present@.take(present.len() as int) =~= present@);
        out
    }
}

/// The objects whose files are missing, in index order.
pub open spec fn missing_objects(objects: Seq<(String, AssetObject)>, present: Seq<bool>) -> Seq<AssetObject>
    decreases objects.len(),
{
    if objects.len() == 0 || present.len() != objects.len() {
        Seq::empty()
    } else {
        let rest = missing_objects(objects.drop_last(), present.drop_last());
        if present.last() {
            rest
        } else {
            rest.push(objects.last().1)
        }
    }
}

} // verus!
