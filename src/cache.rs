//! The mirror's package cache: a file at `<root>/<name>/<version>` for each
//! cached package version. The file system itself is reached by the caller;
//! these functions decide what to look at and what to do.

use vstd::prelude::*;

use crate::cpm_api::PackageId;
use crate::text::join3;

verus! {

/// `<root>/<name>/<version>`.
pub open spec fn entry_path(root: Seq<char>, name: Seq<char>, version: Seq<char>) -> Seq<char> {
    root + seq!['/'] + name + seq!['/'] + version
}

/// `<root>/<name>`.
pub open spec fn dir_path(root: Seq<char>, name: Seq<char>) -> Seq<char> {
    root + seq!['/'] + name
}

/// The file holding `name` at `version` in the cache under `root`.
pub fn cache_entry_path(root: &str, name: &str, version: &str) -> (r: String)
    ensures
        r@ == entry_path(root@, name@, version@),
{
    let dir = cache_dir_path(root, name);
    let r = join3(dir.as_str(), "/", version);
    proof {
        reveal_strlit("/");
    }
    r
}

/// The directory holding the versions of `name` in the cache under `root`.
pub fn cache_dir_path(root: &str, name: &str) -> (r: String)
    ensures
        r@ == dir_path(root@, name@),
{
    let r = join3(root, "/", name);
    proof {
        reveal_strlit("/");
    }
    r
}

/// The packages of `ps` whose flag in `cached` is false, in order.
pub open spec fn missing(ps: Seq<PackageId>, cached: Seq<bool>) -> Seq<PackageId>
    recommends
        ps.len() == cached.len(),
    decreases ps.len(),
{
    if ps.len() == 0 {
        Seq::empty()
    } else {
        missing(ps.drop_last(), cached.drop_last()) + if cached.last() {
            Seq::empty()
        } else {
            seq![ps.last()]
        }
    }
}

/// Keeps, in order, the packages whose entry is not in the cache:
/// `cached[i]` tells whether `packages[i]` has its file there.
pub fn check_missing(packages: &mut Vec<PackageId>, cached: &[bool])
    requires
        old(packages)@.len() == cached@.len(),
    ensures
        final(packages)@ == missing(old(packages)@, cached@),
{
    let n = packages.len();
    let mut kept: Vec<PackageId> = Vec::new();
    let mut i: usize = 0;
    while i < n
        invariant
            n == packages@.len(),
            n == cached@.len(),
            packages@ == old(packages)@,
            i <= n,
            kept@ == missing(packages@.take(i as int), cached@.take(i as int)),
        decreases n - i,
    {
        proof {
            assert(packages@.take(i + 1).drop_last() =~= packages@.take(i as int));
            assert(cached@.take(i + 1).drop_last() =~= cached@.take(i as int));
            assert(packages@.take(i + 1).last() == packages@[i as int]);
            assert(cached@.take(i + 1).last() == cached@[i as int]);
        }
        if !cached[i] {
            kept.push(packages[i].duplicate());
        }
        proof {
            assert(kept@ =~= missing(packages@.take(i + 1), cached@.take(i + 1)));
        }
        i = i + 1;
    }
    proof {
        assert(packages@.take(n as int) =~= packages@);
        assert(cached@.take(n as int) =~= cached@);
    }
    *packages = kept;
}

/// What to do with an upload.
#[derive(Debug)]
pub struct UploadPlan {
    /// The package's directory.
    pub dir: String,
    /// The file that will hold the content.
    pub file: String,
    /// Where the content is written before it is renamed into `file`.
    pub temp: String,
    /// Create `dir` first.
    pub create_dir: bool,
    /// Write the content; when false the upload is ignored, the entry being
    /// there already.
    pub store: bool,
}

/// `<dir>/.<version>.partial`.
pub open spec fn temp_path(dir: Seq<char>, version: Seq<char>) -> Seq<char> {
    dir + "/."@ + version + ".partial"@
}

/// Plans the upload of `package` into the cache under `root`, given
/// whether its directory and its file are there already. The first upload
/// of a version is stored; later ones are ignored.
pub fn plan_upload(root: &str, package: &PackageId, dir_exists: bool, file_exists: bool) -> (r:
    UploadPlan)
    ensures
        r.dir@ == dir_path(root@, package.name@),
        r.file@ == entry_path(root@, package.name@, package.version@),
        r.temp@ == temp_path(r.dir@, package.version@),
        r.create_dir == !dir_exists,
        r.store == (!dir_exists || !file_exists),
        forall|cache: CacheModel, content: Seq<u8>|
            cache.contains_key(key_of(*package)) == (dir_exists && file_exists)
                ==> #[trigger] after_upload(cache, *package, content) == if r.store {
                cache.insert(key_of(*package), content)
            } else {
                cache
            },
{
    let dir = cache_dir_path(root, package.name.as_str());
    let file = cache_entry_path(root, package.name.as_str(), package.version.as_str());
    let t = join3(dir.as_str(), "/.", package.version.as_str());
    let temp = join3(t.as_str(), ".partial", "");
    proof {
        reveal_strlit("/.");
        reveal_strlit(".partial");
        reveal_strlit("");
        assert(temp@ =~= temp_path(dir@, package.version@));
    }
    UploadPlan { dir, file, temp, create_dir: !dir_exists, store: !dir_exists || !file_exists }
}

/// The cache as a map from (name, version) to the bytes stored.
pub type CacheModel = Map<(Seq<char>, Seq<char>), Seq<u8>>;

/// The key under which `p` is cached.
pub open spec fn key_of(p: PackageId) -> (Seq<char>, Seq<char>) {
    (p.name@, p.version@)
}

/// The cache after an upload of `content` for `p`: stored when absent,
/// ignored when present.
pub open spec fn after_upload(cache: CacheModel, p: PackageId, content: Seq<u8>) -> CacheModel {
    if cache.contains_key(key_of(p)) {
        cache
    } else {
        cache.insert(key_of(p), content)
    }
}

/// The flags `check_missing` takes, read off a cache.
pub open spec fn cached_flags(cache: CacheModel, ps: Seq<PackageId>) -> Seq<bool> {
    Seq::new(ps.len(), |i: int| cache.contains_key(key_of(ps[i])))
}

/// Uploading the same package version twice leaves the cache as the first
/// upload left it.
pub proof fn lemma_upload_idempotent(
    cache: CacheModel,
    p: PackageId,
    first: Seq<u8>,
    second: Seq<u8>,
)
    ensures
        after_upload(after_upload(cache, p, first), p, second) == after_upload(cache, p, first),
{
}

/// After an upload of `p`, asking for the packages missing from the cache
/// no longer names `p`.
pub proof fn lemma_uploaded_not_missing(
    cache: CacheModel,
    p: PackageId,
    content: Seq<u8>,
    ps: Seq<PackageId>,
)
    ensures
        forall|i: int|
            0 <= i < ps.len() && key_of(ps[i]) == key_of(p) ==> #[trigger] cached_flags(
                after_upload(cache, p, content),
                ps,
            )[i],
{
}

} // verus!
