//! What the command-line tools read: a dependency lock file, archive entry
//! names and package lists, each naming packages as `name/version`.

use vstd::prelude::*;

use crate::control::ClientError;
use crate::cpm_api::PackageId;
use crate::text::{find_char, first_index_of, split_once, split_once_spec, str_equal, substring, trim, trimmed};
use crate::worker::{download_uri, download_url, DEFAULT_BASE_URL};

verus! {

/// The source of packages that come from the crates.io registry.
pub const SOURCE_CRATES_IO: &'static str = "registry+https://github.com/rust-lang/crates.io-index";

/// A dependency lock file.
#[derive(Debug, Clone)]
pub struct LockFile {
    pub version: u64,
    pub package: Vec<Package>,
}

/// One locked package.
#[derive(Debug, Clone)]
pub struct Package {
    pub name: String,
    pub version: String,
    pub source: Option<String>,
    pub checksum: Option<String>,
    pub dependancies: Option<Vec<String>>,
}

/// `p` comes from the crates.io registry.
pub open spec fn from_registry(p: Package) -> bool {
    p.source matches Some(s) && s@ == SOURCE_CRATES_IO@
}

/// Names and versions of the packages of `ps` that come from the crates.io
/// registry, in order.
pub open spec fn registry_ids(ps: Seq<Package>) -> Seq<(Seq<char>, Seq<char>)>
    decreases ps.len(),
{
    if ps.len() == 0 {
        Seq::empty()
    } else {
        registry_ids(ps.drop_last()) + if from_registry(ps.last()) {
            seq![(ps.last().name@, ps.last().version@)]
        } else {
            Seq::empty()
        }
    }
}

/// Name and version of each id.
pub open spec fn id_views(ids: Seq<PackageId>) -> Seq<(Seq<char>, Seq<char>)> {
    ids.map_values(|p: PackageId| (p.name@, p.version@))
}

/// The packages of `lock` that come from the crates.io registry, in order:
/// those the mirror's cache can hold.
pub fn registry_packages(lock: &LockFile) -> (r: Vec<PackageId>)
    ensures
        id_views(r@) == registry_ids(lock.package@),
{
    let ps = &lock.package;
    let n = ps.len();
    let mut out: Vec<PackageId> = Vec::new();
    let mut i: usize = 0;
    while i < n
        invariant
            n == ps@.len(),
            ps == &lock.package,
            i <= n,
            id_views(out@) == registry_ids(ps@.take(i as int)),
        decreases n - i,
    {
        let p = &ps[i];
        let keep = match &p.source {
            Some(s) => str_equal(s.as_str(), SOURCE_CRATES_IO),
            None => false,
        };
        proof {
            assert(ps@.take(i + 1).drop_last() =~= ps@.take(i as int));
            assert(ps@.take(i + 1).last() == ps@[i as int]);
        }
        if keep {
            out.push(PackageId { name: p.name.clone(), version: p.version.clone() });
        }
        proof {
            assert(id_views(out@) =~= registry_ids(ps@.take(i + 1)));
        }
        i = i + 1;
    }
    proof {
        assert(ps@.take(n as int) =~= ps@);
    }
    out
}

/// Name and version from an archive entry's path `name/version`.
pub fn split_package_path(path: &str) -> (r: Result<(String, String), ClientError>)
    ensures
        match split_once_spec(path@, '/') {
            Some((a, b)) => r matches Ok((n, v)) && n@ == a && v@ == b,
            None => r == Err::<(String, String), ClientError>(ClientError::BadTarFileName),
        },
{
    match split_once(path, '/') {
        Some((name, version)) => Ok((name, version)),
        None => Err(ClientError::BadTarFileName),
    }
}

/// A package named on a line of a package list.
#[derive(Debug, Clone)]
pub struct CrateRef {
    /// The package's name.
    pub name: String,
    /// Its version.
    pub version: String,
    /// The line, trimmed: `name/version`, the path of its archive entry.
    pub path: String,
    /// Where to download it.
    pub url: String,
}

/// Name, version and trimmed line.
pub type CrateView = (Seq<char>, Seq<char>, Seq<char>);

/// What one line of a package list holds: `None` when it is malformed,
/// `Some(None)` when it is blank.
pub open spec fn line_entry(line: Seq<char>) -> Option<Option<CrateView>> {
    let t = trimmed(line);
    if t.len() == 0 {
        Some(None)
    } else {
        match split_once_spec(t, '/') {
            None => None,
            Some((a, b)) => Some(Some((trimmed(a), trimmed(b), t))),
        }
    }
}

/// The packages a list names, one per non-blank line, in order; `None` when
/// a line is malformed.
pub open spec fn crate_list(s: Seq<char>) -> Option<Seq<CrateView>>
    decreases s.len(),
{
    match first_index_of(s, '\n') {
        None => match line_entry(s) {
            None => None,
            Some(None) => Some(Seq::empty()),
            Some(Some(e)) => Some(seq![e]),
        },
        Some(i) => {
            if 0 <= i < s.len() {
                match (line_entry(s.take(i)), crate_list(s.skip(i + 1))) {
                    (Some(None), Some(rest)) => Some(rest),
                    (Some(Some(e)), Some(rest)) => Some(seq![e] + rest),
                    _ => None,
                }
            } else {
                None
            }
        },
    }
}

/// Name, version and trimmed line of each entry.
pub open spec fn crate_views(v: Seq<CrateRef>) -> Seq<CrateView> {
    v.map_values(|c: CrateRef| (c.name@, c.version@, c.path@))
}

proof fn lemma_first_index_in_range(s: Seq<char>, c: char)
    ensures
        first_index_of(s, c) matches Some(i) ==> 0 <= i < s.len() && s[i] == c,
    decreases s.len(),
{
    if s.len() > 0 {
        lemma_first_index_in_range(s.drop_first(), c);
    }
}

fn parse_line(line: &str) -> (r: Result<Option<CrateRef>, ClientError>)
    ensures
        match line_entry(line@) {
            None => r == Err::<Option<CrateRef>, ClientError>(
                ClientError::IllegalCrateListFormat,
            ),
            Some(None) => r matches Ok(None),
            Some(Some(e)) => r matches Ok(Some(c)) && (c.name@, c.version@, c.path@) == e
                && c.url@ == download_url(DEFAULT_BASE_URL@, c.name@, c.version@),
        },
{
    let t = trim(line);
    if t.as_str().unicode_len() == 0 {
        return Ok(None);
    }
    match split_once(t.as_str(), '/') {
        None => Err(ClientError::IllegalCrateListFormat),
        Some((a, b)) => {
            let name = trim(a.as_str());
            let version = trim(b.as_str());
            let url = download_uri(DEFAULT_BASE_URL, name.as_str(), version.as_str());
            Ok(Some(CrateRef { name, version, path: t, url }))
        },
    }
}

/// Reads a package list, one `name/version` per line; blank lines are
/// skipped and white space around each part is dropped.
pub fn parse_crate_list(input: &str) -> (r: Result<Vec<CrateRef>, ClientError>)
    ensures
        match crate_list(input@) {
            None => r == Err::<Vec<CrateRef>, ClientError>(ClientError::IllegalCrateListFormat),
            Some(es) => r matches Ok(v) && crate_views(v@) == es && forall|i: int|
                0 <= i < v@.len() ==> #[trigger] v@[i].url@ == download_url(
                    DEFAULT_BASE_URL@,
                    v@[i].name@,
                    v@[i].version@,
                ),
        },
    decreases input@.len(),
{
    proof {
        lemma_first_index_in_range(input@, '\n');
    }
    match find_char(input, '\n') {
        None => match parse_line(input)? {
            None => {
                assert(crate_views(Seq::<CrateRef>::empty()) =~= Seq::<CrateView>::empty());
                Ok(Vec::new())
            },
            Some(c) => {
                let mut v: Vec<CrateRef> = Vec::new();
                v.push(c);
                assert(crate_views(v@) =~= seq![(v@[0].name@, v@[0].version@, v@[0].path@)]);
                Ok(v)
            },
        },
        Some(i) => {
            let n = input.unicode_len();
            let line = substring(input, 0, i);
            let rest = substring(input, i + 1, n);
            assert(line@ =~= input@.take(i as int));
            assert(rest@ =~= input@.skip(i + 1));
            let first = parse_line(line.as_str());
            let first = match first {
                Err(e) => {
                    return Err(e);
                },
                Ok(f) => f,
            };
            let mut tail = match parse_crate_list(rest.as_str()) {
                Err(e) => {
                    return Err(e);
                },
                Ok(t) => t,
            };
            match first {
                None => Ok(tail),
                Some(c) => {
                    let ghost old_tail = tail@;
                    tail.insert(0, c);
                    assert(crate_views(tail@) =~= seq![(tail@[0].name@, tail@[0].version@, tail@[0].path@)] + crate_views(old_tail));
                    assert forall|j: int| 0 <= j < tail@.len() implies #[trigger] tail@[j].url@
                        == download_url(DEFAULT_BASE_URL@, tail@[j].name@, tail@[j].version@) by {
                        if j > 0 {
                            assert(tail@[j] == old_tail[j - 1]);
                        }
                    }
                    Ok(tail)
                },
            }
        },
    }
}

} // verus!
