//! Messages of the control plane, by which command-line tools ask the mirror
//! which packages its cache lacks and upload new ones.

use vstd::prelude::*;

verus! {

/// Why the mirror could not serve a control-plane request.
#[derive(PartialEq, Eq, Structural, Debug, Clone, Copy)]
pub enum Error {
    /// The requested function is not implemented.
    NotImplemented,
    /// Reading or writing the cache failed.
    Io,
}

/// Identifies a version of a package.
#[derive(Debug, Clone)]
pub struct PackageId {
    pub name: String,
    pub version: String,
}

/// `name/version`.
pub open spec fn package_text(name: Seq<char>, version: Seq<char>) -> Seq<char> {
    name + seq!['/'] + version
}

impl PackageId {
    /// The id of `name` at `version`.
    pub fn new(name: String, version: String) -> (r: PackageId)
        ensures
            r.name == name,
            r.version == version,
    {
        PackageId { name, version }
    }

    /// The id written as `name/version`.
    pub fn to_string(&self) -> (r: String)
        ensures
            r@ == package_text(self.name@, self.version@),
    {
        let r = crate::text::join3(self.name.as_str(), "/", self.version.as_str());
        proof {
            reveal_strlit("/");
        }
        r
    }

    /// A copy of the id.
    pub fn duplicate(&self) -> (r: PackageId)
        ensures
            r == *self,
    {
        PackageId { name: self.name.clone(), version: self.version.clone() }
    }
}

/// A control-plane request.
#[derive(Debug, Clone)]
pub enum Request {
    /// Which of these packages does the cache lack?
    CheckMissing(Vec<PackageId>),
    /// Store a new package version.
    UploadCrate { package: PackageId, content: Vec<u8> },
}

/// A control-plane response.
#[derive(Debug, Clone)]
pub enum Response {
    /// The packages of the request that the cache lacks.
    CheckMissing(Vec<PackageId>),
    /// The upload was handled.
    UploadCrate,
}

/// A message tagged with the sequence number that pairs a response with its
/// request.
#[derive(Debug, Clone)]
pub struct Overlapped<T> {
    pub sequence: u32,
    pub payload: T,
}

} // verus!
