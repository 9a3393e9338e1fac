//! Release metadata as plain values, and the decisions made over it:
//! reading a version out of a release's tag and display name, and matching
//! a release asset against a wanted download filename.
//!
//! Querying the release service and downloading an asset are plumbing that
//! lives outside this crate and hands these types in.

use vstd::prelude::*;

use crate::version::{
    find_version, spec_find_version, Version, VersionError,
};

verus! {

/// A tagged, versioned publication of a repository.
#[derive(Debug)]
pub struct Release {
    pub tag_name: String,
    pub name: String,
    pub assets: Vec<Asset>,
    pub body: String,
    pub author: Author,
}

/// One downloadable file attached to a release.
#[derive(Debug)]
pub struct Asset {
    pub url: String,
    pub name: String,
    pub content_type: String,
    pub state: String,
    pub size: usize,
    pub created_at: String,
    pub updated_at: String,
    pub browser_download_url: String,
}

/// The author of a release.
#[derive(Debug)]
pub struct Author {
    pub login: String,
}

/// The last path segment of a URL, or nothing when the text does not parse
/// as a URL with path segments. A function of the text alone.
pub uninterp spec fn url_last_segment(u: Seq<char>) -> Option<Seq<char>>;

/// Relies on `url::Url::parse` and `Url::path_segments`: whether the text
/// parses as a URL with path segments, and what its last segment is, depend
/// on the text alone.
#[verifier::external_body]
fn last_path_segment(u: &str) -> (r: Option<String>)
    ensures
        r is Some <==> url_last_segment(u@) is Some,
        r matches Some(s) ==> url_last_segment(u@) == Some(s@),
{
    let parsed = url::Url::parse(u).ok()?;
    let segment = parsed.path_segments()?.last()?;
    Some(segment.to_string())
}

impl Release {
    /// The release's version: extracted from the tag name first, the display
    /// name second, so the more authoritative source wins. Absence of any
    /// version-shaped text and a malformed version are distinct errors.
    pub fn version(&self) -> (r: Result<Version, VersionError>)
        ensures
            match spec_find_version(seq![self.tag_name@, self.name@]) {
                Ok(Some(v)) => r == Ok::<Version, VersionError>(v),
                Ok(None) => r == Err::<Version, VersionError>(VersionError::Absent),
                Err(_) => r == Err::<Version, VersionError>(VersionError::Parse),
            },
    {
        let mut candidates: Vec<String> = Vec::new();
        candidates.push(self.tag_name.clone());
        candidates.push(self.name.clone());
        proof {
            assert(candidates.deep_view() =~= seq![self.tag_name@, self.name@]);
        }
        match find_version(&candidates) {
            Ok(Some(v)) => Ok(v),
            Ok(None) => Err(VersionError::Absent),
            Err(_) => Err(VersionError::Parse),
        }
    }
}

impl Asset {
    /// The filename this asset downloads as: the last path segment of its
    /// download URL, or nothing when that URL has none.
    pub fn download_filename(&self) -> (r: Option<String>)
        ensures
            r is Some <==> url_last_segment(self.browser_download_url@) is Some,
            r matches Some(s) ==> url_last_segment(self.browser_download_url@) == Some(s@),
    {
        last_path_segment(self.browser_download_url.as_str())
    }
}

/// The index of the first asset at or after `i` whose download filename is
/// `filename`.
pub open spec fn first_asset_from(assets: Seq<Asset>, filename: Seq<char>, i: int) -> Option<int>
    decreases assets.len() - i,
{
    if 0 <= i < assets.len() {
        if url_last_segment(assets[i].browser_download_url@) == Some(filename) {
            Some(i)
        } else {
            first_asset_from(assets, filename, i + 1)
        }
    } else {
        None
    }
}

/// Picks the first asset whose download filename equals `filename` exactly;
/// assets whose download URL yields no filename are skipped.
pub fn select_asset(assets: &Vec<Asset>, filename: &str) -> (r: Option<usize>)
    ensures
        match first_asset_from(assets@, filename@, 0) {
            Some(k) => r matches Some(u) && u as int == k,
            None => r is None,
        },
{
    let target: String = filename.to_owned();
    let mut i: usize = 0;
    while i < assets.len()
        invariant
            i <= assets.len(),
            target@ == filename@,
            first_asset_from(assets@, filename@, 0) == first_asset_from(
                assets@,
                filename@,
                i as int,
            ),
        decreases assets.len() - i,
    {
        let candidate = &assets[i];
        match last_path_segment(candidate.browser_download_url.as_str()) {
            Some(s) => {
                if s == target {
                    return Some(i);
                }
            },
            None => {},
        }
        i += 1;
    }
    None
}

} // verus!
