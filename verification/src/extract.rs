//! Classification of archive file names for whole-archive unpacking: which
//! of the supported tar-like containers a path name denotes.

use vstd::prelude::*;

use crate::text::{spec_ends_with, str_ends_with};
use crate::archive::{suffix_tar, suffix_tar_gz, suffix_zip};

verus! {

/// The container kinds whole-archive unpacking understands. Unlike archive
/// opening, an unrecognised suffix is an error here, not a raw payload.
#[derive(Debug, Copy, Clone, PartialEq, Eq, Hash, PartialOrd, Ord, Structural)]
pub enum TarExt {
    TarGz,
    Tar,
    Zip,
}

/// The name does not end in any suffix whole-archive unpacking understands.
#[derive(Debug, PartialEq, Eq)]
pub struct TarExtParseError(pub ());

/// The container kind a path name selects, or an error for an unrecognised
/// suffix.
pub open spec fn spec_tar_ext(s: Seq<char>) -> Result<TarExt, TarExtParseError> {
    if spec_ends_with(s, suffix_tar_gz()) {
        Ok(TarExt::TarGz)
    } else if spec_ends_with(s, suffix_tar()) {
        Ok(TarExt::Tar)
    } else if spec_ends_with(s, suffix_zip()) {
        Ok(TarExt::Zip)
    } else {
        Err(TarExtParseError(()))
    }
}

impl TarExt {
    /// Reads the container kind off the suffix of `s`.
    pub fn parse(s: &str) -> (r: Result<TarExt, TarExtParseError>)
        ensures
            r == spec_tar_ext(s@),
    {
        proof {
            reveal_strlit(".tar.gz");
            reveal_strlit(".tar");
            reveal_strlit(".zip");
            assert(".tar.gz"@ =~= suffix_tar_gz());
            assert(".tar"@ =~= suffix_tar());
            assert(".zip"@ =~= suffix_zip());
        }
        if str_ends_with(s, ".tar.gz") {
            Ok(TarExt::TarGz)
        } else if str_ends_with(s, ".tar") {
            Ok(TarExt::Tar)
        } else if str_ends_with(s, ".zip") {
            Ok(TarExt::Zip)
        } else {
            Err(TarExtParseError(()))
        }
    }
}

impl core::str::FromStr for TarExt {
    type Err = TarExtParseError;

    fn from_str(s: &str) -> Result<TarExt, TarExtParseError> {
        TarExt::parse(s)
    }
}

} // verus!
