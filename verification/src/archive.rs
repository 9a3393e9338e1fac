//! The unified archive-access layer: an in-memory byte buffer opened under a
//! declared name whose suffix picks the container format, and a single
//! extract-member-by-path operation over all formats.
//!
//! An unrecognised suffix means the whole buffer is the payload (`Raw`).
//! A zip container is validated when the archive is constructed; tar framing
//! and gzip framing are only inspected when a member is extracted.

use vstd::pervasive::VecAdditionalExecFns;
use vstd::prelude::*;
use vstd::slice::{slice_subrange, slice_to_vec};

use crate::text::{spec_ends_with, str_ends_with};

verus! {

/// Whether flate2's `GzDecoder` inflates these bytes to the end without an
/// error. A function of the bytes alone.
pub uninterp spec fn gzip_ok(data: Seq<u8>) -> bool;

/// The bytes flate2's `GzDecoder` inflates these bytes to. A function of the
/// bytes alone; meaningful only when `gzip_ok` holds.
pub uninterp spec fn gzip_plain(data: Seq<u8>) -> Seq<u8>;

/// Whether the tar crate walks every entry of these bytes, with a UTF-8 path
/// each, without an error. A function of the bytes alone.
pub uninterp spec fn tar_ok(data: Seq<u8>) -> bool;

/// The entries the tar crate lists for these bytes, in on-disk order, each a
/// path and its content. A function of the bytes alone; meaningful only when
/// `tar_ok` holds.
pub uninterp spec fn tar_entries(data: Seq<u8>) -> Seq<(Seq<char>, Seq<u8>)>;

/// Whether the zip crate opens these bytes and reads every member without an
/// error. A function of the bytes alone.
pub uninterp spec fn zip_ok(data: Seq<u8>) -> bool;

/// The members the zip crate lists for these bytes, in central-directory
/// order, each a stored name and its decompressed content. A function of the
/// bytes alone; meaningful only when `zip_ok` holds.
pub uninterp spec fn zip_entries(data: Seq<u8>) -> Seq<(Seq<char>, Seq<u8>)>;

/// Relies on `flate2::read::GzDecoder` together with `Read::read_to_end`: the
/// decoded bytes, and whether decoding succeeds, depend on the input bytes
/// alone.
#[verifier::external_body]
fn gunzip(data: &Vec<u8>) -> (r: Option<Vec<u8>>)
    ensures
        r is Some <==> gzip_ok(data@),
        r matches Some(v) ==> v@ == gzip_plain(data@),
{
    let mut out: Vec<u8> = Vec::new();
    let mut dec = flate2::read::GzDecoder::new(data.as_slice());
    match std::io::Read::read_to_end(&mut dec, &mut out) {
        Ok(_) => Some(out),
        Err(_) => None,
    }
}

/// Relies on `tar::Archive::entries`, `tar::Entry::path` and
/// `Read::read_to_end`: the entry list, in on-disk order, depends on the
/// input bytes alone. A non-UTF-8 entry path counts as a failure.
#[verifier::external_body]
fn tar_list(data: &Vec<u8>) -> (r: Option<Vec<(String, Vec<u8>)>>)
    ensures
        r is Some <==> tar_ok(data@),
        r matches Some(es) ==> es.deep_view() == tar_entries(data@),
{
    let mut ar = tar::Archive::new(data.as_slice());
    let mut out: Vec<(String, Vec<u8>)> = Vec::new();
    for entry in ar.entries().ok()? {
        let mut entry = entry.ok()?;
        let name = entry.path().ok()?.to_str()?.to_string();
        let mut content: Vec<u8> = Vec::new();
        std::io::Read::read_to_end(&mut entry, &mut content).ok()?;
        out.push((name, content));
    }
    Some(out)
}

/// Relies on `zip::ZipArchive::new`, `by_index`, `ZipFile::name` and
/// `Read::read_to_end`: the member list, in central-directory order, depends
/// on the input bytes alone.
#[verifier::external_body]
fn zip_list(data: &Vec<u8>) -> (r: Option<Vec<(String, Vec<u8>)>>)
    ensures
        r is Some <==> zip_ok(data@),
        r matches Some(es) ==> es.deep_view() == zip_entries(data@),
{
    let mut ar = zip::ZipArchive::new(std::io::Cursor::new(data.as_slice())).ok()?;
    let mut out: Vec<(String, Vec<u8>)> = Vec::new();
    for i in 0..ar.len() {
        let mut f = ar.by_index(i).ok()?;
        let name = f.name().to_string();
        let mut content: Vec<u8> = Vec::new();
        std::io::Read::read_to_end(&mut f, &mut content).ok()?;
        out.push((name, content));
    }
    Some(out)
}

pub open spec fn suffix_tar_gz() -> Seq<char> {
    seq!['.', 't', 'a', 'r', '.', 'g', 'z']
}

pub open spec fn suffix_tgz() -> Seq<char> {
    seq!['.', 't', 'g', 'z']
}

pub open spec fn suffix_tar() -> Seq<char> {
    seq!['.', 't', 'a', 'r']
}

pub open spec fn suffix_zip() -> Seq<char> {
    seq!['.', 'z', 'i', 'p']
}

/// The container format a declared name selects.
#[derive(Debug, Clone, Copy, PartialEq, Eq, Structural)]
pub enum ArchiveFormat {
    TarGz,
    Tar,
    Zip,
    Raw,
}

/// Format inference is purely suffix-based; an unrecognised suffix falls back
/// to `Raw`, never to an error.
pub open spec fn spec_format_of(name: Seq<char>) -> ArchiveFormat {
    if spec_ends_with(name, suffix_tar_gz()) || spec_ends_with(name, suffix_tgz()) {
        ArchiveFormat::TarGz
    } else if spec_ends_with(name, suffix_tar()) {
        ArchiveFormat::Tar
    } else if spec_ends_with(name, suffix_zip()) {
        ArchiveFormat::Zip
    } else {
        ArchiveFormat::Raw
    }
}

/// Each supported suffix selects its own format, and a name that ends in
/// none of them selects `Raw`.
pub proof fn lemma_format_from_suffix(name: Seq<char>)
    ensures
        spec_ends_with(name, suffix_tar_gz()) ==> spec_format_of(name) is TarGz,
        spec_ends_with(name, suffix_tgz()) ==> spec_format_of(name) is TarGz,
        spec_ends_with(name, suffix_tar()) ==> spec_format_of(name) is Tar,
        spec_ends_with(name, suffix_zip()) ==> spec_format_of(name) is Zip,
        !spec_ends_with(name, suffix_tar_gz()) && !spec_ends_with(name, suffix_tgz())
            && !spec_ends_with(name, suffix_tar()) && !spec_ends_with(name, suffix_zip())
            ==> spec_format_of(name) is Raw,
{
    let l = name.len() as int;
    if spec_ends_with(name, suffix_tar()) {
        assert(name.skip(l - 4)[3] == name[l - 1]);
        assert(name[l - 1] == 'r');
        if spec_ends_with(name, suffix_tar_gz()) {
            assert(name.skip(l - 7)[6] == name[l - 1]);
        }
        if spec_ends_with(name, suffix_tgz()) {
            assert(name.skip(l - 4)[3] == name[l - 1]);
        }
    }
    if spec_ends_with(name, suffix_zip()) {
        assert(name.skip(l - 4)[3] == name[l - 1]);
        assert(name[l - 1] == 'p');
        if spec_ends_with(name, suffix_tar_gz()) {
            assert(name.skip(l - 7)[6] == name[l - 1]);
        }
        if spec_ends_with(name, suffix_tgz()) {
            assert(name.skip(l - 4)[3] == name[l - 1]);
        }
        if spec_ends_with(name, suffix_tar()) {
            assert(name.skip(l - 4)[3] == name[l - 1]);
        }
    }
}

/// The errors the archive layer can hand back.
#[derive(Debug, PartialEq, Eq)]
pub enum ArchiveError {
    /// The container did not parse under its declared format.
    CorruptArchive { archive: String },
    /// No member of the archive has the requested path.
    MemberNotFound { member: String, archive: String },
}

/// An opened container bound to a byte source and a declared name. The
/// variant is fixed at construction, inferred from the name's suffix alone.
/// The archive owns its bytes; a zip has its member table parsed eagerly,
/// while tar and gzip framing are only inspected on extraction.
#[derive(Debug)]
pub enum Archive {
    TarGz { name: String, data: Vec<u8> },
    Tar { name: String, data: Vec<u8> },
    Zip { name: String, entries: Vec<(String, Vec<u8>)> },
    Raw { name: String, data: Vec<u8> },
}

impl Archive {
    /// The name the archive was declared with.
    pub open spec fn declared_name(self) -> Seq<char> {
        match self {
            Archive::TarGz { name, .. } => name@,
            Archive::Tar { name, .. } => name@,
            Archive::Zip { name, .. } => name@,
            Archive::Raw { name, .. } => name@,
        }
    }

    /// The container format of this archive.
    pub open spec fn format(self) -> ArchiveFormat {
        match self {
            Archive::TarGz { .. } => ArchiveFormat::TarGz,
            Archive::Tar { .. } => ArchiveFormat::Tar,
            Archive::Zip { .. } => ArchiveFormat::Zip,
            Archive::Raw { .. } => ArchiveFormat::Raw,
        }
    }

    /// The member list of a non-raw archive: `None` when the container does
    /// not parse, otherwise every member's path and content in container
    /// order.
    pub open spec fn spec_members(self) -> Option<Seq<(Seq<char>, Seq<u8>)>> {
        match self {
            Archive::TarGz { data, .. } => if gzip_ok(data@) && tar_ok(gzip_plain(data@)) {
                Some(tar_entries(gzip_plain(data@)))
            } else {
                None
            },
            Archive::Tar { data, .. } => if tar_ok(data@) {
                Some(tar_entries(data@))
            } else {
                None
            },
            Archive::Zip { entries, .. } => Some(entries.deep_view()),
            Archive::Raw { .. } => None,
        }
    }

    /// Opens `data` under the declared name `name`. The suffix of `name`
    /// picks the variant; a zip that does not parse is rejected here, and no
    /// other format can fail at construction.
    pub fn new(data: Vec<u8>, name: &str) -> (r: Result<Archive, ArchiveError>)
        ensures
            r is Err <==> spec_format_of(name@) is Zip && !zip_ok(data@),
            r matches Ok(a) ==> {
                &&& a.format() == spec_format_of(name@)
                &&& a.declared_name() == name@
                &&& match a {
                    Archive::TarGz { data: d, .. } => d@ == data@,
                    Archive::Tar { data: d, .. } => d@ == data@,
                    Archive::Raw { data: d, .. } => d@ == data@,
                    Archive::Zip { entries, .. } => zip_ok(data@) && entries.deep_view()
                        == zip_entries(data@),
                }
            },
            r matches Err(e) ==> e matches ArchiveError::CorruptArchive { archive } && archive@
                == name@,
    {
        proof {
            reveal_strlit(".tar.gz");
            reveal_strlit(".tgz");
            reveal_strlit(".tar");
            reveal_strlit(".zip");
            assert(".tar.gz"@ =~= suffix_tar_gz());
            assert(".tgz"@ =~= suffix_tgz());
            assert(".tar"@ =~= suffix_tar());
            assert(".zip"@ =~= suffix_zip());
        }
        let owned_name = name.to_owned();
        if str_ends_with(name, ".tar.gz") || str_ends_with(name, ".tgz") {
            Ok(Archive::TarGz { name: owned_name, data })
        } else if str_ends_with(name, ".tar") {
            Ok(Archive::Tar { name: owned_name, data })
        } else if str_ends_with(name, ".zip") {
            match zip_list(&data) {
                Some(entries) => Ok(Archive::Zip { name: owned_name, entries }),
                None => Err(ArchiveError::CorruptArchive { archive: owned_name }),
            }
        } else {
            Ok(Archive::Raw { name: owned_name, data })
        }
    }

    /// Extracts the member whose path equals `src` exactly. For a raw
    /// archive the path is ignored and the whole buffer is the member. A
    /// non-raw archive hands back the first member whose path matches,
    /// `MemberNotFound` when none does, and `CorruptArchive` when the
    /// container does not parse. The archive itself is left unchanged, so
    /// extraction can be repeated.
    pub fn extract(&mut self, src: &str) -> (r: Result<Extract, ArchiveError>)
        ensures
            *final(self) == *old(self),
            match *old(self) {
                Archive::Raw { data, .. } => r matches Ok(ex) && ex@ == data@,
                _ => match old(self).spec_members() {
                    None => r matches Err(e)
                        && (e matches ArchiveError::CorruptArchive { archive } && archive@ == old(
                        self,
                    ).declared_name()),
                    Some(es) => match first_member_from(es, src@, 0) {
                        Some(k) => r matches Ok(ex) && ex@ == es[k].1,
                        None => r matches Err(e) && (e matches ArchiveError::MemberNotFound {
                            member,
                            archive,
                        } && member@ == src@ && archive@ == old(self).declared_name()),
                    },
                },
            },
    {
        match &*self {
            Archive::TarGz { name, data } => match gunzip(data) {
                None => Err(ArchiveError::CorruptArchive { archive: name.clone() }),
                Some(plain) => match tar_list(&plain) {
                    None => Err(ArchiveError::CorruptArchive { archive: name.clone() }),
                    Some(entries) => find_member(&entries, src, name),
                },
            },
            Archive::Tar { name, data } => match tar_list(data) {
                None => Err(ArchiveError::CorruptArchive { archive: name.clone() }),
                Some(entries) => find_member(&entries, src, name),
            },
            Archive::Zip { name, entries } => find_member(entries, src, name),
            Archive::Raw { data, .. } => Ok(
                Extract::from_bytes(slice_to_vec(data.as_slice())),
            ),
        }
    }
}

/// The index of the first member at or after `i` whose path equals `p`.
pub open spec fn first_member_from(es: Seq<(Seq<char>, Seq<u8>)>, p: Seq<char>, i: int) -> Option<
    int,
>
    decreases es.len() - i,
{
    if 0 <= i < es.len() {
        if es[i].0 == p {
            Some(i)
        } else {
            first_member_from(es, p, i + 1)
        }
    } else {
        None
    }
}

/// Hands back a stream over the first entry whose path equals `src`, or
/// `MemberNotFound` naming both the path and the archive.
fn find_member(entries: &Vec<(String, Vec<u8>)>, src: &str, archive_name: &String) -> (r: Result<
    Extract,
    ArchiveError,
>)
    ensures
        match first_member_from(entries.deep_view(), src@, 0) {
            Some(k) => r matches Ok(ex) && ex@ == entries.deep_view()[k].1,
            None => r matches Err(e) && (e matches ArchiveError::MemberNotFound {
                member,
                archive,
            } && member@ == src@ && archive@ == archive_name@),
        },
{
    let ghost es = entries.deep_view();
    let target: String = src.to_owned();
    let mut k: usize = 0;
    while k < entries.len()
        invariant
            k <= entries.len(),
            es == entries.deep_view(),
            es.len() == entries.len(),
            target@ == src@,
            first_member_from(es, src@, 0) == first_member_from(es, src@, k as int),
        decreases entries.len() - k,
    {
        proof {
            assert(es[k as int] == entries@[k as int].deep_view());
        }
        if entries[k].0 == target {
            let content = slice_to_vec(entries[k].1.as_slice());
            return Ok(Extract::from_bytes(content));
        }
        k += 1;
    }
    Err(
        ArchiveError::MemberNotFound {
            member: src.to_owned(),
            archive: archive_name.clone(),
        },
    )
}

/// A finite, forward-only byte stream positioned inside an extracted member.
/// Reading is the only operation; there is no seeking and no restart.
#[derive(Debug)]
pub struct Extract {
    data: Vec<u8>,
    pos: usize,
}

impl View for Extract {
    type V = Seq<u8>;

    /// The bytes not yet read.
    closed spec fn view(&self) -> Seq<u8> {
        self.data@.skip(self.pos as int)
    }
}

impl Extract {
    #[verifier::type_invariant]
    spec fn wf(self) -> bool {
        self.pos <= self.data.len()
    }

    /// A stream over the whole of `data`.
    pub fn from_bytes(data: Vec<u8>) -> (r: Extract)
        ensures
            r@ == data@,
    {
        let r = Extract { data, pos: 0 };
        proof {
            assert(r.data@.skip(0) =~= r.data@);
        }
        r
    }

    /// How many bytes are left to read.
    pub fn remaining(&self) -> (n: usize)
        ensures
            n == self@.len(),
    {
        proof {
            use_type_invariant(&*self);
        }
        self.data.len() - self.pos
    }

    /// Pull-based read: fills the front of `buf`, whose length is the
    /// requested amount, and reports how many bytes were copied. Zero means
    /// end of data (unless zero was asked for); the rest of `buf` is left as
    /// it was, and the copied bytes leave the stream.
    pub fn read(&mut self, buf: &mut Vec<u8>) -> (n: usize)
        ensures
            n == if old(buf)@.len() <= old(self)@.len() {
                old(buf)@.len() as int
            } else {
                old(self)@.len() as int
            },
            final(buf)@.len() == old(buf)@.len(),
            forall|i: int| 0 <= i < n ==> final(buf)@[i] == old(self)@[i],
            forall|i: int| n <= i < old(buf)@.len() ==> final(buf)@[i] == old(buf)@[i],
            final(self)@ == old(self)@.skip(n as int),
    {
        proof {
            use_type_invariant(&*self);
        }
        let remaining = self.data.len() - self.pos;
        let n = if buf.len() <= remaining {
            buf.len()
        } else {
            remaining
        };
        let mut i: usize = 0;
        while i < n
            invariant
                i <= n,
                n <= buf.len(),
                self.pos + n <= self.data.len(),
                buf@.len() == old(buf)@.len(),
                *self == *old(self),
                forall|j: int| 0 <= j < i ==> buf@[j] == self.data@[self.pos + j],
                forall|j: int| i <= j < buf@.len() ==> buf@[j] == old(buf)@[j],
            decreases n - i,
        {
            let b = self.data[self.pos + i];
            buf.set(i, b);
            i += 1;
        }
        let ghost before = *self;
        self.pos = self.pos + n;
        proof {
            assert(self@ =~= before@.skip(n as int));
            assert(forall|j: int| 0 <= j < n ==> buf@[j] == before@[j]);
        }
        n
    }

    /// Reads everything left in the stream.
    pub fn read_all(&mut self) -> (r: Vec<u8>)
        ensures
            r@ == old(self)@,
            final(self)@.len() == 0,
    {
        proof {
            use_type_invariant(&*self);
        }
        let r = slice_to_vec(slice_subrange(self.data.as_slice(), self.pos, self.data.len()));
        self.pos = self.data.len();
        proof {
            assert(self@ =~= Seq::<u8>::empty());
        }
        r
    }
}

} // verus!
