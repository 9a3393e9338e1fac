//! Fetches the latest release of a hosted repository, picks the asset whose
//! name matches a configured pattern, extracts one member from its archive,
//! and installs it as an executable, honouring a configurable upgrade policy.
//!
//! This crate holds the verified core: the archive-access layer, the version
//! extractor, and the upgrade-decision logic. Network, filesystem and process
//! plumbing live outside it and hand this crate plain values.

pub mod archive;
pub mod extract;
pub mod github;
pub mod text;
pub mod version;

pub use archive::{Archive, ArchiveError, ArchiveFormat, Extract};
pub use extract::{TarExt, TarExtParseError};

use vstd::prelude::*;

use crate::github::{first_asset_from, select_asset, Release};
use crate::text::{spec_replace, str_replace};
use crate::version::{
    spec_find_version, spec_version_lt, spec_version_text, find_version, Version, VersionError,
};

verus! {

/// How an installed binary looked when probed: missing, present with an
/// unreadable version, or present with a known version. A snapshot, computed
/// fresh on every probe.
#[derive(Debug, Clone, Copy, PartialEq, Eq, Structural)]
pub enum BinaryStatus {
    NotFound,
    Exist,
    ExistWithVersion(Version),
}

impl BinaryStatus {
    /// The status of a binary that is present on disk, decided from the
    /// output its probe run captured: standard output is consulted before
    /// standard error, and a version that cannot be read — absent or
    /// malformed — degrades to `Exist` rather than failing, so probing a
    /// pre-existing binary never prevents an upgrade.
    pub fn from_probe_output(stdout: &str, stderr: &str) -> (r: BinaryStatus)
        ensures
            match spec_find_version(seq![stdout@, stderr@]) {
                Ok(Some(v)) => r == BinaryStatus::ExistWithVersion(v),
                _ => r == BinaryStatus::Exist,
            },
    {
        let mut candidates: Vec<String> = Vec::new();
        candidates.push(stdout.to_owned());
        candidates.push(stderr.to_owned());
        proof {
            assert(candidates.deep_view() =~= seq![stdout@, stderr@]);
        }
        match find_version(&candidates) {
            Ok(Some(v)) => BinaryStatus::ExistWithVersion(v),
            _ => BinaryStatus::Exist,
        }
    }
}

/// The configured rule governing whether an already-installed binary is
/// replaced. Immutable after the configuration is loaded.
#[derive(Debug, Clone, Copy, PartialEq, Eq, Structural)]
pub enum UpgradePolicy {
    /// Upgrade unconditionally.
    Always,
    /// Upgrade unless the installed version is current enough; an unknown
    /// version upgrades.
    Upgrade,
    /// Upgrade only when nothing is installed.
    SkipWhenExist,
}

impl Default for UpgradePolicy {
    /// The default policy is `Upgrade`.
    fn default() -> (r: UpgradePolicy)
        ensures
            r == UpgradePolicy::Upgrade,
    {
        UpgradePolicy::Upgrade
    }
}

/// The upgrade-decision table: `Always` always upgrades; `Upgrade` upgrades
/// unless a known installed version is at least the latest; `SkipWhenExist`
/// upgrades only when nothing is installed.
pub open spec fn spec_need_to_upgrade(
    policy: UpgradePolicy,
    status: BinaryStatus,
    latest: Version,
) -> bool {
    match policy {
        UpgradePolicy::Always => true,
        UpgradePolicy::Upgrade => match status {
            BinaryStatus::ExistWithVersion(v) => spec_version_lt(v, latest),
            _ => true,
        },
        UpgradePolicy::SkipWhenExist => status is NotFound,
    }
}

/// The full decision table, one row per policy and status shape: `Always`
/// upgrades in every case; `Upgrade` upgrades except over an installed
/// version that is not strictly older; `SkipWhenExist` upgrades only over a
/// missing binary.
pub proof fn lemma_upgrade_policy_table(latest: Version, installed: Version)
    ensures
        spec_need_to_upgrade(UpgradePolicy::Always, BinaryStatus::NotFound, latest),
        spec_need_to_upgrade(UpgradePolicy::Always, BinaryStatus::Exist, latest),
        spec_need_to_upgrade(
            UpgradePolicy::Always,
            BinaryStatus::ExistWithVersion(installed),
            latest,
        ),
        spec_need_to_upgrade(UpgradePolicy::Upgrade, BinaryStatus::NotFound, latest),
        spec_need_to_upgrade(UpgradePolicy::Upgrade, BinaryStatus::Exist, latest),
        spec_need_to_upgrade(
            UpgradePolicy::Upgrade,
            BinaryStatus::ExistWithVersion(installed),
            latest,
        ) == spec_version_lt(installed, latest),
        spec_need_to_upgrade(UpgradePolicy::SkipWhenExist, BinaryStatus::NotFound, latest),
        !spec_need_to_upgrade(UpgradePolicy::SkipWhenExist, BinaryStatus::Exist, latest),
        !spec_need_to_upgrade(
            UpgradePolicy::SkipWhenExist,
            BinaryStatus::ExistWithVersion(installed),
            latest,
        ),
{
}

impl UpgradePolicy {
    /// Decides whether to upgrade, exactly as the decision table states; in
    /// particular, under `Upgrade` an installed version equal to the latest
    /// does not upgrade.
    pub fn need_to_upgrade(&self, bin_status: &BinaryStatus, latest_version: &Version) -> (r:
        bool)
        ensures
            r == spec_need_to_upgrade(*self, *bin_status, *latest_version),
    {
        match self {
            UpgradePolicy::Always => true,
            UpgradePolicy::Upgrade => match bin_status {
                BinaryStatus::ExistWithVersion(v) => v.lt(latest_version),
                _ => true,
            },
            UpgradePolicy::SkipWhenExist => matches!(bin_status, BinaryStatus::NotFound),
        }
    }
}

/// The optional default section of the configuration.
#[derive(Debug)]
pub struct DefaultTable {
    pub bin_dir: Option<String>,
    pub upgrade_policy: UpgradePolicy,
}

/// One binary to manage: its repository, the pattern of the asset filename
/// to download, the in-archive path of the executable, and the destination
/// filename. `{version}` in the two patterns stands for the resolved latest
/// version. Read once from configuration, read-only thereafter.
#[derive(Debug)]
pub struct BinaryTable {
    pub repo: String,
    pub asset_download_filename: String,
    pub src: String,
    pub dst: String,
}

/// The loaded configuration: an optional default section and the binaries to
/// manage.
#[derive(Debug)]
pub struct Config {
    pub default: Option<DefaultTable>,
    pub binary: Option<Vec<BinaryTable>>,
}

/// The `{version}` placeholder in asset and member patterns.
pub open spec fn placeholder() -> Seq<char> {
    seq!['{', 'v', 'e', 'r', 's', 'i', 'o', 'n', '}']
}

/// The fallback binary directory, `./bin`.
pub open spec fn spec_default_bin_dir() -> Seq<char> {
    seq!['.', '/', 'b', 'i', 'n']
}

/// The policy the configuration selects: the default section's, or
/// `Upgrade` when there is none.
pub open spec fn spec_upgrade_policy(c: Config) -> UpgradePolicy {
    match c.default {
        Some(d) => d.upgrade_policy,
        None => UpgradePolicy::Upgrade,
    }
}

/// Relies on `shellexpand::tilde`: a string that does not begin with `~` is
/// handed back unchanged; one that does has the leading `~` replaced by the
/// home directory, which depends on the environment.
#[verifier::external_body]
fn expand_tilde(s: &str) -> (r: String)
    ensures
        s@.len() == 0 || s@[0] != '~' ==> r@ == s@,
{
    shellexpand::tilde(s).into_owned()
}

impl Config {
    /// The directory binaries are installed into: the configured one with a
    /// leading `~` expanded to the home directory, or `./bin` when none is
    /// configured. A configured directory that does not begin with `~` is
    /// used as written.
    pub fn bin_dir(&self) -> (r: String)
        ensures
            match self.default {
                Some(d) => match d.bin_dir {
                    Some(p) => (p@.len() == 0 || p@[0] != '~') ==> r@ == p@,
                    None => r@ == spec_default_bin_dir(),
                },
                None => r@ == spec_default_bin_dir(),
            },
    {
        proof {
            reveal_strlit("./bin");
            assert("./bin"@ =~= spec_default_bin_dir());
        }
        match &self.default {
            Some(d) => match &d.bin_dir {
                Some(p) => expand_tilde(p.as_str()),
                None => "./bin".to_owned(),
            },
            None => "./bin".to_owned(),
        }
    }

    /// The configured upgrade policy, `Upgrade` when none is set.
    pub fn upgrade_policy(&self) -> (r: UpgradePolicy)
        ensures
            r == spec_upgrade_policy(*self),
    {
        match &self.default {
            Some(d) => d.upgrade_policy,
            None => UpgradePolicy::Upgrade,
        }
    }

    /// Decides whether `status` warrants an upgrade to `latest_version`
    /// under the configured policy.
    pub fn need_to_upgrade(&self, status: &BinaryStatus, latest_version: &Version) -> (r: bool)
        ensures
            r == spec_need_to_upgrade(spec_upgrade_policy(*self), *status, *latest_version),
    {
        self.upgrade_policy().need_to_upgrade(status, latest_version)
    }

    /// The binaries the configuration declares, in declaration order; an
    /// absent list means none.
    pub fn binaries(&self) -> (r: Vec<&BinaryTable>)
        ensures
            match self.binary {
                Some(bs) => r@.len() == bs.len() && forall|i: int|
                    0 <= i < bs.len() ==> *r@[i] == bs[i],
                None => r@.len() == 0,
            },
    {
        let mut r: Vec<&BinaryTable> = Vec::new();
        match &self.binary {
            Some(bs) => {
                let mut i: usize = 0;
                while i < bs.len()
                    invariant
                        i <= bs.len(),
                        self.binary matches Some(inner) && inner == *bs,
                        r@.len() == i,
                        forall|j: int| 0 <= j < i ==> *r@[j] == bs@[j],
                    decreases bs.len() - i,
                {
                    r.push(&bs[i]);
                    i += 1;
                }
            },
            None => {},
        }
        r
    }
}

impl BinaryTable {
    /// The in-archive path of the executable, with `{version}` substituted.
    pub fn src(&self, version: &Version) -> (r: String)
        ensures
            r@ == spec_replace(self.src@, placeholder(), spec_version_text(*version)),
    {
        proof {
            reveal_strlit("{version}");
            assert("{version}"@ =~= placeholder());
        }
        let text = version.to_text();
        str_replace(self.src.as_str(), "{version}", text.as_str())
    }

    /// The asset filename to look for, with `{version}` substituted.
    pub fn asset_download_filename(&self, version: &Version) -> (r: String)
        ensures
            r@ == spec_replace(
                self.asset_download_filename@,
                placeholder(),
                spec_version_text(*version),
            ),
    {
        proof {
            reveal_strlit("{version}");
            assert("{version}"@ =~= placeholder());
        }
        let text = version.to_text();
        str_replace(self.asset_download_filename.as_str(), "{version}", text.as_str())
    }

    /// The repository the binary comes from.
    pub fn repo(&self) -> (r: &str)
        ensures
            r@ == self.repo@,
    {
        self.repo.as_str()
    }

    /// The destination filename the binary is installed as.
    pub fn dst(&self) -> (r: &str)
        ensures
            r@ == self.dst@,
    {
        self.dst.as_str()
    }
}

/// What one binary's run decided: nothing to do, or which asset to download
/// and which member to pull out of it.
#[derive(Debug, PartialEq, Eq)]
pub enum Plan {
    /// The installed binary is current enough under the policy.
    Skip,
    /// Download the asset at index `asset` of the release's asset list and
    /// extract the member at path `member` from it.
    Install { asset: usize, member: String },
}

/// Why no plan could be made for one binary.
#[derive(Debug, PartialEq, Eq)]
pub enum PlanError {
    /// The release metadata yielded no usable version.
    Version(VersionError),
    /// No release asset downloads as the resolved filename.
    AssetNotFound { filename: String },
}

/// The decision chain for one binary, given the probed status of what is
/// installed and the latest release's metadata: resolve the release version,
/// consult the upgrade policy, substitute the version into the configured
/// patterns, and match an asset. All plumbing — querying, probing,
/// downloading, writing — happens outside, before and after this call.
pub fn plan_binary(
    binary: &BinaryTable,
    policy: UpgradePolicy,
    status: &BinaryStatus,
    release: &Release,
) -> (r: Result<Plan, PlanError>)
    ensures
        match spec_find_version(seq![release.tag_name@, release.name@]) {
            Err(_) => r == Err::<Plan, PlanError>(PlanError::Version(VersionError::Parse)),
            Ok(None) => r == Err::<Plan, PlanError>(PlanError::Version(VersionError::Absent)),
            Ok(Some(v)) => {
                let fname = spec_replace(
                    binary.asset_download_filename@,
                    placeholder(),
                    spec_version_text(v),
                );
                if !spec_need_to_upgrade(policy, *status, v) {
                    r == Ok::<Plan, PlanError>(Plan::Skip)
                } else {
                    match first_asset_from(release.assets@, fname, 0) {
                        Some(k) => r matches Ok(p) && (p matches Plan::Install { asset, member }
                            && asset as int == k && member@ == spec_replace(
                            binary.src@,
                            placeholder(),
                            spec_version_text(v),
                        )),
                        None => r matches Err(e) && (e matches PlanError::AssetNotFound {
                            filename,
                        } && filename@ == fname),
                    }
                }
            },
        },
{
    let version = match release.version() {
        Ok(v) => v,
        Err(e) => {
            return Err(PlanError::Version(e));
        },
    };
    if !policy.need_to_upgrade(status, &version) {
        return Ok(Plan::Skip);
    }
    let filename = binary.asset_download_filename(&version);
    let member = binary.src(&version);
    match select_asset(&release.assets, filename.as_str()) {
        Some(i) => Ok(Plan::Install { asset: i, member }),
        None => Err(PlanError::AssetNotFound { filename }),
    }
}

} // verus!
