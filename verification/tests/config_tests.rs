use ruder::{BinaryTable, Config, DefaultTable, UpgradePolicy};
use ruder::version::Version;

fn tool_table() -> BinaryTable {
    BinaryTable {
        repo: "example/tool".to_string(),
        asset_download_filename: "tool-{version}-linux.tar.gz".to_string(),
        src: "tool-{version}/tool".to_string(),
        dst: "tool".to_string(),
    }
}

#[test]
fn bin_dir_defaults_without_default_section() {
    let config = Config { default: None, binary: None };
    assert_eq!(config.bin_dir(), "./bin");
}

#[test]
fn bin_dir_defaults_without_entry() {
    let config = Config {
        default: Some(DefaultTable { bin_dir: None, upgrade_policy: UpgradePolicy::Upgrade }),
        binary: None,
    };
    assert_eq!(config.bin_dir(), "./bin");
}

#[test]
fn bin_dir_without_tilde_is_kept() {
    let config = Config {
        default: Some(DefaultTable {
            bin_dir: Some("/opt/tools/bin".to_string()),
            upgrade_policy: UpgradePolicy::Upgrade,
        }),
        binary: None,
    };
    assert_eq!(config.bin_dir(), "/opt/tools/bin");
}

#[test]
fn bin_dir_expands_tilde_as_the_shell_would() {
    let config = Config {
        default: Some(DefaultTable {
            bin_dir: Some("~/tools/bin".to_string()),
            upgrade_policy: UpgradePolicy::Upgrade,
        }),
        binary: None,
    };
    assert_eq!(config.bin_dir(), shellexpand::tilde("~/tools/bin").into_owned());
}

#[test]
fn src_substitutes_version() {
    let table = tool_table();
    assert_eq!(table.src(&Version::new(2, 0, 0)), "tool-2.0.0/tool");
}

#[test]
fn asset_download_filename_substitutes_version() {
    let table = tool_table();
    assert_eq!(
        table.asset_download_filename(&Version::new(12, 1, 1)),
        "tool-12.1.1-linux.tar.gz"
    );
}

#[test]
fn patterns_without_placeholder_are_kept() {
    let table = BinaryTable {
        repo: "example/tool".to_string(),
        asset_download_filename: "tool.zip".to_string(),
        src: "tool".to_string(),
        dst: "tool".to_string(),
    };
    assert_eq!(table.asset_download_filename(&Version::new(1, 2, 3)), "tool.zip");
    assert_eq!(table.src(&Version::new(1, 2, 3)), "tool");
}

#[test]
fn every_placeholder_occurrence_is_substituted() {
    let table = BinaryTable {
        repo: "example/tool".to_string(),
        asset_download_filename: "{version}/{version}.tgz".to_string(),
        src: "{version}".to_string(),
        dst: "tool".to_string(),
    };
    assert_eq!(
        table.asset_download_filename(&Version::new(1, 0, 0)),
        "1.0.0/1.0.0.tgz"
    );
}

#[test]
fn repo_and_dst_hand_back_the_fields() {
    let table = tool_table();
    assert_eq!(table.repo(), "example/tool");
    assert_eq!(table.dst(), "tool");
}

#[test]
fn binaries_of_empty_config() {
    let config = Config { default: None, binary: None };
    assert_eq!(config.binaries().len(), 0);
}

#[test]
fn binaries_in_declaration_order() {
    let first = tool_table();
    let second = BinaryTable {
        repo: "example/other".to_string(),
        asset_download_filename: "other.zip".to_string(),
        src: "other".to_string(),
        dst: "other".to_string(),
    };
    let config = Config { default: None, binary: Some(vec![first, second]) };
    let listed = config.binaries();
    assert_eq!(listed.len(), 2);
    assert_eq!(listed[0].repo(), "example/tool");
    assert_eq!(listed[1].repo(), "example/other");
}
