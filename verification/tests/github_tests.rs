use ruder::github::{select_asset, Asset, Author, Release};
use ruder::version::{Version, VersionError};

fn asset(name: &str, download_url: &str) -> Asset {
    Asset {
        url: format!("https://api.example.com/assets/{}", name),
        name: name.to_string(),
        content_type: "application/octet-stream".to_string(),
        state: "uploaded".to_string(),
        size: 1024,
        created_at: "2020-01-01T00:00:00Z".to_string(),
        updated_at: "2020-01-01T00:00:00Z".to_string(),
        browser_download_url: download_url.to_string(),
    }
}

fn release(tag_name: &str, name: &str, assets: Vec<Asset>) -> Release {
    Release {
        tag_name: tag_name.to_string(),
        name: name.to_string(),
        assets,
        body: "notes".to_string(),
        author: Author { login: "someone".to_string() },
    }
}

#[test]
fn version_prefers_tag_name() {
    let r = release("v1.2.3", "release 9.9.9", Vec::new());
    assert_eq!(r.version(), Ok(Version::new(1, 2, 3)));
}

#[test]
fn version_falls_back_to_display_name() {
    let r = release("latest", "tool 4.5.6", Vec::new());
    assert_eq!(r.version(), Ok(Version::new(4, 5, 6)));
}

#[test]
fn version_absent_when_nothing_matches() {
    let r = release("latest", "nightly build", Vec::new());
    assert_eq!(r.version(), Err(VersionError::Absent));
}

#[test]
fn version_parse_error_is_reported() {
    let r = release("v01.2.3", "tool", Vec::new());
    assert_eq!(r.version(), Err(VersionError::Parse));
}

#[test]
fn download_filename_is_last_url_segment() {
    let a = asset(
        "tool-2.0.0-linux.tar.gz",
        "https://example.com/example/tool/releases/download/v2.0.0/tool-2.0.0-linux.tar.gz",
    );
    assert_eq!(a.download_filename(), Some("tool-2.0.0-linux.tar.gz".to_string()));
}

#[test]
fn download_filename_none_without_segments() {
    let a = asset("odd", "mailto:someone@example.com");
    assert_eq!(a.download_filename(), None);
}

#[test]
fn select_asset_picks_exact_match() {
    let assets = vec![
        asset("a", "https://example.com/dl/tool-2.0.0-windows.zip"),
        asset("b", "https://example.com/dl/tool-2.0.0-linux.tar.gz"),
    ];
    assert_eq!(select_asset(&assets, "tool-2.0.0-linux.tar.gz"), Some(1));
}

#[test]
fn select_asset_none_without_match() {
    let assets = vec![asset("a", "https://example.com/dl/tool-1.0.0-linux.tar.gz")];
    assert_eq!(select_asset(&assets, "tool-2.0.0-linux.tar.gz"), None);
}

#[test]
fn select_asset_skips_unparseable_urls() {
    let assets = vec![
        asset("odd", "mailto:someone@example.com"),
        asset("good", "https://example.com/dl/tool-2.0.0-linux.tar.gz"),
    ];
    assert_eq!(select_asset(&assets, "tool-2.0.0-linux.tar.gz"), Some(1));
}
