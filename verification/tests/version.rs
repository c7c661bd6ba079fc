use mev_boost::version::Version;

const CARGO_PKG_VERSION: &str = "0.3.0";

fn version() -> Version {
    Version::new(
        CARGO_PKG_VERSION,
        "",
        "f6e511eec7342f59a25f7c0534f1dbea00d01b14",
        "2024-10-25T05:46:13.173948000Z",
        "aarch64-apple-darwin",
        "1.82.0",
        "boost,build,default,mev_boost_rs,mev_build_rs,mev_relay_rs,relay,reth",
    )
    .unwrap()
}

#[test]
fn test_long_version_information() {
    let long_version_info = version().long_version();
    assert!(long_version_info.contains("Version:"));
    assert!(long_version_info.contains("Commit:"));
    assert!(long_version_info.contains("Features:"));
    assert!(long_version_info.contains("Built:"));
    assert!(long_version_info.contains("Target:"));
}

#[test]
fn test_short_version_information() {
    let short_version_info = version().short_version();
    assert!(short_version_info.contains(CARGO_PKG_VERSION));
    assert!(short_version_info.contains("("));
    assert!(short_version_info.contains(")"));
}

#[test]
fn short_version_is_exact() {
    assert_eq!(version().short_version(), "v0.3.0 (f6e511ee)");
}

#[test]
fn short_version_of_a_development_build() {
    let version = Version::new("0.3.0", "-dev", "0123456789abcdef", "", "", "", "").unwrap();
    assert_eq!(version.short_version(), "v0.3.0-dev (01234567)");
}

#[test]
fn long_version_is_exact() {
    let expected = "Version:     0.3.0\n\
Commit:      f6e511eec7342f59a25f7c0534f1dbea00d01b14\n\
Built:       2024-10-25T05:46:13.173948000Z\n\
Target:      aarch64-apple-darwin\n\
Rustc:       1.82.0\n\
Features:    boost,build,default,mev_boost_rs,mev_build_rs,mev_relay_rs,relay,reth";
    assert_eq!(version().long_version(), expected);
}

#[test]
fn version_needs_a_commit_hash_of_eight_characters() {
    assert!(Version::new("0.3.0", "", "unknown", "", "", "", "").is_none());
    assert!(Version::new("0.3.0", "", "", "", "", "", "").is_none());
    assert!(Version::new("0.3.0", "", "1234567", "", "", "", "").is_none());
    let version = Version::new("0.3.0", "", "12345678", "", "", "", "").unwrap();
    assert_eq!(version.short_version(), "v0.3.0 (12345678)");
}

#[test]
fn short_version_counts_characters() {
    let version = Version::new("1", "", "\u{e9}\u{e9}\u{e9}\u{e9}abcdefgh", "", "", "", "").unwrap();
    assert_eq!(version.short_version(), "v1 (\u{e9}\u{e9}\u{e9}\u{e9}abcd)");
    assert!(Version::new("1", "", "\u{e9}\u{e9}\u{e9}\u{e9}abc", "", "", "", "").is_none());
}
