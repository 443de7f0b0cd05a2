use deepdash::versions::{
    lookup_value, parsed_next_version, sort_newest_first, DshVersionService, RegistryMetadata,
};

fn strings(items: &[&str]) -> Vec<String> {
    items.iter().map(|s| s.to_string()).collect()
}

fn metadata(latest: Option<&str>, versions: &[&str]) -> RegistryMetadata {
    RegistryMetadata {
        dist_tags: latest.map(|l| vec![("latest".to_string(), l.to_string())]).unwrap_or_default(),
        versions: strings(versions),
        time: vec![("1.2.0".to_string(), "2024-01-01T00:00:00Z".to_string())],
    }
}

#[test]
fn lists_newer_and_six_older_versions() {
    let md = metadata(
        Some("1.2.0"),
        &["1.0.0", "1.1.0", "2.0.0-beta.1", "0.9.0", "garbage", "1.2.0", "0.1.0", "0.2.0", "0.3.0", "0.4.0", "0.5.0"],
    );
    let listed = DshVersionService.list(md, Some("0.1.0".to_string()));
    let shown: Vec<&str> = listed.iter().map(|v| v.version.as_str()).collect();
    assert_eq!(shown, ["2.0.0-beta.1", "1.2.0", "1.1.0", "1.0.0", "0.9.0", "0.5.0", "0.4.0", "0.1.0"]);
    assert_eq!(listed[0].tags, ["next"]);
    assert!(listed[0].prerelease && !listed[0].stable);
    assert_eq!(listed[1].tags, ["latest"]);
    assert_eq!(listed[1].published_at.as_deref(), Some("2024-01-01T00:00:00Z"));
    assert!(!listed[1].prerelease && listed[1].stable);
    assert_eq!(listed[7].tags, ["当前"]);
    assert!(listed[7].current && listed[7].installed);
    assert!(!listed[2].current && listed[2].tags.is_empty());
    assert_eq!(listed[2].published_at, None);
}

#[test]
fn lists_eighty_versions_without_latest() {
    let raw: Vec<String> = (0..85).map(|i| format!("0.0.{i}")).collect();
    let refs: Vec<&str> = raw.iter().map(|s| s.as_str()).collect();
    let listed = DshVersionService.list(metadata(Some("not-a-version"), &refs), None);
    assert_eq!(listed.len(), 80);
    assert_eq!(listed[0].version, "0.0.84");
    assert_eq!(listed[79].version, "0.0.5");
    let listed = DshVersionService.list(metadata(None, &refs), Some("0.0.1".to_string()));
    assert_eq!(listed.len(), 81);
    assert_eq!(listed[80].version, "0.0.1");
    assert_eq!(listed[80].tags, ["当前"]);
}

#[test]
fn tags_one_version_with_every_role() {
    let listed = DshVersionService.list(metadata(Some("1.0.0"), &["1.0.0"]), Some("1.0.0".to_string()));
    assert_eq!(listed.len(), 1);
    assert_eq!(listed[0].tags, ["当前", "latest"]);
    let listed = DshVersionService.list(metadata(None, &["1.0.0"]), None);
    assert_eq!(listed[0].tags, ["next"]);
}

#[test]
fn finds_the_next_version() {
    let versions = strings(&["1.0.0", "3.0.0-rc.1", "2.0.0", "bogus", "2.5.0"]);
    assert_eq!(parsed_next_version(&versions, Some(&"2.0.0".to_string())).as_deref(), Some("3.0.0-rc.1"));
    assert_eq!(parsed_next_version(&versions, None).as_deref(), Some("3.0.0-rc.1"));
    assert_eq!(parsed_next_version(&versions, Some(&"4.0.0".to_string())), None);
    assert_eq!(parsed_next_version(&strings(&[]), None), None);
}

#[test]
fn sorts_by_semantic_version() {
    let sorted = sort_newest_first(strings(&["1.0.0-alpha", "1.0.0", "0.10.0", "0.9.0", "1.0.0-alpha.1", "10.0.0"]));
    assert_eq!(sorted, ["10.0.0", "1.0.0", "1.0.0-alpha.1", "1.0.0-alpha", "0.10.0", "0.9.0"]);
}

#[test]
fn looks_up_entries() {
    let pairs = vec![("a".to_string(), "1".to_string()), ("b".to_string(), "2".to_string())];
    assert_eq!(lookup_value(&pairs, "b").as_deref(), Some("2"));
    assert_eq!(lookup_value(&pairs, "c"), None);
}

#[test]
fn lists_each_version_once() {
    let md = metadata(Some("1.0.0"), &["0.9.0", "1.0.0", "1.1.0-rc.1", "0.8.0"]);
    let listed = DshVersionService.list(md, Some("1.1.0-rc.1".to_string()));
    let shown: Vec<&str> = listed.iter().map(|v| v.version.as_str()).collect();
    assert_eq!(shown, ["1.1.0-rc.1", "1.0.0", "0.9.0", "0.8.0"]);
    assert_eq!(listed[0].tags, ["当前", "next"]);
    let mut unique = shown.clone();
    unique.dedup();
    assert_eq!(unique.len(), shown.len());
}

#[test]
fn every_listed_version_is_at_least_as_new_as_every_later_one() {
    let md = metadata(Some("1.0.0"), &["0.1.0", "1.0.0", "0.3.0-beta", "0.3.0", "0.2.9", "2.0.0"]);
    let listed = DshVersionService.list(md, None);
    let shown: Vec<semver::Version> =
        listed.iter().map(|v| semver::Version::parse(&v.version).unwrap()).collect();
    for i in 0..shown.len() {
        for j in i + 1..shown.len() {
            assert!(shown[i] >= shown[j]);
        }
    }
}
