use tidymac::analyzer::{analyze_bundle, classify_component, BundleFile, BundlePart};

fn file(component: Option<&str>, size: u64) -> BundleFile {
    BundleFile {
        size,
        contents_component: component.map(|c| c.to_string()),
    }
}

#[test]
fn components_classify_by_location() {
    assert_eq!(classify_component("MacOS"), BundlePart::Binary);
    assert_eq!(classify_component("Resources"), BundlePart::Resources);
    assert_eq!(classify_component("Frameworks"), BundlePart::Frameworks);
    assert_eq!(classify_component("PlugIns"), BundlePart::Plugins);
    assert_eq!(classify_component("XPCServices"), BundlePart::Plugins);
    assert_eq!(classify_component("Info.plist"), BundlePart::Other);
}

#[test]
fn bundle_breakdown_totals_each_bucket() {
    let files = vec![
        file(Some("MacOS"), 100),
        file(Some("Resources"), 200),
        file(Some("Resources"), 50),
        file(Some("Frameworks"), 300),
        file(Some("PlugIns"), 25),
        file(Some("Info.plist"), 7),
        file(None, 18), // outside Contents entirely
    ];
    let info = analyze_bundle("Example".to_string(), "/Applications/Example.app".to_string(), &files);
    assert_eq!(info.name, "Example");
    assert_eq!(info.total_size, 700);
    assert_eq!(info.binary_size, 100);
    assert_eq!(info.resources_size, 250);
    assert_eq!(info.frameworks_size, 300);
    assert_eq!(info.plugins_size, 25);
    // the remainder: the plist and the file outside Contents
    assert_eq!(info.other_size, 25);
}

#[test]
fn empty_bundle_is_all_zero() {
    let info = analyze_bundle("E".to_string(), "/Applications/E.app".to_string(), &vec![]);
    assert_eq!(info.total_size, 0);
    assert_eq!(info.other_size, 0);
}
