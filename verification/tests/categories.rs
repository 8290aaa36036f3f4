use tidymac::categories::{all_cleaner_names, all_cleaners, ds_store_should_skip_dir,
    empty_folders_should_skip, find_cleaner, has_valid_extension, is_ds_store_name,
    is_excluded_cache_subdir,
    is_effectively_empty, is_protected, is_screenshot, large_files_should_skip_dir,
    resolve_cleaners, BrokenSymlinks, BrowserCaches, CleanerKind, DsStore, LanguageFiles,
    LargeFiles, OldFiles, PackageManagerCaches, PrivacyCleaner, Screenshots, SystemCaches,
    Trash};
use tidymac::cleaner::{build_scan_result, ScanEntry};
use tidymac::cli::{build_report, grand_total, SummaryRow};

fn entry(path: &str, size: u64) -> ScanEntry {
    ScanEntry { path: path.to_string(), size_bytes: size }
}

#[test]
fn registry_lists_twelve_cleaners() {
    let names = all_cleaner_names();
    assert_eq!(
        names,
        vec![
            "system-caches",
            "app-logs",
            "browser-caches",
            "xcode",
            "xcode-device-support",
            "xcode-archives",
            "core-simulator",
            "homebrew",
            "package-managers",
            "trash",
            "ds-store",
            "large-files",
        ]
    );
    let cleaners = all_cleaners(104_857_600, None);
    assert_eq!(cleaners.len(), 12);
    for (spec, name) in cleaners.iter().zip(names.iter()) {
        assert_eq!(&spec.name(), name);
    }
    // exactly one cleaner is report-only
    let report_only: Vec<_> = cleaners.iter().filter(|c| c.is_report_only()).collect();
    assert_eq!(report_only.len(), 1);
    assert_eq!(report_only[0].name(), "large-files");
}

#[test]
fn find_and_resolve_cleaners() {
    let found = find_cleaner("trash", 1, None).expect("trash is registered");
    assert_eq!(found.name(), "trash");
    assert_eq!(found.label(), "Trash");
    assert!(find_cleaner("no-such-category", 1, None).is_none());
    assert_eq!(resolve_cleaners(None, 1, None).len(), 12);
    assert_eq!(resolve_cleaners(Some("homebrew"), 1, None).len(), 1);
    assert!(resolve_cleaners(Some("unknown"), 1, None).is_empty());
    let with_path = find_cleaner("ds-store", 1, Some("/tmp/scan")).unwrap();
    assert_eq!(with_path.root.as_deref(), Some("/tmp/scan"));
}

#[test]
fn report_only_clean_is_exactly_the_scan() {
    let spec = find_cleaner("large-files", 1, None).unwrap();
    let scan = build_scan_result(vec![entry("/big.iso", 900), entry("/huge.mkv", 4000)], vec![]);
    let outcomes: Vec<Option<String>> = Vec::new();
    let cleaned = spec.clean_outcome(scan, false, &outcomes);
    assert_eq!(cleaned.entries.len(), 2);
    assert_eq!(cleaned.entries[0].path, "/huge.mkv");
    assert_eq!(cleaned.entries[1].path, "/big.iso");
    assert_eq!(cleaned.total_bytes, 4900);
}

#[test]
fn dry_run_clean_is_exactly_the_scan() {
    let spec = find_cleaner("trash", 1, None).unwrap();
    let scan = build_scan_result(vec![entry("/t/a", 10)], vec![]);
    let outcomes: Vec<Option<String>> = Vec::new();
    let cleaned = spec.clean_outcome(scan, true, &outcomes);
    assert_eq!(cleaned.entries.len(), 1);
    assert_eq!(cleaned.total_bytes, 10);
}

#[test]
fn clean_outcomes_keep_survivors_and_collect_failures() {
    let spec = find_cleaner("trash", 1, None).unwrap();
    let scan = build_scan_result(
        vec![entry("/t/a", 7), entry("/t/b", 5), entry("/t/c", 3)],
        vec![],
    );
    // sorted: a(7), b(5), c(3); b fails to delete
    let outcomes = vec![None, Some("locked".to_string()), None];
    let cleaned = spec.clean_outcome(scan, false, &outcomes);
    let paths: Vec<&str> = cleaned.entries.iter().map(|e| e.path.as_str()).collect();
    assert_eq!(paths, vec!["/t/a", "/t/c"]);
    // the total is recomputed from the surviving subset
    assert_eq!(cleaned.total_bytes, 10);
    assert_eq!(cleaned.errors, vec!["Failed to remove /t/b: locked".to_string()]);
}

#[test]
fn build_scan_result_sorts_and_totals() {
    let r = build_scan_result(
        vec![entry("/small", 1), entry("/big", 100), entry("/mid", 10)],
        vec!["a warning".to_string()],
    );
    let sizes: Vec<u64> = r.entries.iter().map(|e| e.size_bytes).collect();
    assert_eq!(sizes, vec![100, 10, 1]);
    assert_eq!(r.total_bytes, 111);
    assert_eq!(r.errors, vec!["a warning".to_string()]);
    assert!(r.is_well_formed());
}

#[test]
fn walk_skip_predicates() {
    assert!(ds_store_should_skip_dir("node_modules"));
    assert!(ds_store_should_skip_dir(".git"));
    assert!(!ds_store_should_skip_dir("Documents"));
    assert!(large_files_should_skip_dir("Photos.photoslibrary"));
    assert!(large_files_should_skip_dir("Thing.APP"));
    assert!(!large_files_should_skip_dir("projects"));
    assert!(empty_folders_should_skip(".hidden"));
    assert!(empty_folders_should_skip("node_modules"));
    assert!(!empty_folders_should_skip("Caches"));
}

#[test]
fn screenshot_predicates() {
    assert!(is_screenshot("Screenshot 2024-01-01 at 09.00.00"));
    assert!(is_screenshot("Screen Recording 2024-01-01"));
    assert!(!is_screenshot("photo.png"));
    assert!(has_valid_extension("shot.png"));
    assert!(has_valid_extension("SHOT.PNG"));
    assert!(has_valid_extension("clip.MOV"));
    assert!(!has_valid_extension("notes.txt"));
    // 31 days old qualifies; 29 does not
    let now = 100 * 86_400;
    assert!(Screenshots::is_older_than_max_age(now - 31 * 86_400, now));
    assert!(!Screenshots::is_older_than_max_age(now - 29 * 86_400, now));
}

#[test]
fn old_file_staleness() {
    let now = 400u64 * 86_400;
    let old_enough = now - 200 * 86_400;
    let recent = now - 10 * 86_400;
    assert!(OldFiles::is_stale(20_000_000, old_enough, now));
    assert!(!OldFiles::is_stale(20_000_000, recent, now));
    assert!(!OldFiles::is_stale(1_000_000, old_enough, now)); // too small
    let dirs = OldFiles::scan_dirs("/Users/sam");
    assert_eq!(dirs[0], "/Users/sam/Downloads");
}

#[test]
fn empty_folder_decisions() {
    assert!(is_effectively_empty(&vec![]));
    assert!(is_effectively_empty(&vec![".DS_Store".to_string()]));
    assert!(!is_effectively_empty(&vec![".DS_Store".to_string(), "real.txt".to_string()]));
    assert!(is_protected("/Users/sam/Documents", "/Users/sam"));
    assert!(is_protected("/Users/sam/Library", "/Users/sam"));
    assert!(!is_protected("/Users/sam/Documents/sub", "/Users/sam"));
}

#[test]
fn ds_store_configuration() {
    assert!(is_ds_store_name(".DS_Store"));
    assert!(!is_ds_store_name("DS_Store"));
    let default_root = DsStore::new(None);
    assert_eq!(default_root.scan_root("/Users/sam"), "/Users/sam");
    let custom = DsStore::new(Some("/tmp/x"));
    assert_eq!(custom.scan_root("/Users/sam"), "/tmp/x");
}

#[test]
fn large_files_configuration() {
    let lf = LargeFiles::new(104_857_600, None);
    assert!(lf.qualifies(104_857_600));
    assert!(!lf.qualifies(104_857_599));
    assert_eq!(lf.scan_root("/Users/sam"), "/Users/sam");
}

#[test]
fn language_bundle_decisions() {
    let keep = vec!["en".to_string(), "de".to_string(), "pt_BR".to_string()];
    // always-kept bundles stay
    assert!(!LanguageFiles::should_remove_lproj("en.lproj", &keep));
    assert!(!LanguageFiles::should_remove_lproj("Base.lproj", &keep));
    // kept languages stay, by full code or base language
    assert!(!LanguageFiles::should_remove_lproj("de.lproj", &keep));
    assert!(!LanguageFiles::should_remove_lproj("pt_BR.lproj", &keep));
    assert!(!LanguageFiles::should_remove_lproj("de_AT.lproj", &keep));
    // others go
    assert!(LanguageFiles::should_remove_lproj("ja.lproj", &keep));
    assert!(LanguageFiles::should_remove_lproj("fr_CA.lproj", &keep));
}

#[test]
fn category_path_builders() {
    let home = "/Users/sam";
    assert_eq!(SystemCaches::cache_dir(home), "/Users/sam/Library/Caches");
    assert_eq!(Trash::trash_dir(home), "/Users/sam/.Trash");
    let pm = PackageManagerCaches::cache_dirs(home);
    assert_eq!(pm.len(), 4);
    assert_eq!(pm[0], "/Users/sam/.npm/_cacache");
    let safari = BrowserCaches::safari_cache_dirs(home);
    assert_eq!(safari, vec!["/Users/sam/Library/Caches/com.apple.Safari".to_string()]);
    let chrome = BrowserCaches::chrome_profile_cache_dirs("/p/Default");
    assert_eq!(chrome, vec!["/p/Default/Cache".to_string(), "/p/Default/Code Cache".to_string()]);
    let privacy = PrivacyCleaner::safari_privacy_files(home);
    assert_eq!(privacy.len(), 11);
    assert_eq!(privacy[0], "/Users/sam/Library/Safari/History.db");
    assert_eq!(PrivacyCleaner::system_privacy_files(home).len(), 2);
    assert_eq!(BrokenSymlinks::walk_depth("/usr/local/bin"), 1);
    assert_eq!(BrokenSymlinks::walk_depth("/Users/sam/Library"), 5);
    assert!(BrokenSymlinks::is_broken_link(true, false));
    assert!(!BrokenSymlinks::is_broken_link(true, true));
    assert!(!BrokenSymlinks::is_broken_link(false, false));
}

#[test]
fn system_cache_exclusions() {
    assert!(is_excluded_cache_subdir("Homebrew"));
    assert!(is_excluded_cache_subdir("com.apple.Safari"));
    assert!(!is_excluded_cache_subdir("com.example.app"));
}

#[test]
fn summary_totals_skip_report_only_rows() {
    let rows = vec![
        SummaryRow { name: "trash".to_string(), total_bytes: 100, report_only: false },
        SummaryRow { name: "large-files".to_string(), total_bytes: 900, report_only: true },
        SummaryRow { name: "homebrew".to_string(), total_bytes: 23, report_only: false },
    ];
    assert_eq!(grand_total(&rows), 123);
}

#[test]
fn report_text_is_exact() {
    let lines = vec!["[trash] /t/a (10 B)".to_string()];
    let text = build_report(&lines, 10);
    assert_eq!(
        text,
        "=== TidyMac Cleaning Report ===\n\nTotal freed: 10 B\nFiles cleaned: 1\n\n--- Details ---\n\n[trash] /t/a (10 B)\n"
    );
}

#[test]
fn cleaner_kinds_are_distinct() {
    assert_ne!(CleanerKind::Trash, CleanerKind::DsStore);
    assert_eq!(CleanerKind::Trash, CleanerKind::Trash);
}
