use tidymac::cleaner::{ScanEntry, ScanResult};
use tidymac::session::{AppPhase, BgMessage, CategoryState, Session};

fn entry(path: &str, size: u64) -> ScanEntry {
    ScanEntry { path: path.to_string(), size_bytes: size }
}

fn result_of(entries: Vec<ScanEntry>) -> ScanResult {
    let total = entries.iter().map(|e| e.size_bytes).sum();
    ScanResult { entries, total_bytes: total, errors: Vec::new() }
}

fn category(name: &str, report_only: bool) -> CategoryState {
    CategoryState::new(name.to_string(), name.to_string(), true, report_only)
}

fn three_category_session() -> Session {
    Session::new(vec![
        category("system-caches", false),
        category("trash", false),
        category("homebrew", false),
    ])
}

#[test]
fn scan_complete_aligns_selection_with_entries() {
    let mut s = three_category_session();
    assert!(s.begin_scan());
    let r = result_of(vec![entry("/t/a", 10), entry("/t/b", 20)]);
    s.apply_message(BgMessage::ScanComplete("trash".to_string(), r));
    let cat = &s.categories[1];
    let scanned = cat.scan_result.as_ref().unwrap();
    assert_eq!(scanned.entries.len(), 2);
    assert_eq!(cat.entry_selected.len(), 2);
    assert!(cat.entry_selected.iter().all(|&b| b));
    assert_eq!(s.progress_completed, 1);
}

#[test]
fn deleted_file_removes_entry_and_recomputes_total() {
    let mut s = three_category_session();
    assert!(s.begin_scan());
    let r = result_of(vec![entry("/t/a", 10), entry("/t/b", 20), entry("/t/c", 5)]);
    s.apply_message(BgMessage::ScanComplete("trash".to_string(), r));
    s.apply_message(BgMessage::AllScansComplete { smart_clean: false });
    s.apply_message(BgMessage::DeletedFile(
        "trash".to_string(),
        "/t/b".to_string(),
        20,
    ));
    let cat = &s.categories[1];
    let scanned = cat.scan_result.as_ref().unwrap();
    // entry and its selection slot removed at the same index
    assert_eq!(scanned.entries.len(), 2);
    assert_eq!(cat.entry_selected.len(), 2);
    // total is the fresh sum of what remains, never a stale value
    let expected: u64 = scanned.entries.iter().map(|e| e.size_bytes).sum();
    assert_eq!(scanned.total_bytes, expected);
    assert_eq!(scanned.total_bytes, 15);
    assert_eq!(s.cleaned_bytes, 20);
    assert_eq!(s.clean_report.len(), 1);
    assert_eq!(s.clean_report[0], "[trash] /t/b (20 B)");
}

#[test]
fn smart_clean_scans_only_the_safe_subset() {
    // Registered categories: system-caches, trash, homebrew. A smart
    // clean selects and scans only the safe pair; homebrew's result
    // stays absent.
    let mut s = three_category_session();
    assert!(s.begin_smart_scan());
    assert_eq!(s.phase, AppPhase::Scanning);
    assert!(s.categories[0].selected);
    assert!(s.categories[1].selected);
    assert!(!s.categories[2].selected);
    assert_eq!(s.progress_total, 2);
    // the embedding application runs only safe cleaners
    for name in ["system-caches", "trash", "homebrew"] {
        if tidymac::session::is_smart_safe(name) {
            let r = result_of(vec![entry("/x", 7)]);
            s.apply_message(BgMessage::ScanComplete(name.to_string(), r));
        }
    }
    s.apply_message(BgMessage::AllScansComplete { smart_clean: true });
    assert!(s.categories[0].scan_result.is_some());
    assert!(s.categories[1].scan_result.is_some());
    assert!(s.categories[2].scan_result.is_none());
    // items were found, so the confirmation gate opened by itself
    assert!(s.confirm_dialog.visible);
    assert!(!s.confirm_dialog.shred_mode);
    assert_eq!(s.confirm_dialog.total_bytes, 14);
    assert_eq!(s.confirm_dialog.file_count, 2);
}

#[test]
fn smart_clean_without_findings_opens_no_dialog() {
    let mut s = three_category_session();
    assert!(s.begin_smart_scan());
    s.apply_message(BgMessage::ScanComplete(
        "trash".to_string(),
        result_of(vec![]),
    ));
    s.apply_message(BgMessage::AllScansComplete { smart_clean: true });
    assert!(!s.confirm_dialog.visible);
    assert_eq!(s.phase, AppPhase::Idle);
}

#[test]
fn scans_are_not_reentrant() {
    let mut s = three_category_session();
    assert!(s.begin_scan());
    // a second scan while one runs is a no-op at the boundary
    assert!(!s.begin_scan());
    assert!(!s.begin_smart_scan());
    assert!(s.begin_clean().is_none());
    assert_eq!(s.phase, AppPhase::Scanning);
}

#[test]
fn clean_snapshot_covers_exactly_the_selection() {
    let mut s = three_category_session();
    assert!(s.begin_scan());
    let r = result_of(vec![entry("/t/a", 10), entry("/t/b", 20)]);
    s.apply_message(BgMessage::ScanComplete("trash".to_string(), r));
    s.apply_message(BgMessage::AllScansComplete { smart_clean: false });
    // deselect one entry and one whole category
    s.categories[1].entry_selected[0] = false;
    s.categories[0].selected = false;
    // deletion only starts once the confirmation gate is open
    assert!(s.begin_clean().is_none());
    s.show_confirm_dialog(false);
    let items = s.begin_clean().expect("confirmed idle session starts a clean");
    assert_eq!(items.len(), 1);
    assert_eq!(items[0].category_name, "trash");
    assert_eq!(items[0].path, "/t/b");
    assert_eq!(items[0].size_bytes, 20);
    assert_eq!(s.phase, AppPhase::Cleaning);
}

#[test]
fn report_only_categories_are_never_in_the_snapshot() {
    let mut s = Session::new(vec![
        category("trash", false),
        category("large-files", true),
    ]);
    assert!(s.begin_scan());
    s.apply_message(BgMessage::ScanComplete(
        "large-files".to_string(),
        result_of(vec![entry("/huge.iso", 5_000_000_000)]),
    ));
    s.apply_message(BgMessage::AllScansComplete { smart_clean: false });
    // the report-only category is selected, with entries selected,
    // and still contributes nothing to the destructive snapshot
    assert!(s.categories[1].selected);
    assert_eq!(s.categories[1].entry_selected.len(), 1);
    s.show_confirm_dialog(false);
    let items = s.begin_clean().expect("confirmed idle session starts a clean");
    assert!(items.is_empty());
}

#[test]
fn delete_errors_accumulate_without_stopping() {
    let mut s = three_category_session();
    assert!(s.begin_scan());
    s.apply_message(BgMessage::ScanComplete(
        "trash".to_string(),
        result_of(vec![entry("/t/a", 10)]),
    ));
    s.apply_message(BgMessage::AllScansComplete { smart_clean: false });
    s.apply_message(BgMessage::DeleteError(
        "trash".to_string(),
        "/t/a".to_string(),
        "permission denied".to_string(),
    ));
    assert_eq!(s.errors.len(), 1);
    assert_eq!(s.errors[0], "Failed to delete /t/a: permission denied");
    // the entry stays listed: only successes remove entries
    assert_eq!(s.categories[1].scan_result.as_ref().unwrap().entries.len(), 1);
    s.apply_message(BgMessage::AllCleansComplete);
    assert_eq!(s.phase, AppPhase::Idle);
}

#[test]
fn confirm_dialog_carries_exact_totals() {
    let mut s = three_category_session();
    assert!(s.begin_scan());
    s.apply_message(BgMessage::ScanComplete(
        "trash".to_string(),
        result_of(vec![entry("/t/a", 1024), entry("/t/b", 2048)]),
    ));
    s.apply_message(BgMessage::AllScansComplete { smart_clean: false });
    s.show_confirm_dialog(true);
    assert!(s.confirm_dialog.visible);
    assert!(s.confirm_dialog.shred_mode);
    assert_eq!(s.confirm_dialog.total_bytes, 3072);
    assert_eq!(s.confirm_dialog.file_count, 2);
    assert_eq!(s.confirm_dialog.category_names.len(), 1);
    assert_eq!(s.confirm_dialog.category_names[0], "trash (2 items, 3.00 KB)");
}

#[test]
fn category_selection_helpers() {
    let mut cat = category("trash", false);
    cat.scan_result = Some(result_of(vec![entry("/a", 5), entry("/b", 7)]));
    cat.entry_selected = vec![true, false];
    assert_eq!(cat.selected_bytes(), 5);
    assert_eq!(cat.selected_count(), 1);
    assert_eq!(cat.entry_count(), 2);
    cat.set_all_entries(false);
    assert_eq!(cat.selected_count(), 0);
    cat.sync_category_from_entries();
    assert!(!cat.selected);
}
