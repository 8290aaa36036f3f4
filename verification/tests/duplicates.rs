use tidymac::duplicates::{detect_duplicates, partial_candidates, size_candidates, FileMeta,
    MIN_SIZE};
use tidymac::hashing::hash_bytes;

fn meta(path: &str, size: u64) -> FileMeta {
    FileMeta { path: path.to_string(), size }
}

fn digest(content: &[u8]) -> Option<Vec<u8>> {
    Some(hash_bytes(content))
}

#[test]
fn basic_dedup_reports_second_copy() {
    // Two files of identical size and identical content, discovered in
    // this order: exactly the later one is reported.
    let files = vec![meta("/a/1.bin", 2_097_152), meta("/b/2.bin", 2_097_152)];
    let content = vec![0xABu8; 4096];
    let partials = vec![digest(&content), digest(&content)];
    let fulls = vec![digest(&content), digest(&content)];
    let result = detect_duplicates(&files, &partials, &fulls);
    assert_eq!(result.entries.len(), 1);
    assert_eq!(result.entries[0].path, "/b/2.bin");
    assert_eq!(result.entries[0].size_bytes, 2_097_152);
    assert_eq!(result.total_bytes, 2_097_152);
    assert!(result.errors.is_empty());
}

#[test]
fn size_mismatch_yields_nothing() {
    // Different sizes are separated by the size pass alone: no
    // hashing candidates, no duplicates.
    let files = vec![meta("/a/1.bin", 2_097_152), meta("/b/2.bin", 3_145_728)];
    let c = vec![1u8, 2, 3];
    let partials = vec![digest(&c), digest(&c)];
    let fulls = vec![digest(&c), digest(&c)];
    assert!(size_candidates(&files).is_empty());
    let result = detect_duplicates(&files, &partials, &fulls);
    assert_eq!(result.entries.len(), 0);
    assert_eq!(result.total_bytes, 0);
}

#[test]
fn partial_collision_corrected_by_full_hash() {
    // Identical leading bytes but different full content: the full
    // pass rejects the pair.
    let files = vec![meta("/a/x", 5_000_000), meta("/b/y", 5_000_000)];
    let lead = vec![7u8; 64];
    let full_a = vec![7u8; 65];
    let full_b = vec![8u8; 65];
    let partials = vec![digest(&lead), digest(&lead)];
    let fulls = vec![digest(&full_a), digest(&full_b)];
    // both were worth a full hash,
    assert_eq!(partial_candidates(&files, &partials), vec![0, 1]);
    // but the full digests settle it
    let result = detect_duplicates(&files, &partials, &fulls);
    assert_eq!(result.entries.len(), 0);
}

#[test]
fn small_files_excluded_by_size_floor() {
    let files = vec![meta("/a/s", MIN_SIZE - 1), meta("/b/s", MIN_SIZE - 1)];
    let c = vec![9u8; 10];
    let partials = vec![digest(&c), digest(&c)];
    let fulls = vec![digest(&c), digest(&c)];
    assert!(size_candidates(&files).is_empty());
    let result = detect_duplicates(&files, &partials, &fulls);
    assert_eq!(result.entries.len(), 0);
}

#[test]
fn first_discovered_copy_is_kept() {
    // Three identical files: the first survives, the other two are
    // reported.
    let files = vec![
        meta("/one", 2_000_000),
        meta("/two", 2_000_000),
        meta("/three", 2_000_000),
    ];
    let c = vec![5u8; 100];
    let partials = vec![digest(&c), digest(&c), digest(&c)];
    let fulls = vec![digest(&c), digest(&c), digest(&c)];
    let result = detect_duplicates(&files, &partials, &fulls);
    let paths: Vec<&str> = result.entries.iter().map(|e| e.path.as_str()).collect();
    assert_eq!(result.entries.len(), 2);
    assert!(paths.contains(&"/two"));
    assert!(paths.contains(&"/three"));
    assert!(!paths.contains(&"/one"));
    assert_eq!(result.total_bytes, 4_000_000);
}

#[test]
fn unreadable_files_never_match() {
    // A missing digest silently drops a file from its group.
    let files = vec![meta("/a", 2_000_000), meta("/b", 2_000_000)];
    let c = vec![1u8; 8];
    let partials = vec![digest(&c), None];
    let fulls = vec![digest(&c), None];
    let result = detect_duplicates(&files, &partials, &fulls);
    assert_eq!(result.entries.len(), 0);
}

#[test]
fn size_candidates_select_only_partnered_sizes() {
    let files = vec![
        meta("/a", 5_000_000),
        meta("/b", 5_000_000),
        meta("/c", 7_000_000),
        meta("/d", 600_000_000), // above the ceiling
        meta("/e", 600_000_000),
    ];
    assert_eq!(size_candidates(&files), vec![0, 1]);
}

#[test]
fn report_is_sorted_by_size_descending() {
    let small = vec![3u8; 16];
    let big = vec![4u8; 16];
    let files = vec![
        meta("/s1", 2_000_000),
        meta("/s2", 2_000_000),
        meta("/b1", 9_000_000),
        meta("/b2", 9_000_000),
    ];
    let partials = vec![digest(&small), digest(&small), digest(&big), digest(&big)];
    let fulls = vec![digest(&small), digest(&small), digest(&big), digest(&big)];
    let result = detect_duplicates(&files, &partials, &fulls);
    assert_eq!(result.entries.len(), 2);
    assert_eq!(result.entries[0].path, "/b2");
    assert_eq!(result.entries[1].path, "/s2");
    assert_eq!(result.total_bytes, 11_000_000);
}
