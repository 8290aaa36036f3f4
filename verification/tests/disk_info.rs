use tidymac::disk_info::DiskInfo;

#[test]
fn disk_figures_from_raw_statistics() {
    let d = DiskInfo::from_statvfs(1000, 250, 4096).expect("fits comfortably");
    assert_eq!(d.total, 4_096_000);
    assert_eq!(d.available, 1_024_000);
    assert_eq!(d.used, 3_072_000);
}

#[test]
fn disk_figures_reject_overflowing_products() {
    assert!(DiskInfo::from_statvfs(u64::MAX, 1, 4096).is_none());
}

#[test]
fn zero_fragment_size_gives_empty_figures() {
    let d = DiskInfo::from_statvfs(1000, 250, 0).expect("zero scale");
    assert_eq!(d.total, 0);
    assert_eq!(d.used, 0);
}
