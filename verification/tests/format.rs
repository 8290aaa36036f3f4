use tidymac::format::{display_path, format_size, parse_min_size, parse_size, trim_str};
use tidymac::strings::u64_to_string;

#[test]
fn format_size_exact_values() {
    assert_eq!(format_size(0), "0 B");
    assert_eq!(format_size(512), "512 B");
    assert_eq!(format_size(1023), "1023 B");
    assert_eq!(format_size(1024), "1.00 KB");
    assert_eq!(format_size(1536), "1.50 KB");
    assert_eq!(format_size(1_048_576), "1.00 MB");
    assert_eq!(format_size(2_097_152), "2.00 MB");
    assert_eq!(format_size(1_073_741_824), "1.00 GB");
    assert_eq!(format_size(1_610_612_736), "1.50 GB");
}

#[test]
fn parse_size_accepts_units_in_both_cases() {
    assert_eq!(parse_size("100MB"), Ok(104_857_600));
    assert_eq!(parse_size("100mb"), Ok(104_857_600));
    assert_eq!(parse_size("1GB"), Ok(1_073_741_824));
    assert_eq!(parse_size("2kb"), Ok(2048));
    assert_eq!(parse_size("100B"), Ok(100));
    assert_eq!(parse_size("512"), Ok(512));
}

#[test]
fn parse_size_handles_fractions_and_spacing() {
    assert_eq!(parse_size("1.5KB"), Ok(1536));
    assert_eq!(parse_size("  2 kb "), Ok(2048));
    assert_eq!(parse_size("0.5MB"), Ok(524_288));
    assert_eq!(parse_size(".5KB"), Ok(512));
}

#[test]
fn parse_size_rejects_bad_input() {
    assert_eq!(parse_size("abc"), Err("Invalid number: 'abc'".to_string()));
    assert_eq!(parse_size(""), Err("Invalid number: ''".to_string()));
    assert_eq!(parse_size("12x34MB"), Err("Invalid number: '12x34'".to_string()));
    assert_eq!(
        parse_size("-5MB"),
        Err("Size cannot be negative".to_string())
    );
}

#[test]
fn parse_size_saturates_at_the_limit() {
    assert_eq!(parse_size("18446744073709551615"), Ok(u64::MAX));
    assert_eq!(parse_size("99999999999999999999GB"), Ok(u64::MAX));
    assert_eq!(parse_size("18446744073709551616"), Ok(u64::MAX));
}

#[test]
fn parse_min_size_falls_back_to_default() {
    assert_eq!(parse_min_size("1GB"), 1_073_741_824);
    assert_eq!(parse_min_size("bogus"), 104_857_600);
}

#[test]
fn display_path_shortens_the_home_prefix() {
    assert_eq!(
        display_path("/Users/sam/Documents/x.txt", "/Users/sam"),
        "~/Documents/x.txt"
    );
    assert_eq!(display_path("/Users/sam", "/Users/sam"), "~/");
    assert_eq!(display_path("/tmp/other", "/Users/sam"), "/tmp/other");
    // a sibling with the home directory as a string prefix is not
    // inside the home directory
    assert_eq!(display_path("/Users/samantha/x", "/Users/sam"), "/Users/samantha/x");
}

#[test]
fn decimal_rendering_and_trimming() {
    assert_eq!(u64_to_string(0), "0");
    assert_eq!(u64_to_string(42), "42");
    assert_eq!(u64_to_string(18_446_744_073_709_551_615), "18446744073709551615");
    assert_eq!(trim_str("  padded\t"), "padded");
    assert_eq!(trim_str(""), "");
    assert_eq!(trim_str("   "), "");
}
