use dockerase::size::{parse_reclaimable, parse_size};

#[test]
fn test_parse_size_zero() {
    assert_eq!(parse_size("0"), 0);
    assert_eq!(parse_size("0B"), 0);
    assert_eq!(parse_size(""), 0);
}

#[test]
fn test_parse_size_bytes() {
    assert_eq!(parse_size("100B"), 100);
    assert_eq!(parse_size("1B"), 1);
}

#[test]
fn test_parse_size_kilobytes() {
    assert_eq!(parse_size("1kB"), 1_000);
    assert_eq!(parse_size("1KB"), 1_000);
    assert_eq!(parse_size("1.5kB"), 1_500);
}

#[test]
fn test_parse_size_megabytes() {
    assert_eq!(parse_size("1MB"), 1_000_000);
    assert_eq!(parse_size("1.5MB"), 1_500_000);
    assert_eq!(parse_size("100MB"), 100_000_000);
}

#[test]
fn test_parse_size_gigabytes() {
    assert_eq!(parse_size("1GB"), 1_000_000_000);
    assert_eq!(parse_size("1.5GB"), 1_500_000_000);
    assert_eq!(parse_size("12.5GB"), 12_500_000_000);
}

#[test]
fn test_parse_size_with_whitespace() {
    assert_eq!(parse_size("  1GB  "), 1_000_000_000);
    assert_eq!(parse_size(" 100MB "), 100_000_000);
}

#[test]
fn test_parse_reclaimable_simple() {
    assert_eq!(parse_reclaimable("1GB"), 1_000_000_000);
    assert_eq!(parse_reclaimable("500MB"), 500_000_000);
}

#[test]
fn test_parse_reclaimable_with_percentage() {
    assert_eq!(parse_reclaimable("1.2GB (50%)"), 1_200_000_000);
    assert_eq!(parse_reclaimable("500MB (100%)"), 500_000_000);
}

#[test]
fn parse_size_agrees_with_its_parts() {
    assert_eq!(parse_reclaimable("1.2GB (50%)"), parse_size("1.2GB"));
    assert_eq!(parse_size("1.2GB"), 1_200_000_000);
}

#[test]
fn parse_size_without_unit_counts_bytes() {
    assert_eq!(parse_size("42"), 42);
    assert_eq!(parse_size("7.0"), 7);
}

#[test]
fn parse_size_rounds_to_whole_bytes() {
    assert_eq!(parse_size("1.4B"), 1);
    assert_eq!(parse_size("1.5B"), 2);
    assert_eq!(parse_size("0.0004kB"), 0);
    assert_eq!(parse_size("0.0005kB"), 1);
    assert_eq!(parse_size("0.29kB"), 290);
    assert_eq!(parse_size("1.0000000015GB"), 1_000_000_002);
}

#[test]
fn parse_size_space_between_number_and_unit() {
    assert_eq!(parse_size("1.5 GB"), 1_500_000_000);
    assert_eq!(parse_size("\t20 kB\n"), 20_000);
}

#[test]
fn parse_size_unreadable_number_is_zero() {
    assert_eq!(parse_size("abc"), 0);
    assert_eq!(parse_size("GB"), 0);
    assert_eq!(parse_size("B"), 0);
    assert_eq!(parse_size("1,5GB"), 0);
    assert_eq!(parse_size("1.2.3MB"), 0);
    assert_eq!(parse_size(".MB"), 0);
    assert_eq!(parse_size("1e"), 0);
    assert_eq!(parse_size("1e+"), 0);
    assert_eq!(parse_size("12xMB"), 0);
    assert_eq!(parse_size("1gb"), 0);
    assert_eq!(parse_size("+"), 0);
}

#[test]
fn parse_size_lowercase_b_is_no_unit() {
    assert_eq!(parse_size("1kb"), 0);
    assert_eq!(parse_size("1mB"), 0);
}

#[test]
fn parse_size_signs_points_and_exponents() {
    assert_eq!(parse_size("+3MB"), 3_000_000);
    assert_eq!(parse_size("-3MB"), 0);
    assert_eq!(parse_size(".5kB"), 500);
    assert_eq!(parse_size("5.kB"), 5_000);
    assert_eq!(parse_size("1e3"), 1_000);
    assert_eq!(parse_size("1.5E2B"), 150);
    assert_eq!(parse_size("25e-1kB"), 2_500);
    assert_eq!(parse_size("1e-3GB"), 1_000_000);
    assert_eq!(parse_size("0e99999999999999999999999999999999999999GB"), 0);
    assert_eq!(parse_size("1e-99999999999999999999999999999999999999GB"), 0);
}

#[test]
fn parse_size_holds_at_the_largest_count() {
    assert_eq!(parse_size("18446744073709551615"), u64::MAX);
    assert_eq!(parse_size("18446744073709551616"), u64::MAX);
    assert_eq!(parse_size("18446744073709551614.5"), u64::MAX);
    assert_eq!(parse_size("18446744073709551614.4"), 18_446_744_073_709_551_614);
    assert_eq!(parse_size("99999999999999999999999999GB"), u64::MAX);
    assert_eq!(parse_size("1e99999999999999999999999999999999999999"), u64::MAX);
    assert_eq!(parse_size("18446744073.709551615GB"), u64::MAX);
    assert_eq!(parse_size("18446744073.709551614GB"), 18_446_744_073_709_551_614);
}

#[test]
fn parse_size_long_fractions() {
    assert_eq!(parse_size("0.000000000000000000000000000000000000001GB"), 0);
    assert_eq!(parse_size("00000000000000000000000000000000000000001.50kB"), 1_500);
    assert_eq!(parse_size("3.99999999999999999999999999999B"), 4);
}

#[test]
fn parse_reclaimable_drops_the_annotation() {
    assert_eq!(parse_reclaimable("0B (0%)"), 0);
    assert_eq!(parse_reclaimable("(50%)"), 0);
    assert_eq!(parse_reclaimable("2kB(1%) 5GB"), 2_000);
    assert_eq!(parse_reclaimable("  7MB  (3%)"), 7_000_000);
    assert_eq!(parse_reclaimable(""), 0);
}
