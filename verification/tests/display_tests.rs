use dockerase::display::{counted, format_bytes, reclaim_summary, sized, usage_rows};
use dockerase::usage::DiskUsage;

#[test]
fn test_format_bytes_zero() {
    assert_eq!(format_bytes(0), "0 B");
}

#[test]
fn test_format_bytes_small() {
    let result = format_bytes(500);
    assert!(result.contains("500"));
    assert!(result.contains("B"));
}

#[test]
fn test_format_bytes_kilobytes() {
    let result = format_bytes(5_000);
    assert!(result.contains("KB"));
}

#[test]
fn test_format_bytes_megabytes() {
    let result = format_bytes(5_000_000);
    assert!(result.contains("MB"));
}

#[test]
fn test_format_bytes_gigabytes() {
    let result = format_bytes(5_000_000_000);
    assert!(result.contains("GB"));
}

#[test]
fn test_format_bytes_is_human_readable() {
    // Large numbers should not be displayed as raw bytes
    let result = format_bytes(1_000_000_000);
    assert!(!result.contains("1000000000"));
    assert!(result.contains("MB") || result.contains("GB"));
}

#[test]
fn counts_are_written_in_decimal() {
    assert_eq!(counted("", 0, ""), "0");
    assert_eq!(counted("", 9, ""), "9");
    assert_eq!(counted("", 10, ""), "10");
    assert_eq!(counted("<", 1_234_567_890, ">"), "<1234567890>");
    assert_eq!(counted("n=", usize::MAX, ""), format!("n={}", usize::MAX));
}

#[test]
fn sizes_are_written_by_format_bytes() {
    assert_eq!(sized("(", 0, ")"), "(0 B)");
    assert_eq!(sized("", 1_500_000, "!"), format!("{}!", format_bytes(1_500_000)));
}

#[test]
fn usage_table_has_one_row_for_each_category() {
    let usage = DiskUsage {
        images_size: 2_000_000_000,
        images_reclaimable: 500,
        images_count: 10,
        images_active: 4,
        containers_size: 999,
        containers_reclaimable: 0,
        containers_count: 1,
        containers_active: 3,
        volumes_size: 0,
        volumes_reclaimable: 0,
        volumes_count: 5,
        volumes_active: 5,
        build_cache_size: 12,
        build_cache_reclaimable: 7,
        build_cache_count: 99,
        build_cache_active: 0,
    };
    let rows = usage_rows(&usage);
    assert_eq!(rows.len(), 4);
    assert_eq!(rows[0].category, "Images");
    assert_eq!(rows[0].total, format_bytes(2_000_000_000));
    assert_eq!(rows[0].reclaimable, "500 B (6 unused)");
    assert_eq!(rows[1].category, "Containers");
    assert_eq!(rows[1].total, "999 B");
    assert_eq!(rows[1].reclaimable, "0 B (0 stopped)");
    assert_eq!(rows[2].category, "Volumes");
    assert_eq!(rows[2].total, "0 B");
    assert_eq!(rows[2].reclaimable, "0 B (0 unused)");
    assert_eq!(rows[3].category, "Build Cache");
    assert_eq!(rows[3].total, "12 B");
    assert_eq!(rows[3].reclaimable, "7 B");
}

#[test]
fn summary_lists_what_is_unused() {
    let usage = DiskUsage {
        images_count: 3,
        images_active: 1,
        images_reclaimable: 10,
        containers_count: 2,
        containers_active: 2,
        containers_reclaimable: 50,
        volumes_count: 1,
        volumes_active: 0,
        volumes_reclaimable: 0,
        build_cache_reclaimable: 40,
        ..Default::default()
    };
    assert_eq!(reclaim_summary(&usage), vec![
        "2 dangling images (10 B)",
        "1 unused volumes (0 B)",
        "Build cache (40 B)"
    ]);
    assert_eq!(reclaim_summary(&DiskUsage::default()), Vec::<String>::new());
}
