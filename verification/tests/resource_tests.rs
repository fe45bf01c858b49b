use dockerase::resources::{Container, Network};
use dockerase::usage::{space_freed, unused_count, CategoryUsage, DiskUsage, UsageKind};

fn make_container(state: &str) -> Container {
    Container {
        id: "abc123".to_string(),
        names: "test".to_string(),
        image: "alpine".to_string(),
        state: state.to_string(),
        status: "Up 1 hour".to_string(),
        size: "0B".to_string(),
    }
}

fn make_network(name: &str) -> Network {
    Network {
        id: "net123".to_string(),
        name: name.to_string(),
        driver: "bridge".to_string(),
        scope: "local".to_string(),
    }
}

#[test]
fn test_container_is_running() {
    let running = make_container("running");
    let exited = make_container("exited");
    let created = make_container("created");

    assert!(running.is_running());
    assert!(!exited.is_running());
    assert!(!created.is_running());
}

#[test]
fn container_state_is_compared_letter_for_letter() {
    assert!(!make_container("Running").is_running());
    assert!(!make_container("running ").is_running());
    assert!(!make_container("").is_running());
}

#[test]
fn test_network_is_default() {
    assert!(make_network("bridge").is_default());
    assert!(make_network("host").is_default());
    assert!(make_network("none").is_default());
    assert!(!make_network("my-network").is_default());
    assert!(!make_network("custom_net").is_default());
}

#[test]
fn test_disk_usage_total_size() {
    let usage = DiskUsage {
        images_size: 1_000_000_000,
        containers_size: 500_000_000,
        volumes_size: 250_000_000,
        build_cache_size: 100_000_000,
        ..Default::default()
    };

    assert_eq!(usage.total_size(), 1_850_000_000);
}

#[test]
fn test_disk_usage_total_reclaimable() {
    let usage = DiskUsage {
        images_reclaimable: 800_000_000,
        containers_reclaimable: 400_000_000,
        volumes_reclaimable: 200_000_000,
        build_cache_reclaimable: 100_000_000,
        ..Default::default()
    };

    assert_eq!(usage.total_reclaimable(), 1_500_000_000);
}

#[test]
fn test_disk_usage_default() {
    let usage = DiskUsage::default();

    assert_eq!(usage.total_size(), 0);
    assert_eq!(usage.total_reclaimable(), 0);
}

#[test]
fn reclaimable_stays_within_total_for_consistent_usage() {
    let usage = DiskUsage {
        images_size: 900,
        images_reclaimable: 900,
        containers_size: 10,
        containers_reclaimable: 0,
        volumes_size: 77,
        volumes_reclaimable: 76,
        build_cache_size: 5,
        build_cache_reclaimable: 5,
        ..Default::default()
    };
    assert!(usage.is_consistent());
    assert!(usage.total_reclaimable() <= usage.total_size());
    assert_eq!(usage.total_reclaimable(), 981);
    assert_eq!(usage.total_size(), 992);
}

#[test]
fn inconsistent_usage_is_told_apart() {
    let usage = DiskUsage { images_size: 0, images_reclaimable: 5, ..Default::default() };
    assert!(!usage.is_consistent());
    let counts = DiskUsage { volumes_count: 1, volumes_active: 2, ..Default::default() };
    assert!(!counts.is_consistent());
}

#[test]
fn unused_count_never_goes_below_zero() {
    assert_eq!(unused_count(10, 3), 7);
    assert_eq!(unused_count(3, 3), 0);
    assert_eq!(unused_count(3, 10), 0);
    assert_eq!(unused_count(0, usize::MAX), 0);
    assert_eq!(unused_count(usize::MAX, 0), usize::MAX);
    let figures =
        CategoryUsage { total_size: 0, reclaimable_size: 0, total_count: 2, active_count: 5 };
    assert_eq!(figures.unused_count(), 0);
}

#[test]
fn space_freed_clamps_to_zero() {
    assert_eq!(space_freed(1_000, 400), 600);
    assert_eq!(space_freed(400, 1_000), 0);
    assert_eq!(space_freed(5, 5), 0);
    assert_eq!(space_freed(u64::MAX, 0), u64::MAX);
    assert_eq!(space_freed(0, u64::MAX), 0);
}

#[test]
fn categories_are_read_and_replaced_one_by_one() {
    let mut usage = DiskUsage::default();
    let figures = CategoryUsage {
        total_size: 40,
        reclaimable_size: 30,
        total_count: 4,
        active_count: 1,
    };
    usage.set_category(UsageKind::Volumes, figures);
    assert_eq!(usage.category(UsageKind::Volumes), figures);
    assert_eq!(usage.volumes_size, 40);
    assert_eq!(usage.volumes_reclaimable, 30);
    assert_eq!(usage.volumes_count, 4);
    assert_eq!(usage.volumes_active, 1);
    assert_eq!(usage.images_size, 0);
    assert_eq!(usage.category(UsageKind::Images).total_count, 0);
    usage.set_category(UsageKind::BuildCache, figures);
    usage.set_category(UsageKind::Images, figures);
    usage.set_category(UsageKind::Containers, figures);
    assert_eq!(usage.total_size(), 160);
    assert_eq!(usage.total_reclaimable(), 120);
}
