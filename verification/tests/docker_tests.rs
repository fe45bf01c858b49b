use dockerase::docker::{record_usage, record_usage_line, usage_kind, Docker};
use dockerase::resources::{Container, Image, Network, Volume};
use dockerase::text::lines_with_content;
use dockerase::usage::{DiskUsage, UsageKind};

fn container(id: &str, state: &str) -> Container {
    Container {
        id: id.to_string(),
        names: "name".to_string(),
        image: "alpine".to_string(),
        state: state.to_string(),
        status: "Up".to_string(),
        size: "0B".to_string(),
    }
}

fn image(id: &str) -> Image {
    Image {
        id: id.to_string(),
        repository: "repo".to_string(),
        tag: "latest".to_string(),
        size: "1MB".to_string(),
        created_at: String::new(),
    }
}

fn volume(name: &str) -> Volume {
    Volume { name: name.to_string(), driver: "local".to_string(), mountpoint: String::new() }
}

fn network(id: &str, name: &str) -> Network {
    Network {
        id: id.to_string(),
        name: name.to_string(),
        driver: "bridge".to_string(),
        scope: "local".to_string(),
    }
}

#[test]
fn prune_commands_are_fixed() {
    assert_eq!(Docker::prune_containers(), vec!["container", "prune", "-f"]);
    assert_eq!(Docker::prune_images(true), vec!["image", "prune", "-af"]);
    assert_eq!(Docker::prune_images(false), vec!["image", "prune", "-f"]);
    assert_eq!(Docker::prune_volumes(), vec!["volume", "prune", "-f"]);
    assert_eq!(Docker::prune_networks(), vec!["network", "prune", "-f"]);
    assert_eq!(Docker::prune_build_cache(true), vec!["builder", "prune", "-af"]);
    assert_eq!(Docker::prune_build_cache(false), vec!["builder", "prune", "-f"]);
}

#[test]
fn listing_commands_are_fixed() {
    assert_eq!(Docker::probe(), vec!["version"]);
    assert_eq!(Docker::get_disk_usage(), vec!["system", "df", "--format", "{{json .}}"]);
    assert_eq!(Docker::list_images(), vec!["images", "--format", "{{json .}}"]);
    assert_eq!(Docker::list_containers(false), vec!["ps", "--format", "{{json .}}"]);
    assert_eq!(Docker::list_containers(true), vec!["ps", "-a", "--format", "{{json .}}"]);
    assert_eq!(Docker::list_volumes(), vec!["volume", "ls", "--format", "{{json .}}"]);
    assert_eq!(Docker::list_networks(), vec!["network", "ls", "--format", "{{json .}}"]);
}

#[test]
fn removal_commands_name_what_was_listed() {
    let containers = vec![container("c1", "running"), container("c2", "exited")];
    assert_eq!(Docker::stop_all_containers(&containers), Some(vec![
        "stop".to_string(),
        "c1".to_string(),
        "c2".to_string()
    ]));
    assert_eq!(Docker::remove_all_containers(&containers), Some(vec![
        "rm".to_string(),
        "-f".to_string(),
        "c1".to_string(),
        "c2".to_string()
    ]));
    let images = vec![image("i1"), image("i2"), image("i3")];
    assert_eq!(Docker::remove_all_images(&images), Some(vec![
        "rmi".to_string(),
        "-f".to_string(),
        "i1".to_string(),
        "i2".to_string(),
        "i3".to_string()
    ]));
    let volumes = vec![volume("data")];
    assert_eq!(Docker::remove_all_volumes(&volumes), Some(vec![
        "volume".to_string(),
        "rm".to_string(),
        "-f".to_string(),
        "data".to_string()
    ]));
}

#[test]
fn nothing_listed_nothing_sent() {
    assert_eq!(Docker::stop_all_containers(&Vec::new()), None);
    assert_eq!(Docker::remove_all_containers(&Vec::new()), None);
    assert_eq!(Docker::remove_all_images(&Vec::new()), None);
    assert_eq!(Docker::remove_all_volumes(&Vec::new()), None);
    assert_eq!(Docker::remove_custom_networks(&Vec::new()), None);
}

#[test]
fn default_networks_are_never_removed() {
    let networks = vec![
        network("n1", "bridge"),
        network("n2", "mine"),
        network("n3", "host"),
        network("n4", "none"),
        network("n5", "other"),
    ];
    assert_eq!(Docker::remove_custom_networks(&networks), Some(vec![
        "network".to_string(),
        "rm".to_string(),
        "n2".to_string(),
        "n5".to_string()
    ]));
    let own = vec![network("n1", "bridge"), network("n3", "host"), network("n4", "none")];
    assert_eq!(Docker::remove_custom_networks(&own), None);
}

#[test]
fn availability_follows_the_probe() {
    assert!(Docker::is_available(Some(true)));
    assert!(!Docker::is_available(Some(false)));
    assert!(!Docker::is_available(None));
}

#[test]
fn command_outcome_by_success_and_complaint() {
    assert_eq!(
        Docker::run_command(true, "out".to_string(), "warn".to_string()),
        Ok("out".to_string())
    );
    assert_eq!(Docker::run_command(false, "out".to_string(), String::new()), Ok(String::new()));
    assert_eq!(
        Docker::run_command(false, "out".to_string(), "boom".to_string()),
        Err("boom".to_string())
    );
}

#[test]
fn usage_kinds_by_name() {
    assert_eq!(usage_kind("Images"), Some(UsageKind::Images));
    assert_eq!(usage_kind("Containers"), Some(UsageKind::Containers));
    assert_eq!(usage_kind("Local Volumes"), Some(UsageKind::Volumes));
    assert_eq!(usage_kind("Build Cache"), Some(UsageKind::BuildCache));
    assert_eq!(usage_kind("Volumes"), None);
    assert_eq!(usage_kind("images"), None);
    assert_eq!(usage_kind(""), None);
}

#[test]
fn a_report_replaces_its_category_only() {
    let mut usage = DiskUsage::default();
    record_usage(&mut usage, "Images", "1.5GB", "1.2GB (80%)", 7, 2);
    assert_eq!(usage.images_size, 1_500_000_000);
    assert_eq!(usage.images_reclaimable, 1_200_000_000);
    assert_eq!(usage.images_count, 7);
    assert_eq!(usage.images_active, 2);
    assert_eq!(usage.containers_size, 0);
    record_usage(&mut usage, "Nonsense", "9GB", "9GB", 9, 9);
    assert_eq!(usage.total_size(), 1_500_000_000);
    record_usage(&mut usage, "Images", "1kB", "0B", 1, 1);
    assert_eq!(usage.images_size, 1_000);
    assert_eq!(usage.images_reclaimable, 0);
    assert_eq!(usage.images_count, 1);
}

#[test]
fn usage_is_read_from_the_reply() {
    let reply = concat_lines(&[
        "{\"Type\":\"Images\",\"TotalCount\":12,\"Active\":3,\"Size\":\"4.2GB\",\"Reclaimable\":\"3.1GB (73%)\"}",
        "",
        "{\"Type\":\"Containers\",\"TotalCount\":4,\"Active\":1,\"Size\":\"120MB\",\"Reclaimable\":\"100MB (83%)\"}",
        "   ",
        "not json at all",
        "{\"Type\":\"Local Volumes\",\"TotalCount\":2,\"Active\":2,\"Size\":\"0B\",\"Reclaimable\":\"0B\"}",
        "{\"Type\":\"Build Cache\",\"TotalCount\":30,\"Active\":0,\"Size\":\"1.5kB\",\"Reclaimable\":\"1.5kB\"}",
        "{\"Type\":\"Something Else\",\"TotalCount\":30,\"Active\":0,\"Size\":\"9GB\",\"Reclaimable\":\"9GB\"}",
    ]);
    let usage = Docker::read_disk_usage(&reply);
    assert_eq!(usage.images_size, 4_200_000_000);
    assert_eq!(usage.images_reclaimable, 3_100_000_000);
    assert_eq!(usage.images_count, 12);
    assert_eq!(usage.images_active, 3);
    assert_eq!(usage.containers_size, 120_000_000);
    assert_eq!(usage.containers_reclaimable, 100_000_000);
    assert_eq!(usage.containers_count, 4);
    assert_eq!(usage.containers_active, 1);
    assert_eq!(usage.volumes_size, 0);
    assert_eq!(usage.volumes_count, 2);
    assert_eq!(usage.volumes_active, 2);
    assert_eq!(usage.build_cache_size, 1_500);
    assert_eq!(usage.build_cache_reclaimable, 1_500);
    assert_eq!(usage.build_cache_count, 30);
    assert_eq!(usage.total_size(), 4_320_001_500);
}

fn concat_lines(lines: &[&str]) -> String {
    let mut text = String::new();
    for line in lines {
        text.push_str(line);
        text.push('\n');
    }
    text
}

#[test]
fn a_category_that_was_not_reported_stays_zero() {
    let usage = Docker::read_disk_usage("{\"Type\":\"Images\",\"Size\":\"1MB\"}\n");
    assert_eq!(usage.images_size, 1_000_000);
    assert_eq!(usage.images_reclaimable, 0);
    assert_eq!(usage.images_count, 0);
    assert_eq!(usage.containers_size, 0);
    assert_eq!(usage.volumes_size, 0);
    assert_eq!(usage.build_cache_size, 0);
    let nothing = Docker::read_disk_usage("");
    assert_eq!(nothing.total_size(), 0);
    assert_eq!(nothing.total_reclaimable(), 0);
}

#[test]
fn members_of_another_type_count_as_missing() {
    let mut usage = DiskUsage::default();
    record_usage_line(
        &mut usage,
        "{\"Type\":\"Images\",\"Size\":5,\"Reclaimable\":null,\"TotalCount\":\"3\",\"Active\":1.5}",
    );
    assert_eq!(usage.images_size, 0);
    assert_eq!(usage.images_reclaimable, 0);
    assert_eq!(usage.images_count, 0);
    assert_eq!(usage.images_active, 0);
    record_usage_line(&mut usage, "{\"Type\":7,\"Size\":\"1GB\"}");
    record_usage_line(&mut usage, "[1,2,3]");
    record_usage_line(&mut usage, "\"Images\"");
    record_usage_line(&mut usage, "{\"Type\":\"Images\",\"Size\":\"1GB\"");
    assert_eq!(usage.total_size(), 0);
    record_usage_line(&mut usage, "  {\"Type\":\"Images\",\"Size\":\"2GB\",\"TotalCount\":4}  ");
    assert_eq!(usage.images_size, 2_000_000_000);
    assert_eq!(usage.images_count, 4);
}

#[test]
fn lines_are_split_and_blank_ones_dropped() {
    assert_eq!(lines_with_content("a\nb\r\n\n  \nc"), vec!["a", "b", "c"]);
    assert_eq!(lines_with_content(""), Vec::<String>::new());
    assert_eq!(lines_with_content("\n\n"), Vec::<String>::new());
    assert_eq!(lines_with_content(" x \n"), vec![" x "]);
    assert_eq!(lines_with_content("a\rb\n"), vec!["a\rb"]);
    assert_eq!(lines_with_content("último\nβ"), vec!["último", "β"]);
}
