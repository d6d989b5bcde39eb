use dpl::config::{is_native_tld, normalize_tags, LocalConfig, DEFAULT_FPM_MAX_CHILDREN};
use dpl::xdebug::Settings;

#[test]
fn spellings_of_one_tag_collapse() {
    assert_eq!(normalize_tags(&["Client X", "client x", "client-x", "CLIENT_X"]), vec!["client-x"]);
}

#[test]
fn empties_and_stray_dashes_are_dropped() {
    assert_eq!(normalize_tags(&["  ", "", "-", "wip "]), vec!["wip"]);
    assert_eq!(normalize_tags(&["client   x"]), vec!["client-x"]);
    assert_eq!(normalize_tags(&["trailing-"]), vec!["trailing"]);
}

#[test]
fn results_are_sorted_so_display_is_stable() {
    assert_eq!(normalize_tags(&["wip", "archive", "client-x"]), vec!["archive", "client-x", "wip"]);
}

#[test]
fn localhost_is_native_in_any_case() {
    assert!(is_native_tld("localhost"));
    assert!(is_native_tld("LocalHost"));
    assert!(!is_native_tld("test"));
}

fn config(tlds: &[&str], resolution: Option<&str>, max: Option<u32>) -> LocalConfig {
    LocalConfig {
        tlds: tlds.iter().map(|t| t.to_string()).collect(),
        parked: vec![],
        links: vec![],
        proxies: vec![],
        default_php: None,
        resolution: resolution.map(|r| r.to_string()),
        default_xdebug: None,
        xdebug: Settings::default(),
        tags: vec![],
        fpm_max_children: max,
    }
}

#[test]
fn tlds_fall_back_to_test_and_the_first_is_primary() {
    let empty = config(&[], None, None);
    assert_eq!(empty.tlds(), vec!["test"]);
    assert_eq!(empty.primary_tld(), "test");
    let two = config(&["localhost", "test"], None, None);
    assert_eq!(two.tlds(), vec!["localhost", "test"]);
    assert_eq!(two.primary_tld(), "localhost");
    assert_eq!(two.tlds()[0], two.primary_tld());
}

#[test]
fn hosts_resolution_is_opt_in() {
    assert!(config(&[], Some("hosts"), None).uses_hosts());
    assert!(!config(&[], Some("resolver"), None).uses_hosts());
    assert!(!config(&[], None, None).uses_hosts());
}

#[test]
fn pools_always_get_at_least_one_worker() {
    assert_eq!(config(&[], None, None).fpm_max_children(), DEFAULT_FPM_MAX_CHILDREN);
    assert_eq!(config(&[], None, Some(0)).fpm_max_children(), 1);
    assert_eq!(config(&[], None, Some(12)).fpm_max_children(), 12);
}
