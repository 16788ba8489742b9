use container_monitor::discovery::{config_stem, container_names_from_configs, service_name};
use container_monitor::text::{str_eq, str_leq};

fn strings(items: &[&str]) -> Vec<String> {
    items.iter().map(|s| String::from(*s)).collect()
}

#[test]
fn service_name_wraps_the_container_name() {
    assert_eq!(service_name("webapp"), "container@webapp.service");
    assert_eq!(service_name(""), "container@.service");
}

#[test]
fn config_stem_takes_everything_before_the_last_dot() {
    assert_eq!(config_stem("alpha.conf").as_deref(), Some("alpha"));
    assert_eq!(config_stem("a.b.conf").as_deref(), Some("a.b"));
    assert_eq!(config_stem(".conf").as_deref(), Some(""));
    assert_eq!(config_stem("trailing.").as_deref(), Some("trailing"));
}

#[test]
fn config_stem_rejects_names_without_a_dot() {
    assert_eq!(config_stem("README"), None);
    assert_eq!(config_stem(""), None);
}

#[test]
fn discovery_sorts_the_container_names() {
    let entries = strings(&["gamma.conf", "alpha.conf", "beta.conf"]);
    let names = container_names_from_configs(&entries).unwrap();
    assert_eq!(names, strings(&["alpha", "beta", "gamma"]));
}

#[test]
fn discovery_deduplicates_names() {
    let entries = strings(&["a.conf", "b.conf", "a.nix"]);
    let names = container_names_from_configs(&entries).unwrap();
    assert_eq!(names, strings(&["a", "b"]));
}

#[test]
fn discovery_of_no_entries_yields_no_names() {
    let entries: Vec<String> = Vec::new();
    let names = container_names_from_configs(&entries).unwrap();
    assert!(names.is_empty());
}

#[test]
fn discovery_rejects_the_first_malformed_entry() {
    let entries = strings(&["alpha.conf", "noext", "beta.conf", "alsobad"]);
    let err = container_names_from_configs(&entries).unwrap_err();
    assert_eq!(err.entry, "noext");
}

#[test]
fn string_comparisons_match_their_specifications() {
    assert!(str_eq("same", "same"));
    assert!(!str_eq("same", "sane"));
    assert!(!str_eq("short", "shorter"));
    assert!(str_leq("abc", "abd"));
    assert!(str_leq("abc", "abc"));
    assert!(str_leq("ab", "abc"));
    assert!(!str_leq("abd", "abc"));
    assert!(!str_leq("b", "azzz"));
}
