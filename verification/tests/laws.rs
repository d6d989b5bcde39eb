use dpl::config::{normalize_tags, remove_tags};
use dpl::config_store::ConfigStore;
use dpl::local::watch_word;
use dpl::node::Agent;
use dpl::sites::ProjectKind;
use dpl::xdebug::{check_port, mode_request, Mode};

#[test]
fn normalised_tags_normalise_to_themselves() {
    let once = normalize_tags(&["  Client A ", "wip__now", "-edge-", "Wip  Now", ""]);
    assert_eq!(once, vec!["client-a", "edge", "wip-now"]);
    let refs: Vec<&str> = once.iter().map(String::as_str).collect();
    assert_eq!(normalize_tags(&refs), once);
}

#[test]
fn parsed_modes_parse_back_to_themselves() {
    for raw in ["", "debug,develop", " Profile , trace,profile", "off"] {
        let m = Mode::parse(raw).unwrap();
        let again = Mode::parse(m.as_str()).unwrap();
        assert_eq!(again.as_str(), m.as_str());
    }
}

#[test]
fn host_keys_are_their_own_keys() {
    let k = ConfigStore::normalize_host(" HTTPS://Dply.Example/ ");
    assert_eq!(k, "https://dply.example");
    assert_eq!(ConfigStore::normalize_host(&k), k);
}

#[test]
fn parsing_the_normalised_name_gives_the_same_answer() {
    assert_eq!(Agent::parse(" PNPM "), Agent::parse("pnpm"));
    assert_eq!(Agent::parse("deno"), None);
    assert_eq!(ProjectKind::parse(" Static"), ProjectKind::parse("static"));
}

#[test]
fn xdebug_arguments_are_checked_before_the_daemon_is_asked() {
    assert!(check_port(9003).is_ok());
    assert_eq!(check_port(0), Err("port must be between 1 and 65535".to_string()));
    assert_eq!(mode_request("debug", Some("Blog")), Ok(("debug".to_string(), Some("blog".to_string()))));
    assert!(mode_request("bogus", None).unwrap_err().starts_with("unknown Xdebug mode `bogus`"));
}

#[test]
fn tags_rm_normalises_what_it_removes() {
    let current = vec!["client-a".to_string(), "wip".to_string(), "urgent".to_string()];
    assert_eq!(remove_tags(&current, &["Client A", "URGENT"]), vec!["wip".to_string()]);
}

#[test]
fn octane_watch_reads_its_word() {
    assert_eq!(watch_word(None), None);
    assert_eq!(watch_word(Some("ON")), Some(Ok(true)));
    assert_eq!(watch_word(Some("no")), Some(Ok(false)));
    assert_eq!(watch_word(Some("maybe")), Some(Err("say `on` or `off`, not `maybe`.".to_string())));
}
