use dpl::helper::{
    pf_anchor, resolver_file, sudoers_content, sync_hosts_text, synced_hosts_message, valid_hostname, valid_port,
    valid_tld, valid_user, HOSTS_BEGIN, HOSTS_END,
};

#[test]
fn tlds_ports_hostnames_and_users_are_validated() {
    assert!(valid_tld("test").is_ok());
    assert!(valid_tld("my-tld2").is_ok());
    assert_eq!(valid_tld("").unwrap_err(), "invalid tld: ");
    assert_eq!(valid_tld("te.st").unwrap_err(), "invalid tld: te.st");
    assert_eq!(valid_port("5333"), Ok(5333));
    assert_eq!(valid_port("+80"), Ok(80));
    assert_eq!(valid_port("65536").unwrap_err(), "invalid port: 65536");
    assert!(valid_port("-1").is_err());
    assert!(valid_hostname("blog.test").is_ok());
    assert!(valid_hostname(".test").is_err());
    assert!(valid_hostname("-a.test").is_err());
    assert!(valid_hostname("a b.test").is_err());
    assert_eq!(valid_hostname("").unwrap_err(), "invalid hostname: ");
    assert!(valid_hostname(&"a".repeat(253)).is_ok());
    assert!(valid_hostname(&"a".repeat(254)).is_err());
    assert!(valid_user("jane.doe_1").is_ok());
    assert!(valid_user(&"u".repeat(33)).is_err());
    assert_eq!(valid_user("root;").unwrap_err(), "invalid user: root;");
}

#[test]
fn hosts_block_maps_exactly_the_given_hosts() {
    let current = format!("127.0.0.1 localhost\n\n{HOSTS_BEGIN}\n127.0.0.1\told.test\n{HOSTS_END}\n# mine\n\n\n");
    let hosts = vec!["a.test".to_string(), "b.test".to_string()];
    let out = sync_hosts_text(&current, &hosts);
    assert_eq!(
        out,
        format!("127.0.0.1 localhost\n\n# mine\n{HOSTS_BEGIN}\n127.0.0.1\ta.test\n127.0.0.1\tb.test\n{HOSTS_END}\n")
    );
    // Running it again changes nothing.
    assert_eq!(sync_hosts_text(&out, &hosts), out);
}

#[test]
fn an_empty_list_clears_the_block() {
    let current = format!("::1 localhost\n  {HOSTS_BEGIN}  \n127.0.0.1\tx.test\n{HOSTS_END}\n");
    assert_eq!(sync_hosts_text(&current, &[]), "::1 localhost\n");
    assert_eq!(sync_hosts_text("", &[]), "\n");
}

#[test]
fn helper_files_and_messages() {
    assert_eq!(synced_hosts_message(1), "Synced 1 host entry to /etc/hosts.");
    assert_eq!(synced_hosts_message(3), "Synced 3 host entries to /etc/hosts.");
    assert_eq!(resolver_file(5333), "nameserver 127.0.0.1\nport 5333\n");
    assert_eq!(
        pf_anchor(8080, 8443),
        "rdr pass inet proto tcp from any to any port 80 -> 127.0.0.1 port 8080\n\
         rdr pass inet proto tcp from any to any port 443 -> 127.0.0.1 port 8443\n"
    );
}

#[test]
fn the_sudoers_rule_allows_only_hosts_operations() {
    assert_eq!(
        sudoers_content("jane", "/usr/local/bin/dpl-helper", true).unwrap(),
        "# Installed by dpl \u{2014} lets dpl keep /etc/hosts in sync without a password.\n\
         jane ALL=(root) NOPASSWD: /usr/local/bin/dpl-helper sync-hosts *, /usr/local/bin/dpl-helper clear-hosts\n"
    );
    assert_eq!(sudoers_content("bad user", "/h", true).unwrap_err(), "invalid user: bad user");
    assert_eq!(
        sudoers_content("jane", "rel/helper", true).unwrap_err(),
        "helper path must be an absolute existing file: rel/helper"
    );
    assert!(sudoers_content("jane", "/missing", false).is_err());
    assert_eq!(
        sudoers_content("jane", "/a b/helper", true).unwrap_err(),
        "helper path contains disallowed characters"
    );
}
