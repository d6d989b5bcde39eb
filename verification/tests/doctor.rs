use dpl::checks::{Check, Checks, Report, Status};
use dpl::config::LocalConfig;
use dpl::doctor::{
    check_system_files, check_system_head, doctor_report, ConfigState,
    ca_fingerprint, command_output, coverage_driver, fingerprint_trusted,
    check_daemon, check_jetty, check_networking, check_php, check_services, check_sites, check_tls, check_tooling,
    count_site_certs, coverage_binary, dns_answer, dns_query, jetty_candidates, site_cert, soonest_expiry,
    NetworkFacts,
};
use dpl::ipc::{ServiceInfo, SiteInfo};
use dpl::php::PhpVersion;
use dpl::xdebug::Settings;

fn ids(c: &Checks) -> Vec<String> {
    c.0.iter().map(|k| k.id.clone()).collect()
}

fn find<'a>(c: &'a Checks, id: &str) -> &'a Check {
    c.0.iter().find(|k| k.id == id).unwrap()
}

fn config(tlds: &[&str], resolution: Option<&str>) -> LocalConfig {
    LocalConfig {
        tlds: tlds.iter().map(|t| t.to_string()).collect(),
        parked: vec![],
        links: vec![],
        proxies: vec![],
        default_php: None,
        resolution: resolution.map(|r| r.to_string()),
        default_xdebug: None,
        xdebug: Settings::default(),
        tags: vec![],
        fpm_max_children: None,
    }
}

fn facts() -> NetworkFacts {
    NetworkFacts {
        http_port: Some(80),
        macos: false,
        port_80_server: None,
        port_443_held: false,
        launch_daemon: false,
        pf_anchor: false,
        hosts_text: String::new(),
        sudoers: false,
        resolver_files: vec![],
        dns_answer: Some([127, 0, 0, 1]),
        mail_listening: true,
        dumps_listening: false,
    }
}

#[test]
fn daemon_down_is_one_failure_with_a_start_fix() {
    let mut c = Checks(vec![]);
    check_daemon(&mut c, false, None, "1.0.0", None, None, true);
    assert_eq!(c.0.len(), 1);
    let k = &c.0[0];
    assert_eq!(k.id, "daemon.running");
    assert_eq!(k.status, Status::Fail);
    assert_eq!(k.fix.as_ref().unwrap().command, "dpl start");
}

#[test]
fn daemon_version_mismatch_warns_and_offers_restart() {
    let mut c = Checks(vec![]);
    check_daemon(&mut c, true, Some("0.9.0"), "1.0.0", Some(3700), Some("/h/.dpl/run/dpld.sock"), false);
    assert_eq!(
        ids(&c),
        vec!["daemon.running", "daemon.version", "daemon.uptime", "daemon.socket", "daemon.autostart"]
    );
    let v = find(&c, "daemon.version");
    assert_eq!(v.status, Status::Warn);
    assert_eq!(v.detail, "dpl 1.0.0, dpld 0.9.0");
    assert_eq!(v.fix.as_ref().unwrap().command, "dpl restart");
    assert_eq!(find(&c, "daemon.uptime").detail, "1h 1m");
    assert_eq!(find(&c, "daemon.autostart").status, Status::Warn);

    let mut same = Checks(vec![]);
    check_daemon(&mut same, true, Some("1.0.0"), "1.0.0", None, None, true);
    assert_eq!(ids(&same), vec!["daemon.running", "daemon.version", "daemon.autostart"]);
    assert_eq!(find(&same, "daemon.version").detail, "dpl and dpld both 1.0.0");
    assert_eq!(find(&same, "daemon.autostart").status, Status::Pass);
}

#[test]
fn networking_with_the_daemon_down_is_one_failure() {
    let mut c = Checks(vec![]);
    let mut f = facts();
    f.http_port = None;
    check_networking(&mut c, &f, &config(&[], None));
    assert_eq!(ids(&c), vec!["net.proxy"]);
    assert_eq!(c.0[0].status, Status::Fail);
}

#[test]
fn networking_in_resolver_mode_checks_each_tld() {
    let mut c = Checks(vec![]);
    let mut f = facts();
    f.resolver_files = vec!["/etc/resolver/test".to_string()];
    check_networking(&mut c, &f, &config(&["test", "localhost", "dev"], None));
    assert_eq!(
        ids(&c),
        vec![
            "net.proxy",
            "net.resolution",
            "net.resolver.test",
            "net.resolver.localhost",
            "net.resolver.dev",
            "net.dns",
            "net.mail",
            "net.dumps"
        ]
    );
    assert_eq!(find(&c, "net.proxy").detail, "listening on port 80");
    assert_eq!(find(&c, "net.resolver.test").status, Status::Pass);
    assert_eq!(find(&c, "net.resolver.localhost").status, Status::Pass);
    let dev = find(&c, "net.resolver.dev");
    assert_eq!(dev.status, Status::Fail);
    assert_eq!(dev.detail, "/etc/resolver/dev missing");
    assert_eq!(find(&c, "net.dns").detail, "*.test \u{2192} 127.0.0.1 (:5333)");
    assert_eq!(find(&c, "net.mail").status, Status::Pass);
    assert_eq!(find(&c, "net.dumps").status, Status::Warn);
    assert_eq!(find(&c, "net.dumps").detail, "not listening on :9912");
}

#[test]
fn networking_in_hosts_mode_and_a_foreign_port_80() {
    let mut c = Checks(vec![]);
    let mut f = facts();
    f.http_port = Some(8080);
    f.port_80_server = Some("httpd (Apache)".to_string());
    f.port_443_held = true;
    f.hosts_text = "127.0.0.1 localhost\n# >>> dpl managed\n".to_string();
    f.dns_answer = Some([10, 0, 0, 2]);
    check_networking(&mut c, &f, &config(&[], Some("hosts")));
    assert_eq!(
        ids(&c),
        vec![
            "net.proxy",
            "net.port_80",
            "net.port_443",
            "net.resolution",
            "net.hosts",
            "net.sudoers",
            "net.dns",
            "net.mail",
            "net.dumps"
        ]
    );
    let p80 = find(&c, "net.port_80");
    assert_eq!(p80.status, Status::Fail);
    assert_eq!(p80.detail, "held by httpd (Apache)");
    assert_eq!(find(&c, "net.port_443").detail, "also held by httpd (Apache)");
    assert_eq!(find(&c, "net.hosts").status, Status::Pass);
    assert_eq!(find(&c, "net.sudoers").status, Status::Warn);
    assert_eq!(find(&c, "net.dns").detail, "answered 10.0.0.2, expected 127.0.0.1");
}

#[test]
fn macos_port_handover_is_reported() {
    let mut c = Checks(vec![]);
    let mut f = facts();
    f.macos = true;
    f.http_port = Some(8080);
    f.launch_daemon = true;
    f.pf_anchor = true;
    check_networking(&mut c, &f, &config(&["localhost"], None));
    let p = find(&c, "net.privports");
    assert_eq!(p.status, Status::Warn);
    assert_eq!(p.detail, "LaunchDaemon installed, but dpld is on :8080");
    assert_eq!(find(&c, "net.pf_legacy").status, Status::Warn);
    assert!(!ids(&c).contains(&"net.port_80".to_string()));
}

#[test]
fn tls_reports_the_ca_and_the_soonest_expiry() {
    let mut c = Checks(vec![]);
    check_tls(&mut c, "/h/.dpl/ca/ca.pem", false, None, 0, None);
    assert_eq!(ids(&c), vec!["tls.ca"]);
    assert_eq!(c.0[0].detail, "missing at /h/.dpl/ca/ca.pem");

    let mut c = Checks(vec![]);
    check_tls(&mut c, "/h/ca.pem", true, Some(false), 3, Some(("shop.test", -2)));
    assert_eq!(ids(&c), vec!["tls.ca", "tls.trust", "tls.certs", "tls.expiry"]);
    assert_eq!(find(&c, "tls.trust").fix.as_ref().unwrap().command, "sudo dpl trust");
    assert!(find(&c, "tls.trust").fix.as_ref().unwrap().sudo);
    assert_eq!(find(&c, "tls.certs").detail, "3 issued");
    let e = find(&c, "tls.expiry");
    assert_eq!(e.status, Status::Fail);
    assert_eq!(e.detail, "shop.test expired 2 day(s) ago");

    let mut c = Checks(vec![]);
    check_tls(&mut c, "/h/ca.pem", true, Some(true), 1, Some(("a.test", 10)));
    assert_eq!(find(&c, "tls.expiry").status, Status::Warn);
    assert_eq!(find(&c, "tls.expiry").detail, "a.test expires in 10 day(s)");
    let mut c = Checks(vec![]);
    check_tls(&mut c, "/h/ca.pem", true, None, 1, Some(("a.test", 90)));
    assert_eq!(find(&c, "tls.expiry").status, Status::Pass);
    assert_eq!(find(&c, "tls.trust").status, Status::Info);
}

#[test]
fn site_certificates_are_counted_and_the_soonest_is_found() {
    assert!(site_cert("shop.test.pem"));
    assert!(site_cert("shop.test.crt"));
    assert!(!site_cert("ca.pem"));
    assert!(!site_cert("notes.txt"));
    let names: Vec<String> =
        vec!["a.test.pem", "a.test-key.pem", "ca.pem", "b.test.pem"].into_iter().map(String::from).collect();
    assert_eq!(count_site_certs(&names), 3);
    let certs = vec![("a".to_string(), 30i64), ("b".to_string(), 5), ("c".to_string(), 5)];
    assert_eq!(soonest_expiry(&certs), Some(("b".to_string(), 5)));
    assert_eq!(soonest_expiry(&[]), None);
}

fn service(name: &str, installed: bool, running: bool, external: bool) -> ServiceInfo {
    ServiceInfo {
        name: name.to_string(),
        engine: "mysql".to_string(),
        port: 3306,
        installed,
        running,
        external,
        version: String::new(),
    }
}

#[test]
fn services_are_checked_one_by_one() {
    let mut c = Checks(vec![]);
    check_services(&mut c, true, Some(&[]));
    assert_eq!(ids(&c), vec!["services.dbngin", "services.none"]);

    let list = vec![service("mysql", true, false, false), service("redis", false, false, false), service("pg", true, true, true)];
    let mut c = Checks(vec![]);
    check_services(&mut c, false, Some(&list));
    assert_eq!(ids(&c), vec!["services.mysql", "services.redis", "services.pg"]);
    let m = find(&c, "services.mysql");
    assert_eq!(m.status, Status::Warn);
    assert_eq!(m.detail, "installed, stopped on port 3306");
    assert_eq!(m.fix.as_ref().unwrap().command, "dpl service start mysql");
    assert_eq!(find(&c, "services.redis").detail, "not installed on port 3306");
    assert!(find(&c, "services.redis").fix.is_none());
    assert_eq!(find(&c, "services.pg").status, Status::Pass);

    let mut c = Checks(vec![]);
    check_services(&mut c, false, None);
    assert!(c.0.is_empty());
}

#[test]
fn tooling_reports_each_tool_and_jetty_installs() {
    let jetty = vec!["/h/.local/bin/jetty".to_string(), "/opt/homebrew/bin/jetty".to_string()];
    let mut c = Checks(vec![]);
    check_tooling(&mut c, Some("/opt/homebrew/bin/brew"), None, None, &jetty, None, Some("/h/.composer/vendor/bin/valet"));
    assert_eq!(ids(&c), vec!["tool.brew", "tool.composer", "tool.cloudflared", "tool.jetty", "tool.valet"]);
    assert_eq!(find(&c, "tool.brew").status, Status::Pass);
    assert_eq!(find(&c, "tool.composer").fix.as_ref().unwrap().command, "brew install composer");
    let j = find(&c, "tool.jetty");
    assert_eq!(j.status, Status::Warn);
    assert_eq!(j.detail, "2 installs: /h/.local/bin/jetty, /opt/homebrew/bin/jetty");
    assert_eq!(find(&c, "tool.valet").detail, "installed at /h/.composer/vendor/bin/valet");

    let mut c = Checks(vec![]);
    check_jetty(&mut c, &vec![], Some("/usr/local/bin/jetty"));
    assert_eq!(c.0[0].status, Status::Pass);
    assert_eq!(c.0[0].detail, "/usr/local/bin/jetty");
    let mut c = Checks(vec![]);
    check_jetty(&mut c, &vec![], None);
    assert_eq!(c.0[0].status, Status::Warn);
    assert_eq!(c.0[0].detail, "not installed");
}

#[test]
fn jetty_is_looked_for_under_home_first() {
    let c = jetty_candidates("/h");
    assert_eq!(c[0], "/h/.local/bin/jetty");
    assert_eq!(c[1], "/h/.composer/vendor/bin/jetty");
    assert!(c.contains(&"/opt/homebrew/bin/jetty".to_string()));
}

fn site(name: &str, path: &str, docroot: &str, php: Option<&str>, requires: Option<&str>) -> SiteInfo {
    SiteInfo {
        name: name.to_string(),
        host: format!("{name}.test"),
        url: format!("http://{name}.test"),
        path: path.to_string(),
        docroot: docroot.to_string(),
        source: "link".to_string(),
        php: php.map(String::from),
        secure: false,
        serving: true,
        runtime: None,
        framework: None,
        requires_php: requires.map(String::from),
        xdebug: None,
        xdebug_installed: false,
        profile: false,
        profile_installed: false,
        preload: None,
        node: None,
        node_source: None,
        database: None,
        db_branch: None,
    }
}

#[test]
fn sites_report_missing_folders_and_php_shortfalls() {
    let mut c = Checks(vec![]);
    let cfg = config(&[], None);
    check_sites(&mut c, None, &[], &cfg, None, &[]);
    assert_eq!(ids(&c), vec!["sites.registry"]);
    assert_eq!(c.0[0].status, Status::Fail);

    let list = vec![
        site("shop", "/p/shop", "/p/shop/public", None, Some("^8.3")),
        site("gone", "/p/gone", "/p/gone/public", Some("8.4"), None),
        site("blog", "/p/blog", "/p/blog/public", None, None),
    ];
    let dirs: Vec<String> = vec!["/p/shop", "/p/shop/public", "/p/blog"].into_iter().map(String::from).collect();
    let mut cfg = config(&[], None);
    cfg.parked = vec!["/p/parked".to_string()];
    cfg.proxies = vec![("vite".to_string(), "http://localhost:5173".to_string())];
    let mut c = Checks(vec![]);
    check_sites(&mut c, Some(&list), &dirs, &cfg, Some("8.2"), &[80]);
    let registry = find(&c, "sites.registry");
    assert_eq!(registry.detail, "3 site(s), 3 serving, 0 on HTTPS");
    let paths = find(&c, "sites.paths");
    assert_eq!(paths.status, Status::Fail);
    assert_eq!(paths.detail, "missing: gone");
    assert_eq!(find(&c, "sites.docroots").detail, "missing: blog");
    assert_eq!(find(&c, "sites.php_requirement").detail, "shop needs 8.3, runs 8.2");
    assert_eq!(find(&c, "sites.parked").detail, "missing: /p/parked");
    let proxy = find(&c, "sites.proxy.vite");
    assert_eq!(proxy.status, Status::Warn);
    assert_eq!(proxy.detail, "nothing listening on localhost:5173");
}

fn php(v: &str) -> PhpVersion {
    PhpVersion {
        version: v.to_string(),
        binary: format!("/opt/homebrew/opt/php@{v}/bin/php"),
        source: "homebrew".to_string(),
    }
}

#[test]
fn php_checks_list_installs_and_the_coverage_driver() {
    let mut c = Checks(vec![]);
    check_php(&mut c, &[], None, &[], &[], None);
    assert_eq!(ids(&c), vec!["php.versions"]);
    assert_eq!(c.0[0].status, Status::Fail);

    let vs = vec![php("8.4"), php("8.3")];
    let mut c = Checks(vec![]);
    check_php(&mut c, &vs, Some("8.3"), &[vec![], vec![]], &[false, true], Some(("8.3", Some("xdebug"))));
    assert_eq!(
        ids(&c),
        vec!["php.versions", "php.default", "php.xdebug_system_leftover", "php.cli_coverage"]
    );
    assert_eq!(find(&c, "php.versions").detail, "8.4, 8.3");
    assert_eq!(find(&c, "php.default").detail, "8.3");
    let leftover = find(&c, "php.xdebug_system_leftover");
    assert_eq!(leftover.status, Status::Warn);
    assert_eq!(leftover.fix.as_ref().unwrap().command, "dpl php repair 8.3");
    let cov = find(&c, "php.cli_coverage");
    assert_eq!(cov.status, Status::Pass);
    assert_eq!(cov.detail, "Xdebug loaded on PHP 8.3 CLI");

    let mut c = Checks(vec![]);
    check_php(&mut c, &vs, None, &[vec![], vec![]], &[false, false], Some(("8.4", None)));
    assert_eq!(find(&c, "php.default").status, Status::Warn);
    assert_eq!(find(&c, "php.xdebug_system_leftover").status, Status::Pass);
    assert_eq!(find(&c, "php.cli_coverage").status, Status::Warn);
    assert_eq!(find(&c, "php.cli_coverage").fix.as_ref().unwrap().command, "dpl php ext-install 8.4 pcov");
}

#[test]
fn coverage_is_reported_for_the_default_binary() {
    let vs = vec![php("8.4"), php("8.3")];
    assert_eq!(coverage_binary(Some("8.3"), &vs), Some("/opt/homebrew/opt/php@8.3/bin/php".to_string()));
    assert_eq!(coverage_binary(None, &vs), Some("/opt/homebrew/opt/php@8.4/bin/php".to_string()));
    assert_eq!(coverage_binary(None, &[]), None);
}

fn question() -> Vec<u8> {
    let mut q = vec![10];
    q.extend_from_slice(b"dpl-doctor");
    q.push(4);
    q.extend_from_slice(b"test");
    q.push(0);
    q
}

#[test]
fn dns_queries_ask_for_an_a_record() {
    let mut want = vec![0x7a, 0x1c, 0x01, 0x00, 0x00, 0x01, 0, 0, 0, 0, 0, 0];
    want.extend(question());
    want.extend([0, 1, 0, 1]);
    assert_eq!(dns_query("dpl-doctor.test"), Some(want));
    let long = format!("{}.test", "a".repeat(256));
    assert_eq!(dns_query(&long), None);
}

fn reply(answers: u8, answer: &[u8]) -> Vec<u8> {
    let mut r = vec![0x7a, 0x1c, 0x81, 0x80, 0, 1, 0, answers, 0, 0, 0, 0];
    r.extend(question());
    r.extend([0, 1, 0, 1]);
    r.extend_from_slice(answer);
    r
}

#[test]
fn dns_replies_give_their_first_a_record() {
    let compressed = [0xc0, 0x0c, 0, 1, 0, 1, 0, 0, 0, 60, 0, 4, 127, 0, 0, 1];
    assert_eq!(dns_answer(&reply(1, &compressed)), Some([127, 0, 0, 1]));
    let mut spelled = question();
    spelled.extend([0, 1, 0, 1, 0, 0, 0, 60, 0, 4, 10, 0, 0, 2]);
    assert_eq!(dns_answer(&reply(1, &spelled)), Some([10, 0, 0, 2]));
    // No answers, a non-A record, a truncated reply.
    assert_eq!(dns_answer(&reply(0, &compressed)), None);
    let aaaa = [0xc0, 0x0c, 0, 28, 0, 1, 0, 0, 0, 60, 0, 4, 127, 0, 0, 1];
    assert_eq!(dns_answer(&reply(1, &aaaa)), None);
    assert_eq!(dns_answer(&reply(1, &compressed[..14])), None);
    assert_eq!(dns_answer(&[0u8; 5]), None);
}

#[test]
fn probe_output_is_read_carefully() {
    assert_eq!(command_output(true, "  /usr/bin/php \n").as_deref(), Some("/usr/bin/php"));
    assert_eq!(command_output(true, " \n"), None);
    assert_eq!(command_output(false, "x"), None);
    assert_eq!(coverage_driver(" pcov\n"), Some("pcov"));
    assert_eq!(coverage_driver("xdebug"), Some("xdebug"));
    assert_eq!(coverage_driver(""), None);
    let fp = ca_fingerprint("SHA1 Fingerprint=ab:cd:01 \n").unwrap();
    assert_eq!(fp, "ABCD01");
    assert_eq!(ca_fingerprint("no equals"), None);
    assert!(fingerprint_trusted("SHA-1 hash: abcd01\n", &fp));
    assert!(!fingerprint_trusted("SHA-1 hash: ffff\n", &fp));
}

#[test]
fn a_report_renders_its_categories_in_order_with_counts() {
    let mut c = Checks(vec![]);
    c.add("a", "Daemon", "Daemon", Status::Pass, "running".to_string());
    c.add("b", "Tools", "php", Status::Fail, "missing".to_string());
    c.hint("install php");
    c.fix("Install", "brew install php");
    c.add("c", "Tools", "node", Status::Warn, "old".to_string());
    c.fix("Label only", "");
    let r = Report::new("dpl doctor", Some("sub".to_string()), &["Tools", "Network", "Daemon"], c.0);
    assert!(!r.ok);
    let lines = r.render();
    let want: Vec<String> = vec![
        "dpl doctor",
        "sub",
        "",
        "Tools",
        "  \u{2717} php: missing",
        "      install php",
        "      \u{2192} brew install php",
        "  \u{26a0} node: old",
        "",
        "Daemon",
        "  \u{2713} Daemon: running",
        "",
        "1 passed, 1 warning(s), 1 problem(s)",
    ]
    .into_iter()
    .map(String::from)
    .collect();
    assert_eq!(lines, want);
}

#[test]
fn system_rows_describe_the_platform_config_and_helper() {
    let mut c = Checks(vec![]);
    check_system_head(&mut c, "linux", "x86_64", "0.1.0");
    check_system_files(&mut c, &ConfigState::Loaded { path: "/h/.dpl/config.toml".into(), config: config(&[], None) }, None);
    assert_eq!(ids(&c), vec!["system.platform", "system.cli_version", "system.config", "system.helper"]);
    assert_eq!(find(&c, "system.platform").detail, "linux (x86_64)");
    assert_eq!(
        find(&c, "system.config").detail,
        "/h/.dpl/config.toml \u{2014} 0 link(s), 0 parked, 0 proxy(s), TLD(s): test"
    );
    assert_eq!(find(&c, "system.helper").status, Status::Warn);
    let mut c = Checks(vec![]);
    check_system_files(&mut c, &ConfigState::Unreadable { path: "/c".into(), error: "bad toml".into() }, Some("/usr/bin/dpl-helper"));
    assert_eq!(find(&c, "system.config").status, Status::Fail);
    assert_eq!(find(&c, "system.config").detail, "/c is unreadable: bad toml");
    assert_eq!(find(&c, "system.helper").detail, "/usr/bin/dpl-helper");
}

#[test]
fn the_doctor_report_keeps_only_categories_with_checks() {
    let mut c = Checks(vec![]);
    check_system_head(&mut c, "linux", "x86_64", "0.1.0");
    c.add("daemon.running", "Daemon", "Daemon", Status::Fail, "down".to_string());
    let r = doctor_report(c.0);
    assert_eq!(r.title, "dpl doctor");
    assert_eq!(r.categories, vec!["System".to_string(), "Daemon".to_string()]);
    assert!(!r.ok);
}
