use dpl::error::CoreError;
use dpl::spx;
use dpl::ipc::SiteInfo;
use dpl::xdebug::{
    loader_ini, scan_dir_env, so_candidates, so_path, xdebug_status_lines, xdebug_status_rows, Mode, Settings,
};

#[test]
fn empty_and_off_parse_to_off() {
    assert!(Mode::parse("").unwrap().is_off());
    assert!(Mode::parse("off").unwrap().is_off());
    assert!(Mode::parse("  OFF ").unwrap().is_off());
    assert_eq!(Mode::default(), Mode::off());
}

#[test]
fn mode_lists_canonicalize_so_pools_dont_split() {
    let a = Mode::parse("debug,develop").unwrap();
    let b = Mode::parse("develop, debug").unwrap();
    let c = Mode::parse("DEVELOP,debug,debug").unwrap();
    assert_eq!(a, b);
    assert_eq!(b, c);
    assert_eq!(a.as_str(), "debug,develop");
}

#[test]
fn rejects_unknown_and_combined_off() {
    assert!(Mode::parse("bogus").is_err());
    assert!(Mode::parse("debug,bogus").is_err());
    assert!(Mode::parse("off,debug").is_err());
}

#[test]
fn has_matches_whole_parts_only() {
    let m = Mode::parse("debug").unwrap();
    assert!(m.has("debug"));
    assert!(!m.has("bug"));
    assert!(!m.has("develop"));
}

#[test]
fn slug_is_filesystem_safe() {
    assert_eq!(Mode::parse("debug,develop").unwrap().slug(), "debug-develop");
    assert_eq!(Mode::off().slug(), "off");
}

#[test]
fn loader_pins_mode_off_and_carries_settings() {
    let ini = loader_ini("/opt/xdebug.so", &Settings { client_port: 9005, ide_key: "VSCODE".into() }, "/tmp/out");
    assert!(ini.contains("zend_extension=/opt/xdebug.so"));
    assert!(ini.contains("xdebug.mode=off"));
    assert!(ini.contains("xdebug.client_port=9005"));
    assert!(ini.contains("xdebug.idekey=VSCODE"));
    assert!(ini.contains("xdebug.output_dir=/tmp/out"));
}

#[test]
fn scan_dir_env_keeps_the_default_directory() {
    assert_eq!(scan_dir_env("/a/b"), ":/a/b");
}

#[test]
fn loader_ini_auto_starts_profiling_without_reloading_the_extension() {
    let ini = spx::loader_ini("/data");
    assert!(ini.contains("spx.http_profiling_auto_start=1"));
    assert!(ini.contains("spx.http_enabled=1"));
    assert!(ini.contains("spx.data_dir=/data"));
    assert!(ini.contains("spx.http_ip_whitelist=127.0.0.1"));
    assert!(!ini.contains("extension="));
}

#[test]
fn error_messages_name_the_problem() {
    match Mode::parse("debug, Bogus") {
        Err(CoreError::Message(m)) => {
            assert_eq!(m, "unknown Xdebug mode `bogus` (valid: off, develop, coverage, debug, gcstats, profile, trace)")
        }
        other => panic!("unexpected {other:?}"),
    }
    match Mode::parse("off,debug") {
        Err(CoreError::Message(m)) => assert_eq!(m, "`off` cannot be combined with other Xdebug modes"),
        other => panic!("unexpected {other:?}"),
    }
}

#[test]
fn a_canonical_mode_parses_back_to_itself() {
    let m = Mode::parse("trace, , profile,debug").unwrap();
    assert_eq!(m.as_str(), "debug,profile,trace");
    assert_eq!(Mode::parse(m.as_str()).unwrap(), m);
}

#[test]
fn settings_default_to_phpstorm_on_9003() {
    let s = Settings::default();
    assert_eq!(s.client_port, 9003);
    assert_eq!(s.ide_key, "PHPSTORM");
}

#[test]
fn so_path_reads_a_commented_out_zend_extension() {
    let dir = "/tmp/dpl-xdebug-test";
    let so = format!("{dir}/xdebug.so");
    let names = vec!["xdebug.so".to_string(), "20-xdebug.ini".to_string()];
    assert_eq!(dpl::xdebug::ini_files(&names, "xdebug", false), vec!["20-xdebug.ini"]);
    let text = format!("[xdebug]\n; zend_extension=\"{}\"\n", so);
    assert_eq!(dpl::xdebug::so_from_conf_dir(&[text]), Some(so));
}

#[test]
fn cleanup_removes_only_dpl_managed_system_leftovers() {
    assert!(dpl::xdebug::is_dpl_loader("; Managed by dpl \u{2014} Xdebug\nxdebug.mode=off\n"));
    assert!(!dpl::xdebug::is_dpl_loader("xdebug.mode=debug\n"));
}

#[test]
fn the_system_conf_dir_comes_from_php_ini_output() {
    let out = "Configuration File (php.ini) Path: /etc/php\nScan for additional .ini files in: /etc/php/8.3/conf.d\nAdditional .ini files parsed: (none)\n";
    assert_eq!(dpl::xdebug::system_conf_dir(out).as_deref(), Some("/etc/php/8.3/conf.d"));
    assert_eq!(dpl::xdebug::system_conf_dir("Scan for additional .ini files in: (none)\n"), None);
    assert_eq!(dpl::xdebug::system_conf_dir("Scan for additional .ini files in:   \n"), None);
    assert_eq!(dpl::xdebug::system_conf_dir("nothing\n"), None);
}

#[test]
fn ini_files_are_matched_by_name_and_sorted() {
    let names: Vec<String> = ["30-XDEBUG.ini", "20-xdebug.ini", "xdebug.ini.disabled", "opcache.ini"]
        .iter()
        .map(|s| s.to_string())
        .collect();
    assert_eq!(dpl::xdebug::ini_files(&names, "xdebug", false), vec!["20-xdebug.ini", "30-XDEBUG.ini"]);
    let names: Vec<String> = ["ext-spx.ini.disabled", "spx.ini", "spx.txt"].iter().map(|s| s.to_string()).collect();
    assert_eq!(dpl::xdebug::ini_files(&names, "spx", true), vec!["ext-spx.ini.disabled", "spx.ini"]);
}

#[test]
fn the_first_live_or_commented_extension_line_wins() {
    let a = "xdebug.mode=off\n".to_string();
    let b = "  ;;\tZEND_EXTENSION = '/opt/x/xdebug.so'\nzend_extension=/other.so\n".to_string();
    assert_eq!(dpl::xdebug::so_from_conf_dir(&[a, b]).as_deref(), Some("/opt/x/xdebug.so"));
    assert_eq!(dpl::xdebug::so_from_conf_dir(&["zend_extension=\"\"\n".to_string()]), None);
    let spx_texts = vec!["extension=opcache.so\n; extension=\"/usr/lib/php/SPX.so\"\n".to_string()];
    assert_eq!(spx::so_from_conf_dir(&spx_texts).as_deref(), Some("/usr/lib/php/SPX.so"));
    assert_eq!(spx::so_from_conf_dir(&["extension=opcache.so\n".to_string()]), None);
}

#[test]
fn xdebug_is_looked_for_in_conf_d_then_the_homebrew_keg() {
    assert_eq!(
        so_candidates(Some("/usr/lib/php/xdebug.so".to_string()), Some("8.3")),
        vec![
            "/usr/lib/php/xdebug.so".to_string(),
            "/opt/homebrew/opt/xdebug@8.3/xdebug.so".to_string(),
            "/usr/local/opt/xdebug@8.3/xdebug.so".to_string(),
            "/home/linuxbrew/.linuxbrew/opt/xdebug@8.3/xdebug.so".to_string(),
        ]
    );
    assert!(so_candidates(None, None).is_empty());
}

fn xsite(name: &str, source: &str, php: Option<&str>, mode: Option<&str>, installed: bool) -> SiteInfo {
    SiteInfo {
        name: name.into(),
        host: format!("{name}.test"),
        url: format!("http://{name}.test"),
        path: format!("/code/{name}"),
        docroot: format!("/code/{name}/public"),
        source: source.into(),
        php: php.map(String::from),
        secure: false,
        serving: false,
        runtime: None,
        framework: None,
        requires_php: None,
        xdebug: mode.map(String::from),
        xdebug_installed: installed,
        profile: false,
        profile_installed: false,
        preload: None,
        node: None,
        node_source: None,
        database: None,
        db_branch: None,
    }
}

#[test]
fn xdebug_status_lists_sites_but_not_proxies() {
    let settings = Settings { client_port: 9003, ide_key: "PHPSTORM".into() };
    let sites = vec![
        xsite("blog", "linked", Some("8.3"), Some("debug"), false),
        xsite("api", "proxy", None, None, false),
        xsite("a", "parked", None, None, true),
    ];
    let lines = xdebug_status_lines(&sites, &settings);
    assert_eq!(
        lines,
        vec![
            "IDE  127.0.0.1:9003  (idekey PHPSTORM)".to_string(),
            "".to_string(),
            "SITE  PHP       XDEBUG            ".to_string(),
            "blog  8.3       debug             not installed for this PHP".to_string(),
            "a     default   off               ".to_string(),
            "".to_string(),
            "Step debugging: point your IDE at 127.0.0.1:9003, set a breakpoint, reload the site.".to_string(),
        ]
    );
    let rows = xdebug_status_rows(&sites);
    assert_eq!(rows.len(), 2);
    assert_eq!(rows[1], ("a".to_string(), None, "off".to_string(), true));
    let quiet = vec![xsite("a", "parked", None, Some("off"), true)];
    assert_eq!(xdebug_status_lines(&quiet, &settings).len(), 4);
    let none = vec![xsite("api", "proxy", None, None, false)];
    assert_eq!(xdebug_status_lines(&none, &settings), vec!["No local sites yet. Link a project with `dpl link .`.".to_string()]);
}

#[test]
fn xdebug_is_the_first_candidate_that_exists() {
    let c = vec!["/a".to_string(), "/b".to_string(), "/c".to_string()];
    assert_eq!(so_path(&c, &[false, true, true]).as_deref(), Some("/b"));
    assert_eq!(so_path(&c, &[false, false, false]), None);
}

#[test]
fn mode_text_is_sorted_names_or_off() {
    assert_eq!(Mode::parse("trace, debug").unwrap().as_str(), "debug,trace");
    assert_eq!(Mode::parse("").unwrap().as_str(), "off");
}
