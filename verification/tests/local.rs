use dpl::local::{
    brew_ext_names, conf_dir_from_ini, connection_strings, default_user, ext_name_of, extension_targets, mail_headers,
    normalize_php_version, repair_ini, scan_dir_from_ini,
};

#[test]
fn php_versions_normalize_to_a_line() {
    assert_eq!(normalize_php_version("8.3").unwrap(), "8.3");
    assert_eq!(normalize_php_version(" php@8.2 ").unwrap(), "8.2");
    assert_eq!(normalize_php_version("php8.4.1").unwrap(), "8.4");
    assert_eq!(normalize_php_version("8..1").unwrap(), "8.1");
    assert_eq!(normalize_php_version("8").unwrap_err(), "expected a PHP version like 8.3 (got `8`)");
    assert!(normalize_php_version("").is_err());
}

#[test]
fn engines_have_their_users_and_connection_strings() {
    assert_eq!(default_user("postgres"), "postgres");
    assert_eq!(default_user("mariadb"), "root");
    assert_eq!(default_user("redis"), "-");
    assert_eq!(
        connection_strings("postgres", 5433),
        ("postgresql://postgres@127.0.0.1:5433/postgres".to_string(), "psql -h 127.0.0.1 -p 5433 -U postgres".to_string())
    );
    assert_eq!(
        connection_strings("mysql", 3306),
        ("mysql://root@127.0.0.1:3306".to_string(), "mysql -h 127.0.0.1 -P 3306 -u root".to_string())
    );
    assert_eq!(connection_strings("redis", 6379), ("redis://127.0.0.1:6379".to_string(), "redis-cli -p 6379".to_string()));
    assert_eq!(connection_strings("meili", 7700), ("127.0.0.1:7700".to_string(), String::new()));
}

const INI: &str = "Configuration File (php.ini) Path: /opt/homebrew/etc/php/8.3\n\
                   Loaded Configuration File:         /opt/homebrew/etc/php/8.3/php.ini\n\
                   Scan for additional .ini files in: \"/opt/homebrew/etc/php/8.3/conf.d\"\n\
                   Additional .ini files parsed:      (none)\n";

#[test]
fn php_ini_output_names_the_scan_directory() {
    assert_eq!(conf_dir_from_ini(INI).as_deref(), Some("/opt/homebrew/etc/php/8.3/conf.d"));
    assert_eq!(scan_dir_from_ini(INI).as_deref(), Some("\"/opt/homebrew/etc/php/8.3/conf.d\""));
    let none = "Scan for additional .ini files in: (none)\n";
    assert_eq!(scan_dir_from_ini(none).as_deref(), Some("(none)"));
    assert_eq!(scan_dir_from_ini("Scan for additional .ini files in:    \n"), None);
    assert_eq!(conf_dir_from_ini("no such line\n"), None);
}

#[test]
fn conf_d_file_names_give_extension_names() {
    assert_eq!(ext_name_of("20-intl.ini").as_deref(), Some("intl"));
    assert_eq!(ext_name_of("ext-redis.ini"), None);
    assert_eq!(ext_name_of("30-Xdebug.ini.disabled").as_deref(), Some("xdebug"));
    assert_eq!(ext_name_of("5a-imagick.ini").as_deref(), Some("5a-imagick"));
    assert_eq!(ext_name_of("99.ini").as_deref(), Some("99"));
}

#[test]
fn the_extensions_tap_lists_each_extension_once_in_order() {
    let search = "==> Formulae\nshivammathur/extensions/redis@8.3\nshivammathur/extensions/apcu@8.3\n\
                  shivammathur/extensions/redis@8.2\n  shivammathur/extensions/apcu@8.3  \nother/tap/x@8.3\n";
    assert_eq!(brew_ext_names(search, "8.3"), vec!["apcu", "redis"]);
    assert!(brew_ext_names(search, "7.4").is_empty());
}

#[test]
fn broken_extension_directives_are_commented_out() {
    let ini = "; comment\nextension=redis\nzend_extension=\"/opt/x/xdebug.so\" ; dbg\nextension=intl.so\n";
    let targets = extension_targets(ini, Some("/ext"));
    assert_eq!(targets, vec!["/ext/redis.so", "/opt/x/xdebug.so", "/ext/intl.so"]);
    let present = vec!["/ext/intl.so".to_string()];
    let (text, disabled) = repair_ini("20-ext.ini", ini, Some("/ext"), &present);
    assert_eq!(
        text.as_deref(),
        Some(
            "; comment\n; disabled by dpl (missing /ext/redis.so): extension=redis\n\
             ; disabled by dpl (missing /opt/x/xdebug.so): zend_extension=\"/opt/x/xdebug.so\" ; dbg\n\
             extension=intl.so\n"
        )
    );
    assert_eq!(disabled, vec!["20-ext.ini \u{2192} redis", "20-ext.ini \u{2192} /opt/x/xdebug.so"]);

    let all = vec!["/ext/redis.so".to_string(), "/opt/x/xdebug.so".to_string(), "/ext/intl.so".to_string()];
    assert_eq!(repair_ini("20-ext.ini", ini, Some("/ext"), &all), (None, vec![]));
    // Without an extension directory a bare name is looked up as given.
    assert_eq!(extension_targets("extension=gd", None), vec!["gd.so"]);
    assert!(extension_targets("extension=\n#extension=gd\nmemory_limit=1G", None).is_empty());
}

#[test]
fn mail_listing_reads_the_first_of_each_header() {
    let eml = "X-Envelope-From: bounce@x.test\nFrom: a@b.test\nTo:   c@d.test  \nSUBJECT: Hi there\n\nTo: body@x.test\n";
    assert_eq!(
        mail_headers(eml),
        ("bounce@x.test".to_string(), "c@d.test".to_string(), "Hi there".to_string())
    );
    assert_eq!(mail_headers(""), (String::new(), String::new(), String::new()));
}

use dpl::ipc::{ServiceInfo, SiteInfo};
use dpl::local::{
    available_extensions, catalog_row, installed_ext_names, octane_server, php_list_heading, php_list_row,
    render_proxies, render_sites, server_header, service_info, service_install_plan, service_row, services_heading,
    site_name, tld_lines, valid_ext_name,
};

fn site(name: &str, source: &str, path: &str, serving: bool) -> SiteInfo {
    SiteInfo {
        name: name.into(),
        host: format!("{name}.test"),
        url: format!("http://{name}.test"),
        path: path.into(),
        docroot: path.into(),
        source: source.into(),
        php: None,
        secure: false,
        serving,
        runtime: None,
        framework: None,
        requires_php: None,
        xdebug: None,
        xdebug_installed: false,
        profile: false,
        profile_installed: false,
        preload: None,
        node: None,
        node_source: None,
        database: None,
        db_branch: None,
    }
}

#[test]
fn site_names_come_from_the_argument_or_the_directory() {
    assert_eq!(site_name(Some("Blog"), "/x"), Ok("blog".to_string()));
    assert_eq!(site_name(None, "/Users/me/Shop/"), Ok("shop".to_string()));
    assert_eq!(site_name(None, "/"), Err("could not derive a site name from the current directory".to_string()));
}

#[test]
fn the_site_listing_sizes_its_columns() {
    let sites = vec![site("blog", "parked", "/s/blog", true), site("shopfront", "linked", "/c/shop", false)];
    let lines = render_sites(&sites, 8080, "test");
    assert_eq!(lines[0], "Serving .test sites on port 8080");
    assert_eq!(lines[1], "");
    assert_eq!(lines[2], format!("{:<9}  {:<19}  {:<7}  {:<6}  PATH", "NAME", "URL", "SOURCE", "SERVING"));
    assert_eq!(lines[3], format!("{:<9}  {:<19}  {:<7}  {:<6}  {}", "blog", "blog.test:8080", "parked", "yes", "/s/blog"));
    assert_eq!(lines[4], format!("{:<9}  {:<19}  {:<7}  {:<6}  {}", "shopfront", "shopfront.test:8080", "linked", "no", "/c/shop"));
    assert_eq!(lines.len(), 5);
    assert_eq!(render_sites(&[], 80, "test").len(), 1);
    let on_80 = render_sites(&sites[..1], 80, "test");
    assert_eq!(on_80[3], format!("{:<4}  {:<9}  {:<7}  {:<6}  {}", "blog", "blog.test", "parked", "yes", "/s/blog"));
}

#[test]
fn proxies_are_listed_with_their_targets() {
    let sites = vec![site("vite", "proxy", "http://localhost:5173", false), site("blog", "parked", "/s", true)];
    assert_eq!(render_proxies(&sites), vec!["vite.test  \u{2192}  http://localhost:5173"]);
    assert_eq!(render_proxies(&sites[1..]), vec!["No proxies. Add one: `dpl proxy blog http://localhost:3000`."]);
}

#[test]
fn service_specs_pick_their_formula_and_tap() {
    assert_eq!(
        service_install_plan("PostgreSQL@16"),
        Ok(("postgresql@16".to_string(), None, "postgres".to_string()))
    );
    assert_eq!(service_install_plan("pg"), Ok(("postgresql@17".to_string(), None, "postgres".to_string())));
    assert_eq!(service_install_plan("mysql@8.4"), Ok(("mysql@8.4".to_string(), None, "mysql".to_string())));
    assert_eq!(service_install_plan("redis"), Ok(("redis".to_string(), None, "redis".to_string())));
    assert_eq!(
        service_install_plan("mongo"),
        Ok(("mongodb-community".to_string(), Some("mongodb/brew".to_string()), "mongo".to_string()))
    );
    assert_eq!(
        service_install_plan("nope"),
        Err("unknown service `nope` (postgres|mysql|mariadb|redis|meilisearch|mongodb|minio|stripe-mock)".to_string())
    );
}

#[test]
fn services_are_listed_and_described() {
    let pg = ServiceInfo {
        name: "mypg".into(),
        engine: "postgres".into(),
        port: 5433,
        installed: true,
        running: false,
        external: false,
        version: "16".into(),
    };
    assert_eq!(services_heading(), format!("{:<14}  {:<9}  {:<8}  {:<6}  {}", "NAME", "ENGINE", "VERSION", "PORT", "STATE"));
    assert_eq!(service_row(&pg), format!("{:<14}  {:<9}  {:<8}  {:<6}  {}", "mypg", "postgres", "16", 5433, "stopped"));
    let lines = service_info(&[pg], "mypg").unwrap();
    assert_eq!(lines[0], "mypg  (postgres 16)");
    assert_eq!(lines[2], "  port      5433");
    assert_eq!(lines[5], "  url       postgresql://postgres@127.0.0.1:5433/postgres");
    assert_eq!(service_info(&[], "x"), Err("no service named `x`".to_string()));
}

#[test]
fn tlds_octane_servers_and_probe_headers() {
    assert_eq!(tld_lines(&["test".to_string(), "dev".to_string()]), vec![".test  (primary)", ".dev"]);
    assert_eq!(octane_server("Swoole"), Ok("swoole".to_string()));
    assert_eq!(octane_server("php-fpm"), Err("unknown server `php-fpm` (swoole | roadrunner | frankenphp)".to_string()));
    assert_eq!(server_header("HTTP/1.1 200 OK\r\nServer: Apache/2.4.58 (Unix)\r\n\r\n"), "apache");
    assert_eq!(server_header("HTTP/1.0 200 OK\r\nSERVER:   \r\n"), "another server");
    assert_eq!(server_header("HTTP/1.0 200 OK\r\n"), "another web server");
}

#[test]
fn extension_catalogs_skip_what_is_installed() {
    let files: Vec<String> = ["20-Intl.ini", "ext-redis.ini", "30-redis.ini.disabled", "README"].iter().map(|s| s.to_string()).collect();
    assert_eq!(installed_ext_names(&files), vec!["intl", "redis"]);
    let catalog: Vec<String> = ["imagick", "Redis", "xdebug"].iter().map(|s| s.to_string()).collect();
    assert_eq!(available_extensions(&catalog, &installed_ext_names(&files)), vec!["imagick", "xdebug"]);
    assert!(valid_ext_name("pdo_sqlsrv-5"));
    assert!(!valid_ext_name(""));
    assert!(!valid_ext_name("x; rm -rf /"));
}

#[test]
fn php_listings_mark_the_default_and_status() {
    let v = dpl::php::PhpVersion { version: "8.3".into(), binary: "/opt/homebrew/bin/php".into(), source: "homebrew".into() };
    assert_eq!(php_list_heading(), format!("{:<8}  {:<10}  {:<8}  BINARY", "VERSION", "SOURCE", "DEFAULT"));
    assert_eq!(php_list_row(&v, Some("8.3")), format!("{:<8}  {:<10}  {:<8}  {}", "8.3", "homebrew", "\u{2713}", "/opt/homebrew/bin/php"));
    assert_eq!(php_list_row(&v, None), format!("{:<8}  {:<10}  {:<8}  {}", "8.3", "homebrew", "", "/opt/homebrew/bin/php"));
    let e = dpl::php::CatalogEntry {
        version: "8.2".into(),
        formula: "php@8.2".into(),
        installed: true,
        broken: true,
        active: false,
        installed_version: None,
    };
    assert_eq!(catalog_row(&e), format!("{:<8}  {:<10}  {}", "8.2", "php@8.2", "broken"));
}
