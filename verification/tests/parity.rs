use dpl::checks::{Check, Checks, Status};
use dpl::config::{Link, LocalConfig};
use dpl::json::Json;
use dpl::parity::{
    build, check_env, check_php, check_project, check_services, daemon_docroot, leaf, link_of, loaded_extensions,
    local_site, parity_name, public_dir, remote_env_keys, required_extensions, LocalSite,
};
use dpl::xdebug::Settings;

fn to_json(v: &serde_json::Value) -> Json {
    match v {
        serde_json::Value::Null => Json::Null,
        serde_json::Value::Bool(b) => Json::Bool(*b),
        serde_json::Value::Number(n) => Json::Number(n.to_string()),
        serde_json::Value::String(s) => Json::Str(s.clone()),
        serde_json::Value::Array(a) => Json::Array(a.iter().map(to_json).collect(), v.to_string()),
        serde_json::Value::Object(m) => {
            Json::Object(m.iter().map(|(k, x)| (k.clone(), to_json(x))).collect(), v.to_string())
        }
    }
}

fn json(text: &str) -> Json {
    to_json(&serde_json::from_str::<serde_json::Value>(text).unwrap())
}

fn strings(v: &[&str]) -> Vec<String> {
    v.iter().map(|s| s.to_string()).collect()
}

fn find<'a>(checks: &'a [Check], id: &str) -> Vec<&'a Check> {
    checks.iter().filter(|c| c.id == id).collect()
}

#[test]
fn remote_env_keys_from_either_shape() {
    let list = json(r#"[{"key": "APP_ENV", "value": "production"}, {"key": "APP_DEBUG"}]"#);
    let keys = remote_env_keys(&list);
    assert!(keys.contains(&"APP_ENV".to_string()) && keys.contains(&"APP_DEBUG".to_string()) && keys.len() == 2);

    let map = json(r#"{"APP_ENV": "production", "QUEUE_CONNECTION": "redis"}"#);
    let keys = remote_env_keys(&map);
    assert!(keys.contains(&"APP_ENV".to_string()) && keys.contains(&"QUEUE_CONNECTION".to_string()));
}

#[test]
fn remote_env_rows_fall_back_to_name_and_skip_blanks() {
    let rows = json(r#"{"key": "ONE", "other": 1}"#);
    assert_eq!(remote_env_keys(&rows), vec!["ONE"]);
    let rows = json(r#"[{"name": "B"}, {"key": ""}, {"key": "A"}, {"key": "B"}]"#);
    assert_eq!(remote_env_keys(&rows), vec!["A", "B"]);
    assert!(remote_env_keys(&Json::Null).is_empty());
}

#[test]
fn php_modules_are_read_lowercased_without_headings() {
    let out = "[PHP Modules]\nCore\nctype\n  Redis \n\n[Zend Modules]\nZend OPcache\nctype\n";
    assert_eq!(loaded_extensions(out), vec!["core", "ctype", "redis", "zend opcache"]);
}

#[test]
fn required_extensions_come_from_ext_keys() {
    let composer = json(r#"{"require":{"php":"^8.2","ext-Redis":"*","ext-pdo":"*","laravel/framework":"^12.0"}}"#);
    assert_eq!(required_extensions(Some(&composer)), vec!["redis", "pdo"]);
    assert!(required_extensions(Some(&json(r#"{"require":[]}"#))).is_empty());
    assert!(required_extensions(None).is_empty());
}

#[test]
fn leaf_is_the_last_named_component() {
    assert_eq!(leaf("/home/dply/app/public"), "public");
    assert_eq!(leaf("/srv/app/"), "app");
    assert_eq!(leaf("a/."), "a");
    assert_eq!(leaf("/"), "/");
    assert_eq!(leaf("a/.."), "a/..");
    assert_eq!(leaf("public"), "public");
}

#[test]
fn project_checks_compare_repo_branch_and_docroot() {
    let remote = json(
        r#"{"type":"laravel","status":"active","git_repository_url":"https://github.com/acme/shop.git",
            "git_branch":"main","document_root":"/home/dply/shop/public","last_deploy_at":"2024-05-01"}"#,
    );
    let mut c = Checks(vec![]);
    check_project(&mut c, "shop", &remote, Some("git@github.com:acme/shop.git"), Some("feature"), "/code/shop/public");
    let ids: Vec<&str> = c.0.iter().map(|k| k.id.as_str()).collect();
    assert_eq!(ids, vec!["parity.remote", "parity.repo", "parity.branch", "parity.docroot", "parity.last_deploy"]);
    assert_eq!(c.0[0].detail, "shop (laravel) \u{2014} active");
    assert_eq!(c.0[1].status, Status::Pass);
    assert_eq!(c.0[1].detail, "https://github.com/acme/shop.git");
    assert_eq!(c.0[2].status, Status::Warn);
    assert_eq!(c.0[2].detail, "local on feature, deploys from main");
    assert!(c.0[2].hint.is_some());
    assert_eq!(c.0[3].status, Status::Pass);
    assert_eq!(c.0[3].detail, "both serve public/");
    assert_eq!(c.0[4].detail, "2024-05-01");

    let mut c = Checks(vec![]);
    check_project(&mut c, "shop", &remote, Some("git@github.com:acme/other.git"), None, "/code/shop");
    assert_eq!(c.0.len(), 4);
    assert_eq!(c.0[1].status, Status::Fail);
    assert_eq!(c.0[1].detail, "local git@github.com:acme/other.git \u{2192} remote https://github.com/acme/shop.git");
    assert_eq!(c.0[2].status, Status::Warn);
    assert_eq!(c.0[2].detail, "local shop/, remote public/");

    let mut c = Checks(vec![]);
    check_project(&mut c, "x", &json("{}"), None, Some("main"), "/p");
    assert_eq!(c.0.len(), 3);
    assert_eq!(c.0[0].detail, "x () \u{2014} ");
    assert_eq!(c.0[1].detail, "local project isn't a git checkout");
    assert_eq!(c.0[2].status, Status::Info);
    assert_eq!(c.0[2].detail, "local on main");
}

#[test]
fn php_checks_compare_versions_constraints_and_extensions() {
    let remote = json(r#"{"runtime_version":"8.3"}"#);
    let composer = json(r#"{"require":{"php":"^8.2","ext-redis":"*","ext-pdo":"*"}}"#);
    let mut c = Checks(vec![]);
    check_php(&mut c, "shop", Some("8.2"), &remote, Some(&composer), &strings(&["pdo"]));
    let version = &c.0[0];
    assert_eq!(version.id, "parity.php_version");
    assert_eq!(version.status, Status::Fail);
    assert_eq!(version.detail, "local 8.2, remote 8.3");
    assert_eq!(version.fix.as_ref().unwrap().command, "dpl use 8.3 shop");
    let constraint = &c.0[1];
    assert_eq!(constraint.status, Status::Pass);
    assert_eq!(constraint.detail, "remote 8.3 satisfies ^8.2");
    let ext = &c.0[2];
    assert_eq!(ext.status, Status::Fail);
    assert_eq!(ext.detail, "not loaded locally: redis");
    assert_eq!(ext.fix.as_ref().unwrap().command, "dpl php ext-install 8.2 redis");
    assert_eq!(c.0.len(), 3);

    let mut c = Checks(vec![]);
    let old = json(r#"{"require":{"php":">=8.4"}}"#);
    check_php(&mut c, "shop", Some("php8.3"), &json("{}"), Some(&old), &[]);
    assert_eq!(c.0[0].status, Status::Info);
    assert_eq!(c.0[0].detail, "local php8.3; the remote doesn't report its version");
    assert_eq!(c.0[1].status, Status::Fail);
    assert_eq!(c.0[1].detail, "local php8.3 is below the required >=8.4");
    assert!(c.0[1].hint.is_some());
    assert_eq!(c.0.len(), 2);

    let mut c = Checks(vec![]);
    check_php(&mut c, "shop", None, &remote, None, &[]);
    assert_eq!(c.0.len(), 1);
    assert_eq!(c.0[0].status, Status::Warn);
    assert_eq!(c.0[0].detail, "remote 8.3; no local PHP resolved");

    let mut c = Checks(vec![]);
    check_php(&mut c, "shop", Some("8.3.4"), &remote, Some(&composer), &strings(&["pdo", "redis"]));
    assert_eq!(c.0[0].status, Status::Pass);
    assert_eq!(c.0[0].detail, "both 8.3");
    assert_eq!(c.0[2].status, Status::Pass);
    assert_eq!(c.0[2].detail, "all 2 loaded locally: pdo, redis");
}

#[test]
fn env_checks_compare_key_names_both_ways() {
    let mut c = Checks(vec![]);
    let local = strings(&["APP_KEY", "DB_PASSWORD"]);
    check_env(&mut c, "shop", "/code/shop", &local, &Ok(strings(&["APP_KEY", "QUEUE_CONNECTION"])));
    assert_eq!(c.0.len(), 3);
    assert_eq!(c.0[0].detail, "2 local, 2 remote (names only \u{2014} no values are read)");
    assert_eq!(c.0[1].status, Status::Fail);
    assert_eq!(c.0[1].detail, "DB_PASSWORD");
    let fix = c.0[1].fix.as_ref().unwrap();
    assert_eq!(fix.command, "dpl dply site:env shop --set DB_PASSWORD=<value>");
    assert!(fix.placeholder);
    assert_eq!(c.0[2].status, Status::Warn);
    assert_eq!(c.0[2].detail, "QUEUE_CONNECTION");

    let mut c = Checks(vec![]);
    check_env(&mut c, "shop", "/code/shop", &local, &Ok(local.clone()));
    assert_eq!(c.0.len(), 2);
    assert_eq!(c.0[1].status, Status::Pass);

    let mut c = Checks(vec![]);
    check_env(&mut c, "shop", "/code/shop", &vec![], &Ok(local.clone()));
    assert_eq!(c.0.len(), 1);
    assert_eq!(c.0[0].detail, "no .env in /code/shop");

    let mut c = Checks(vec![]);
    check_env(&mut c, "shop", "/code/shop", &local, &Err("HTTP 500".to_string()));
    assert_eq!(c.0.len(), 1);
    assert_eq!(c.0[0].detail, "couldn't read the remote env: HTTP 500");
}

#[test]
fn services_list_the_remote_databases() {
    let mut c = Checks(vec![]);
    check_services(&mut c, Some(&json(r#"[{"name":"shop"},{"database":"shop_test"},{"id":3}]"#)));
    assert_eq!(c.0.len(), 1);
    assert_eq!(c.0[0].detail, "shop, shop_test");
    let mut c = Checks(vec![]);
    check_services(&mut c, Some(&json(r#"[{"id":1},{"id":2}]"#)));
    assert_eq!(c.0[0].detail, "2 attached");
    let mut c = Checks(vec![]);
    check_services(&mut c, Some(&json("[]")));
    check_services(&mut c, None);
    assert!(c.0.is_empty());
}

fn link(path: &str) -> Link {
    Link {
        path: path.into(),
        php: None,
        secure: true,
        runtime: None,
        watch: None,
        dev: None,
        xdebug: None,
        profile: false,
        preload: None,
        database: None,
        db_branch: None,
        db_port: None,
    }
}

fn config() -> LocalConfig {
    LocalConfig {
        tlds: vec!["test".into()],
        parked: vec![],
        links: vec![("blog".into(), link("/code/blog")), ("shop".into(), link("/code/shop"))],
        proxies: vec![],
        default_php: Some("8.2".into()),
        resolution: None,
        default_xdebug: None,
        xdebug: Settings::default(),
        tags: vec![],
        fpm_max_children: None,
    }
}

#[test]
fn the_local_site_comes_from_its_link() {
    let cfg = config();
    assert_eq!(parity_name(&cfg, Some("Shop"), "/anywhere"), Ok("shop".to_string()));
    assert_eq!(parity_name(&cfg, None, "/code/blog"), Ok("blog".to_string()));
    assert_eq!(
        parity_name(&cfg, None, "/tmp"),
        Err("/tmp isn't a linked site \u{2014} pass a site name, e.g. `dpl parity my-app`".to_string())
    );
    assert_eq!(link_of(&cfg, "nope").err(), Some("no linked site named `nope` (parity compares linked projects)".to_string()));
    let l = link_of(&cfg, "shop").unwrap();
    assert_eq!(public_dir(&l.path), "/code/shop/public");
    let s = local_site("shop", l, None, true, Some("8.2".into()));
    assert_eq!(s.docroot, "/code/shop/public");
    assert_eq!(s.php.as_deref(), Some("8.2"));
    let s = local_site("shop", l, None, false, None);
    assert_eq!(s.docroot, "/code/shop");
    assert_eq!(s.php, None);
    let s = local_site("shop", l, Some("/srv/web".into()), true, None);
    assert_eq!(s.docroot, "/srv/web");
    assert_eq!(daemon_docroot(&[], "shop"), None);
}

#[test]
fn the_report_gathers_every_category() {
    let local = LocalSite {
        name: "shop".into(),
        path: "/code/shop".into(),
        docroot: "/code/shop/public".into(),
        php: Some("8.3".into()),
    };
    let remote = json(r#"{"runtime_version":"8.3","server_name":"web-1","status":"active"}"#);
    let r = build(
        &local,
        "shop",
        &remote,
        None,
        None,
        None,
        &[],
        &strings(&["APP_KEY"]),
        &Ok(strings(&["APP_KEY"])),
        None,
    );
    assert_eq!(r.title, "dpl parity shop");
    assert_eq!(r.subtitle.as_deref(), Some("local shop.test  \u{2194}  dply shop on web-1"));
    assert_eq!(r.categories, vec!["Project", "PHP", "Environment"]);
    assert!(r.ok);
    assert_eq!(find(&r.checks, "parity.php_version")[0].status, Status::Pass);
    assert_eq!(find(&r.checks, "parity.env").len(), 1);
}
