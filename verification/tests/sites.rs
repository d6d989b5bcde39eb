use dpl::config::{Link, LocalConfig};
use dpl::sites::{
    detect_framework, detect_meta, detect_project, detect_required_php, docroot_for, framework_from_composer, name_for, node_framework_from_package,
    php_stack, required_php_from_composer, resolve, resolve_one, PackageJson, ProjectKind, SiteSource,
};
use dpl::xdebug::Settings;

fn files(names: &[&str]) -> Vec<String> {
    names.iter().map(|n| n.to_string()).collect()
}

fn deps(pairs: &[(&str, &str)]) -> Vec<(String, Option<String>)> {
    pairs.iter().map(|(k, v)| (k.to_string(), Some(v.to_string()))).collect()
}

fn pkg(pairs: &[(&str, &str)]) -> PackageJson {
    PackageJson { dependencies: deps(pairs), dev_dependencies: vec![] }
}

#[test]
fn detects_laravel_with_version() {
    let composer = r#"{"require":{"php":"^8.3","laravel/framework":"^11.0"}}"#;
    assert_eq!(detect_framework(Some(composer), &files(&["composer.json"])), Some("Laravel (^11.0)".into()));
}

#[test]
fn composer_without_known_framework_is_php_composer() {
    let composer = r#"{"require":{"php":">=8.1"}}"#;
    assert_eq!(detect_framework(Some(composer), &files(&["composer.json"])), Some("PHP (Composer)".into()));
    assert_eq!(detect_required_php(Some(composer)), Some(">=8.1".into()));
}

#[test]
fn required_php_absent_is_none() {
    assert_eq!(detect_required_php(Some(r#"{"require":{"laravel/framework":"^11.0"}}"#)), None);
}

#[test]
fn no_composer_falls_back_to_well_known_files() {
    assert_eq!(detect_framework(None, &files(&["wp-config.php"])), Some("WordPress".into()));
    assert_eq!(detect_required_php(None), None);
}

#[test]
fn detects_node_frameworks_with_their_versions() {
    let cases = [
        (pkg(&[("next", "^15.0.1"), ("react", "^19.0.0")]), "Next.js (^15.0.1)"),
        (pkg(&[("nuxt", "^3.12.0"), ("vue", "^3.4.0")]), "Nuxt (^3.12.0)"),
        (pkg(&[("@sveltejs/kit", "^2.5.0"), ("svelte", "^4.2.0")]), "SvelteKit (^2.5.0)"),
        (pkg(&[("@nestjs/core", "^10.0.0")]), "NestJS (^10.0.0)"),
        (pkg(&[("express", "^4.19.2")]), "Express (^4.19.2)"),
        (pkg(&[("vue", "^3.4.0")]), "Vue (^3.4.0)"),
        (pkg(&[("react", "^19.0.0")]), "React (^19.0.0)"),
    ];
    for (p, expected) in cases {
        let meta = detect_project(None, true, Some(&p), &files(&["package.json"]));
        assert_eq!(meta.framework.as_deref(), Some(expected));
        assert_eq!(meta.kind, ProjectKind::Node);
    }
}

#[test]
fn the_meta_framework_beats_the_view_library_it_bundles() {
    let p = pkg(&[("react", "^19.0.0"), ("next", "^15.0.0")]);
    let meta = detect_project(None, true, Some(&p), &files(&["package.json"]));
    assert_eq!(meta.framework.as_deref(), Some("Next.js (^15.0.0)"));
}

#[test]
fn dev_dependencies_count_too() {
    let p = PackageJson { dependencies: vec![], dev_dependencies: deps(&[("astro", "^4.5.0")]) };
    let meta = detect_project(None, true, Some(&p), &files(&["package.json"]));
    assert_eq!(meta.framework.as_deref(), Some("Astro (^4.5.0)"));
}

#[test]
fn php_wins_the_headline_and_node_rides_along() {
    let composer = r#"{"require":{"php":"^8.3","laravel/framework":"^12.0"}}"#;
    let p = pkg(&[("vue", "^3.4.0"), ("vite", "^5.0.0")]);
    let meta = detect_project(Some(composer), true, Some(&p), &files(&["composer.json", "package.json"]));
    assert_eq!(meta.framework.as_deref(), Some("Laravel (^12.0)"));
    assert_eq!(meta.kind, ProjectKind::Php);
    assert_eq!(meta.requires_php.as_deref(), Some("^8.3"));
    assert_eq!(meta.node_framework.as_deref(), Some("Vue (^3.4.0)"));
}

#[test]
fn a_package_json_with_nothing_known_is_still_node() {
    let p = PackageJson { dependencies: vec![], dev_dependencies: vec![] };
    let meta = detect_project(None, true, Some(&p), &files(&["package.json"]));
    assert_eq!(meta.kind, ProjectKind::Node);
    assert_eq!(meta.framework.as_deref(), Some("Node"));
}

#[test]
fn a_folder_of_files_is_static_and_an_empty_one_is_unknown() {
    assert_eq!(detect_project(None, false, None, &files(&["index.html"])).kind, ProjectKind::Static);
    let meta = detect_project(None, false, None, &files(&["README.md"]));
    assert_eq!(meta.kind, ProjectKind::Unknown);
    assert_eq!(meta.framework, None);
}

#[test]
fn projects_in_other_languages_are_named() {
    for (file, label) in [("Cargo.toml", "Rust"), ("go.mod", "Go"), ("Package.swift", "Swift")] {
        let meta = detect_project(None, false, None, &files(&[file]));
        assert_eq!(meta.kind, ProjectKind::Other);
        assert_eq!(meta.framework.as_deref(), Some(label));
    }
}

#[test]
fn detects_the_laravel_stack_with_its_version() {
    let cases = [
        (r#"{"require":{"laravel/framework":"^12.0","filament/filament":"^3.2"}}"#, "Filament (^3.2)"),
        (r#"{"require":{"laravel/framework":"^12.0","inertiajs/inertia-laravel":"^1.0"}}"#, "Inertia (^1.0)"),
        (r#"{"require":{"laravel/framework":"^12.0","livewire/livewire":"^3.5"}}"#, "Livewire (^3.5)"),
        (r#"{"require":{"laravel/nova":"^4.0"}}"#, "Nova (^4.0)"),
    ];
    for (body, expected) in cases {
        let meta = detect_project(Some(body), false, None, &files(&["composer.json"]));
        assert_eq!(meta.stack.as_deref(), Some(expected), "for {body}");
    }
}

#[test]
fn the_more_specific_stack_wins() {
    let composer =
        r#"{"require":{"laravel/framework":"^12.0","livewire/livewire":"^3.5","filament/filament":"^3.2"}}"#;
    let meta = detect_project(Some(composer), false, None, &files(&["composer.json"]));
    assert_eq!(meta.stack.as_deref(), Some("Filament (^3.2)"));
}

#[test]
fn a_dev_dependency_stack_still_counts() {
    let composer = r#"{"require":{"laravel/framework":"^12.0"},"require-dev":{"laravel/breeze":"^2.0"}}"#;
    let meta = detect_project(Some(composer), false, None, &files(&["composer.json"]));
    assert_eq!(meta.stack.as_deref(), Some("Breeze (^2.0)"));
}

#[test]
fn a_plain_laravel_app_has_no_stack() {
    let composer = r#"{"require":{"laravel/framework":"^12.0"}}"#;
    let meta = detect_project(Some(composer), false, None, &files(&["composer.json"]));
    assert_eq!(meta.framework.as_deref(), Some("Laravel (^12.0)"));
    assert_eq!(meta.stack, None);
}

#[test]
fn a_web_manifest_beats_another_languages() {
    let composer = r#"{"require":{"laravel/framework":"^12.0"}}"#;
    let meta = detect_project(Some(composer), false, None, &files(&["composer.json", "go.mod"]));
    assert_eq!(meta.kind, ProjectKind::Php);
}

#[test]
fn wordpress_is_php_even_without_composer() {
    let meta = detect_project(None, false, None, &files(&["wp-config.php"]));
    assert_eq!(meta.framework.as_deref(), Some("WordPress"));
    assert_eq!(meta.kind, ProjectKind::Php);
}

#[test]
fn detect_meta_matches_the_two_separate_readers() {
    let cases = [
        r#"{"require":{"php":"^8.2","laravel/framework":"^12.0"}}"#,
        r#"{"require":{"symfony/framework-bundle":"^7.0"}}"#,
        r#"{"require":{"php":"~8.1"}}"#,
        r#"{}"#,
    ];
    let present = files(&["composer.json"]);
    for body in cases {
        let (fw, php) = detect_meta(Some(body), false, None, &present);
        assert_eq!(fw, detect_framework(Some(body), &present), "framework mismatch for {body}");
        assert_eq!(php, detect_required_php(Some(body)), "required_php mismatch for {body}");
    }
}

#[test]
fn composer_text_readers_agree_with_detection() {
    let text = r#"{ "require": { "php": "^8.2", "laravel/framework": "^11.0" } }"#;
    assert_eq!(framework_from_composer(text), "Laravel (^11.0)");
    assert_eq!(required_php_from_composer(text), Some("^8.2".into()));
    assert_eq!(php_stack(r#"{ "require-dev": { "laravel/breeze": "" } }"#), Some("Breeze".into()));
    assert_eq!(php_stack("{}"), None);
    let dev = PackageJson { dependencies: vec![], dev_dependencies: deps(&[("vite", "^5")]) };
    assert_eq!(node_framework_from_package(&dev), Some("Vite (^5)".into()));
}

#[test]
fn kinds_round_trip_through_their_names() {
    for k in [ProjectKind::Php, ProjectKind::Node, ProjectKind::Static, ProjectKind::Other, ProjectKind::Unknown] {
        assert_eq!(ProjectKind::parse(k.as_str()), Some(k));
    }
    assert_eq!(ProjectKind::parse(" NODE "), Some(ProjectKind::Node));
    assert_eq!(ProjectKind::parse("java"), None);
}

#[test]
fn names_come_from_the_last_component() {
    assert_eq!(name_for("/Users/me/Sites/Blog"), Some("blog".into()));
    assert_eq!(name_for("/Users/me/Sites/blog/"), Some("blog".into()));
    assert_eq!(name_for("/Users/me/Sites/blog/."), Some("blog".into()));
    assert_eq!(name_for("/Users/me/.."), None);
    assert_eq!(name_for("/"), None);
}

#[test]
fn the_docroot_is_public_when_it_exists() {
    assert_eq!(docroot_for("/p/app", &files(&["/p/app/public"])), "/p/app/public");
    assert_eq!(docroot_for("/p/app", &[]), "/p/app");
}

fn link(path: &str) -> Link {
    Link {
        path: path.into(),
        php: Some("8.3".into()),
        secure: true,
        runtime: None,
        watch: None,
        dev: None,
        xdebug: Some("develop,debug".into()),
        profile: false,
        preload: Some("preload.php".into()),
        database: None,
        db_branch: None,
        db_port: None,
    }
}

fn config() -> LocalConfig {
    LocalConfig {
        tlds: vec!["test".into()],
        parked: vec!["/Sites".into(), "/More".into()],
        links: vec![("shop".into(), link("/code/shop"))],
        proxies: vec![],
        default_php: Some("8.2".into()),
        resolution: None,
        default_xdebug: Some("bogus".into()),
        xdebug: Settings::default(),
        tags: vec![("blog".into(), vec!["wip".into()])],
        fpm_max_children: None,
    }
}

#[test]
fn a_link_wins_and_carries_its_settings() {
    let s = resolve_one(&config(), "Shop", &files(&["/Sites/shop", "/code/shop/public"])).unwrap();
    assert_eq!(s.name, "shop");
    assert_eq!(s.source, SiteSource::Linked);
    assert_eq!(s.docroot, "/code/shop/public");
    assert_eq!(s.php.as_deref(), Some("8.3"));
    assert_eq!(s.xdebug.as_str(), "debug,develop");
    assert_eq!(s.preload.as_deref(), Some("/code/shop/preload.php"));
    assert!(s.watch);
    assert_eq!(s.host(), "shop.test");
    assert_eq!(s.url(), "https://shop.test");
}

#[test]
fn a_parked_directory_resolves_from_the_first_root_that_has_it() {
    let s = resolve_one(&config(), "blog", &files(&["/More/blog", "/Sites/blog"])).unwrap();
    assert_eq!(s.source, SiteSource::Parked);
    assert_eq!(s.path, "/Sites/blog");
    assert_eq!(s.php.as_deref(), Some("8.2"));
    assert_eq!(s.xdebug.as_str(), "off");
    assert_eq!(s.tags, vec!["wip"]);
    assert_eq!(s.url(), "http://blog.test");
    assert!(resolve_one(&config(), "missing", &[]).is_none());
    assert!(resolve_one(&config(), ".hidden", &files(&["/Sites/.hidden"])).is_none());
    assert!(resolve_one(&config(), "", &[]).is_none());
}

#[test]
fn resolve_lists_links_then_parked_directories_by_name() {
    let entries = files(&["/Sites/zeta", "/Sites/Shop", "/Sites/.git", "/Sites/notes.txt", "/More/Blog", "/More/zeta"]);
    let dirs = files(&["/Sites/zeta", "/Sites/Shop", "/Sites/.git", "/More/Blog", "/More/zeta", "/More/Blog/public"]);
    let sites = resolve(&config(), &entries, &dirs);
    let names: Vec<&str> = sites.iter().map(|s| s.name.as_str()).collect();
    assert_eq!(names, vec!["blog", "shop", "zeta"]);
    // The link wins over the parked directory of the same name.
    assert_eq!(sites[1].source, SiteSource::Linked);
    assert_eq!(sites[1].path, "/code/shop");
    // The first parked folder holding a name wins.
    assert_eq!(sites[2].path, "/Sites/zeta");
    assert_eq!(sites[0].path, "/More/Blog");
    assert_eq!(sites[0].docroot, "/More/Blog/public");
    assert_eq!(sites[0].tags, vec!["wip"]);
    assert_eq!(sites[0].php.as_deref(), Some("8.2"));
    assert!(resolve(&config(), &[], &[]).iter().all(|s| s.source == SiteSource::Linked));
}

#[test]
fn resolving_one_name_agrees_with_listing_them_all() {
    let entries = files(&["/Sites/blog", "/Sites/shop", "/More/blog", "/More/zeta"]);
    let dirs = entries.clone();
    let all = resolve(&config(), &entries, &dirs);
    for name in ["blog", "shop", "zeta", "missing"] {
        let one = resolve_one(&config(), name, &dirs);
        let listed = all.iter().find(|s| s.name == name);
        assert_eq!(one.is_some(), listed.is_some(), "{name}");
        if let (Some(a), Some(b)) = (one, listed) {
            assert_eq!(a.path, b.path);
            assert_eq!(a.source, b.source);
        }
    }
}
