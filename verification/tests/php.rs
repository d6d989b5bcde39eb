use dpl::php::{
    cellar_keg_version, cellar_php_is, detect, is_php_formula, keg_binary, keg_probe, keg_so_paths,
    path_candidate_names, startup_load_errors, version_of,
};

fn names(v: &[&str]) -> Vec<String> {
    v.iter().map(|s| s.to_string()).collect()
}

#[test]
fn detection_keeps_the_first_of_each_version_newest_first() {
    let found = vec![
        ("/opt/homebrew/opt/php@8.2/bin/php".to_string(), "homebrew".to_string(), Some("8.2".to_string())),
        ("/opt/homebrew/opt/php/bin/php".to_string(), "homebrew".to_string(), Some("8.4".to_string())),
        ("/usr/bin/php".to_string(), "path".to_string(), Some("8.2".to_string())),
        ("/usr/bin/php8.3".to_string(), "path".to_string(), Some("8.3".to_string())),
        ("/usr/bin/broken".to_string(), "path".to_string(), None),
    ];
    let d = detect(&found);
    let versions: Vec<&str> = d.iter().map(|p| p.version.as_str()).collect();
    assert_eq!(versions, vec!["8.4", "8.3", "8.2"]);
    assert_eq!(d[2].binary, "/opt/homebrew/opt/php@8.2/bin/php");
    assert_eq!(d[2].source, "homebrew");
    assert_eq!(d[1].source, "path");
    assert!(detect(&[]).is_empty());
}

#[test]
fn version_of_needs_a_dotted_answer() {
    assert_eq!(version_of(Some(" 8.3\n")).as_deref(), Some("8.3"));
    assert_eq!(version_of(Some("83")), None);
    assert_eq!(version_of(None), None);
}

#[test]
fn homebrew_php_formulae_are_recognised() {
    assert!(is_php_formula("php"));
    assert!(is_php_formula("php@8.3"));
    assert!(!is_php_formula("php-cs-fixer"));
    assert_eq!(path_candidate_names(), vec!["php", "php8", "php8.4", "php8.3", "php8.2", "php8.1", "php8.0"]);
}

#[test]
fn startup_warnings_name_the_missing_libraries() {
    let stderr = "PHP Warning:  PHP Startup: Unable to load dynamic library 'redis.so' (tried: /x/redis.so)\n\
                  PHP Notice: something else 'x'\n\
                  Warning: PHP Startup: Unable to load dynamic library '/opt/ext/imagick.so' in Unknown\n";
    assert_eq!(startup_load_errors(stderr), vec!["redis.so", "/opt/ext/imagick.so"]);
    assert!(startup_load_errors("").is_empty());
    assert!(startup_load_errors("Unable to load dynamic library 'unterminated\n").is_empty());
}

#[test]
fn keg_versions_come_from_cellar_entries() {
    assert_eq!(cellar_keg_version(&names(&["8.3.1", "8.3.12", ".DS_Store"]), &[], "8.3").as_deref(), Some("8.3.12"));
    assert_eq!(cellar_keg_version(&[], &names(&["8.4.2"]), "8.4").as_deref(), Some("8.4.2"));
    assert_eq!(cellar_keg_version(&[], &names(&["8.4.2"]), "8.3"), None);
    assert!(cellar_php_is(&names(&["8.4.2"]), "8.4"));
    assert!(!cellar_php_is(&names(&["8.40.1"]), "8.4"));
    let p = keg_probe("8.4", false, &[], &names(&["8.4.2"]), true, false);
    assert!(p.keg);
    assert_eq!(p.installed_version.as_deref(), Some("8.4.2"));
    let p = keg_probe("8.2", false, &names(&["8.2.1"]), &names(&["8.4.2"]), false, false);
    assert!(!p.keg);
    assert_eq!(p.installed_version, None);
}

#[test]
fn keg_binaries_prefer_the_versioned_formula() {
    assert_eq!(
        keg_binary("/opt/homebrew", "8.3", true, true, &[]).as_deref(),
        Some("/opt/homebrew/opt/php@8.3/bin/php")
    );
    assert_eq!(
        keg_binary("/opt/homebrew", "8.4", false, true, &names(&["8.4.2"])).as_deref(),
        Some("/opt/homebrew/opt/php/bin/php")
    );
    assert_eq!(keg_binary("/opt/homebrew", "8.3", false, true, &names(&["8.4.2"])), None);
    assert_eq!(
        keg_so_paths("xdebug", "8.3"),
        vec![
            "/opt/homebrew/opt/xdebug@8.3/xdebug.so",
            "/usr/local/opt/xdebug@8.3/xdebug.so",
            "/home/linuxbrew/.linuxbrew/opt/xdebug@8.3/xdebug.so"
        ]
    );
}
