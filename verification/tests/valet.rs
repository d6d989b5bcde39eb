use dpl::json::Json;
use dpl::valet::{
    import_selection, link_target, parked_dirs, read_manifest, removal_selection, sort_links, valet_lines,
    valet_settings, ValetInfo, ValetLink,
};

fn to_json(v: &serde_json::Value) -> Json {
    match v {
        serde_json::Value::Null => Json::Null,
        serde_json::Value::Bool(b) => Json::Bool(*b),
        serde_json::Value::Number(n) => Json::Number(n.to_string()),
        serde_json::Value::String(s) => Json::Str(s.clone()),
        serde_json::Value::Array(a) => Json::Array(a.iter().map(to_json).collect(), v.to_string()),
        serde_json::Value::Object(m) => {
            Json::Object(m.iter().map(|(k, x)| (k.clone(), to_json(x))).collect(), v.to_string())
        }
    }
}

fn json(text: &str) -> Json {
    to_json(&serde_json::from_str::<serde_json::Value>(text).unwrap())
}

fn strings(v: &[&str]) -> Vec<String> {
    v.iter().map(|s| s.to_string()).collect()
}

fn link(name: &str, path: &str, exists: bool) -> ValetLink {
    ValetLink { name: name.into(), path: path.into(), exists }
}

#[test]
fn valet_config_gives_the_tld_and_parked_paths() {
    let cfg = json(r#"{"tld":"dev","paths":["/Users/me/Sites","/Users/me/.config/valet/Sites",3]}"#);
    let (tld, paths) = valet_settings(Some(&cfg));
    assert_eq!(tld, "dev");
    assert_eq!(paths, vec!["/Users/me/Sites", "/Users/me/.config/valet/Sites"]);
    assert_eq!(valet_settings(None), ("test".to_string(), vec![]));
    let parked = parked_dirs(&paths, "/Users/me/.config/valet/Sites", &strings(&["/Users/me/Sites", "/Users/me/.config/valet/Sites"]));
    assert_eq!(parked, vec!["/Users/me/Sites"]);
    assert!(parked_dirs(&paths, "/x", &[]).is_empty());
    assert_eq!(link_target(None, Some("/t".into())), "/t");
    assert_eq!(link_target(Some("/r".into()), Some("/t".into())), "/r");
    assert_eq!(link_target(None, None), "");
}

#[test]
fn links_sort_by_name_and_only_live_ones_import() {
    let sorted = sort_links(vec![link("shop", "/c/shop", true), link("api", "/c/api", false), link("blog", "/c/blog", true)]);
    let names: Vec<&str> = sorted.iter().map(|l| l.name.as_str()).collect();
    assert_eq!(names, vec!["api", "blog", "shop"]);
    let info = ValetInfo { installed: true, tld: "test".into(), parked: strings(&["/Sites"]), linked: sorted };
    let (parked, links) = import_selection(&info, true, true).unwrap();
    assert_eq!(parked, vec!["/Sites"]);
    assert_eq!(links, vec![("blog".to_string(), "/c/blog".to_string()), ("shop".to_string(), "/c/shop".to_string())]);
    let (parked, links) = import_selection(&info, false, true).unwrap();
    assert!(parked.is_empty());
    assert_eq!(links.len(), 2);
    let (parked, names) = removal_selection(&info);
    assert_eq!(parked, vec!["/Sites"]);
    assert_eq!(names, vec!["api", "blog", "shop"]);
    let none = ValetInfo { installed: false, tld: "test".into(), parked: vec![], linked: vec![] };
    assert_eq!(
        import_selection(&none, true, true),
        Err("No Laravel Valet install found (looked in ~/.config/valet and ~/.valet).".to_string())
    );
}

#[test]
fn manifests_select_parked_dirs_and_named_links() {
    let m = json(r#"{"parked":["/a",1],"links":[{"name":"x","path":"/x"},{"name":"y"},{"path":"/z","name":"z"}]}"#);
    let (parked, links) = read_manifest(&m);
    assert_eq!(parked, vec!["/a"]);
    assert_eq!(links, vec![("x".to_string(), "/x".to_string()), ("z".to_string(), "/z".to_string())]);
    assert_eq!(read_manifest(&json("{}")), (vec![], vec![]));
}

#[test]
fn the_valet_listing_reports_what_it_found() {
    let info = ValetInfo {
        installed: true,
        tld: "test".into(),
        parked: vec![],
        linked: vec![link("blog", "/c/blog", false)],
    };
    let lines = valet_lines(&info);
    assert_eq!(lines[0], "Valet TLD: .test");
    assert_eq!(lines[2], "Parked directories (0):");
    assert_eq!(lines[3], "  (none)");
    assert_eq!(lines[5], "Linked sites (1):");
    assert_eq!(lines[6], format!("  {:<28} {}  (missing)", "blog", "/c/blog"));
    assert_eq!(lines.last().map(String::as_str), Some("Import them with: dpl valet import"));
    assert_eq!(dpl::spx::profiler_url("http://blog.test/"), "http://blog.test/?SPX_UI_URI=/&SPX_KEY=dpl-local");
}
