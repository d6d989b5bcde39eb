use dpl::doctor::{humanize_secs, local_target, parse_version};
use dpl::mail::{compose, decode_entities, human_size, parse_part, strip_tags, truncate, Part};
use dpl::parity::{env_file_keys, min_version, normalize_repo, same_repo, version};

#[test]
fn doctor_parses_versions_and_constraints() {
    assert_eq!(parse_version("8.3"), Some((8, 3)));
    assert_eq!(parse_version("^8.2"), Some((8, 2)));
    assert_eq!(parse_version(">=7.4.0"), Some((7, 4)));
    assert_eq!(parse_version("8"), Some((8, 0)));
    assert_eq!(parse_version("none"), None);
}

#[test]
fn only_local_proxy_targets_are_probeable() {
    assert_eq!(local_target("http://localhost:3000"), Some(("localhost".into(), 3000)));
    assert_eq!(local_target("http://127.0.0.1:8000/app"), Some(("127.0.0.1".into(), 8000)));
    assert_eq!(local_target("https://example.com"), None);
}

#[test]
fn humanizes_uptime() {
    assert_eq!(humanize_secs(42), "42s");
    assert_eq!(humanize_secs(3 * 3600 + 120), "3h 2m");
    assert_eq!(humanize_secs(50 * 3600), "2d 2h");
}

#[test]
fn local_targets_default_their_port_by_scheme() {
    assert_eq!(local_target("https://localhost"), Some(("localhost".into(), 443)));
    assert_eq!(local_target("localhost"), Some(("localhost".into(), 80)));
    assert_eq!(local_target("http://localhost:notaport"), None);
    assert_eq!(humanize_secs(59), "59s");
    assert_eq!(humanize_secs(3599), "59m");
}

#[test]
fn compose_html_is_multipart_with_both_bodies() {
    let msg = compose("a@b.test", "c@d.test", "Hi", true, None);
    assert!(msg.contains("Content-Type: multipart/alternative"));
    assert!(msg.contains("Content-Type: text/plain"));
    assert!(msg.contains("Content-Type: text/html"));
    assert!(msg.trim_end().ends_with("--dpl-boundary-8f2a--"));
}

#[test]
fn compose_plain_has_no_multipart() {
    let msg = compose("a@b.test", "c@d.test", "Hi", false, Some("body"));
    assert!(!msg.contains("multipart"));
    assert!(msg.ends_with("body"));
}

#[test]
fn human_size_reads_naturally() {
    assert_eq!(human_size(512), "512 B");
    assert_eq!(human_size(2048), "2.0 KB");
    assert_eq!(human_size(5 * 1024 * 1024), "5.0 MB");
}

#[test]
fn human_size_rounds_to_one_decimal() {
    assert_eq!(human_size(1023), "1023 B");
    assert_eq!(human_size(1536), "1.5 KB");
    assert_eq!(human_size(1280), format!("{:.1} KB", 1280f64 / 1024f64));
    assert_eq!(human_size(1331), format!("{:.1} KB", 1331f64 / 1024f64));
    assert_eq!(human_size(3_500_000), format!("{:.1} MB", 3_500_000f64 / 1_048_576f64));
}

#[test]
fn strip_tags_drops_markup_for_search() {
    assert_eq!(strip_tags("<p class=\"reset\">Hello <b>world</b></p>").trim(), "Hello world");
    assert_eq!(strip_tags("a &amp; b&nbsp;c"), "a & b c");
}

#[test]
fn entities_in_urls_are_decoded() {
    assert_eq!(decode_entities("x?a=1&amp;b=2&#38;c=&quot;3&quot;"), "x?a=1&b=2&c=\"3\"");
}

#[test]
fn long_text_is_cut_with_an_ellipsis() {
    assert_eq!(truncate("hello", 10), "hello");
    assert_eq!(truncate("hello world", 5), "hell\u{2026}");
}

#[test]
fn parts_parse_in_any_case() {
    assert_eq!(parse_part("HTML"), Ok(Part::Html));
    assert_eq!(parse_part("raw"), Ok(Part::Raw));
    assert_eq!(parse_part("pdf"), Err("unknown part `pdf` (raw|html|text|headers)".to_string()));
}

#[test]
fn compares_repo_urls_across_forms() {
    assert!(same_repo("git@github.com:shaferllc/lookout.git", "https://github.com/shaferllc/lookout.git"));
    assert!(same_repo("https://github.com/a/b", "https://github.com/a/b.git"));
    assert!(!same_repo("git@github.com:a/b.git", "https://github.com/a/c.git"));
}

#[test]
fn parity_parses_versions_and_constraints() {
    assert_eq!(version("8.3"), Some((8, 3)));
    assert_eq!(version("php8.2"), Some((8, 2)));
    assert_eq!(version("8.4.1"), Some((8, 4)));
    assert_eq!(min_version("^8.2"), Some((8, 2)));
    assert_eq!(min_version(">=7.4.0"), Some((7, 4)));
}

#[test]
fn repo_keys_drop_scheme_user_and_suffix() {
    assert_eq!(normalize_repo(" https://GitHub.com/A/B.git/ "), "github.com/a/b");
    assert_eq!(normalize_repo("git@github.com:a/b.git"), "github.com/a/b");
}

#[test]
fn reads_env_key_names_without_values() {
    let keys = env_file_keys("# comment\nAPP_KEY=base64:secret\n\nexport DB_PASSWORD = hunter2\nBAD_LINE\n");
    assert_eq!(keys, vec!["APP_KEY", "DB_PASSWORD"]);
    assert!(!keys.iter().any(|k| k.contains("hunter2") || k.contains("secret")));
}
