use dpl::config_store::HostEntry;
use dpl::dply::{action_line, lint_file_names, lint_report, log_page, mask, whoami_lines};
use dpl::json::Json;

fn to_json(v: &serde_json::Value) -> Json {
    match v {
        serde_json::Value::Null => Json::Null,
        serde_json::Value::Bool(b) => Json::Bool(*b),
        serde_json::Value::Number(n) => Json::Number(n.to_string()),
        serde_json::Value::String(s) => Json::Str(s.clone()),
        serde_json::Value::Array(a) => Json::Array(a.iter().map(to_json).collect(), v.to_string()),
        serde_json::Value::Object(m) => {
            Json::Object(m.iter().map(|(k, x)| (k.clone(), to_json(x))).collect(), v.to_string())
        }
    }
}

fn json(text: &str) -> Json {
    to_json(&serde_json::from_str::<serde_json::Value>(text).unwrap())
}

#[test]
fn tokens_are_masked_but_recognisable() {
    assert_eq!(mask("abcd1234"), "\u{2022}".repeat(8));
    assert_eq!(mask(""), "");
    assert_eq!(mask("abcdefghijkl"), "abcd\u{2026}ijkl");
}

#[test]
fn actions_report_their_id_and_status() {
    assert_eq!(action_line(&json(r#"{"id":7,"status":"queued"}"#), "Deployed"), "\u{2713} Deployed (id 7, queued)");
    assert_eq!(action_line(&json(r#"{"id":"d-1"}"#), "Purged"), "\u{2713} Purged (id d-1)");
    assert_eq!(action_line(&json(r#"{"status":"ok"}"#), "Done"), "\u{2713} Done");
}

#[test]
fn lint_reports_errors_then_warnings() {
    let (ok, lines) = lint_report(&json(r#"{"ok":false,"errors":["bad key"],"warnings":["old field",{"x":1}]}"#));
    assert!(!ok);
    assert_eq!(lines, vec!["\u{2717} bad key", "\u{26a0} old field", "\u{26a0} {\"x\":1}"]);
    let (ok, lines) = lint_report(&json(r#"{"ok":true}"#));
    assert!(ok);
    assert!(lines.is_empty());
    assert!(!lint_report(&json(r#"{"ok":"yes"}"#)).0);
    assert_eq!(lint_file_names(), vec!["dply.yaml", "dply.yml", "dply.json"]);
}

#[test]
fn log_pages_print_rows_and_advance_the_window() {
    let page = json(
        r#"[{"timestamp":"t1","status":200,"method":"GET","path":"/","ms":12,"message":"ok"},
            {"logged_at":"t2","status":5,"method":"DELETE","url":"/x","ms":3}]"#,
    );
    let (lines, since) = log_page(&page, Some("t0".into()));
    assert_eq!(lines, vec!["t1  200 GET    / 12ms ok", "t2    5 DELETE /x 3ms "]);
    assert_eq!(since.as_deref(), Some("t2"));
    let (lines, since) = log_page(&json("[]"), Some("t0".into()));
    assert!(lines.is_empty());
    assert_eq!(since.as_deref(), Some("t0"));
}

#[test]
fn whoami_shows_the_profile_without_the_token() {
    let entry = HostEntry {
        token: "tok-1234567890".into(),
        user: r#"{"operator":{"name":"Tom","email":"tom@x.test"}}"#.into(),
        updated_at: "2024-01-01".into(),
    };
    let user = json(&entry.user);
    assert_eq!(
        whoami_lines("https://dply.io", Some(&entry), Some(&user)),
        vec!["Host:  https://dply.io", "Token: tok-\u{2026}7890", "User:  Tom", "Email: tom@x.test", "Since: 2024-01-01"]
    );
    assert_eq!(
        whoami_lines("https://dply.io", None, None),
        vec!["Host:  https://dply.io", "Status: not logged in (run `dpl login`)"]
    );
}
