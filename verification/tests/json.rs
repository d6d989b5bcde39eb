use dpl::dply::{decode_error_envelope, default_status_message, parse_env_file, split_kv, DplyApiError};
use dpl::json::{cell, cell_of, dig, field, rows, unwrap_data, Json};
use dpl::output::{detail, dump, table};

fn s(v: &str) -> Json {
    Json::Str(v.to_string())
}

fn n(v: &str) -> Json {
    Json::Number(v.to_string())
}

fn obj(members: Vec<(&str, Json)>, text: &str) -> Json {
    Json::Object(members.into_iter().map(|(k, v)| (k.to_string(), v)).collect(), text.to_string())
}

fn site() -> Json {
    obj(
        vec![
            ("id", s("s1")),
            ("name", s("alpha")),
            ("live_url", Json::Null),
            ("hostname", s("alpha.test")),
            ("build", obj(vec![("framework", s("laravel"))], "{\"framework\":\"laravel\"}")),
            ("size", n("12")),
            ("ok", Json::Bool(true)),
        ],
        "{..}",
    )
}

#[test]
fn fields_fall_back_and_follow_dotted_paths() {
    let v = site();
    assert_eq!(cell_of(&v, &["live_url", "hostname"]), "alpha.test");
    assert_eq!(cell_of(&v, &["build.framework", "framework"]), "laravel");
    assert_eq!(cell_of(&v, &["missing"]), "");
    assert_eq!(cell_of(&v, &["size"]), "12");
    assert_eq!(cell_of(&v, &["ok"]), "true");
    assert_eq!(cell_of(&v, &["build"]), "{\"framework\":\"laravel\"}");
    assert!(matches!(dig(&v, "build.framework"), Some(Json::Str(x)) if x == "laravel"));
    assert!(dig(&v, "name.first").is_none());
    assert!(field(&v, &["live_url"]).is_none());
    assert_eq!(cell(None), "");
    assert_eq!(cell(Some(&Json::Null)), "");
}

#[test]
fn payloads_become_rows_and_lose_their_data_envelope() {
    let list = Json::Array(vec![site(), site()], "[..]".into());
    assert_eq!(rows(&list).len(), 2);
    assert_eq!(rows(&Json::Null).len(), 0);
    assert_eq!(rows(&site()).len(), 1);
    let wrapped = obj(vec![("data", Json::Array(vec![site()], "[..]".into()))], "{..}");
    assert!(matches!(unwrap_data(wrapped), Json::Array(v, _) if v.len() == 1));
    let scalar_data = obj(vec![("data", s("x"))], "{\"data\":\"x\"}");
    assert!(matches!(unwrap_data(scalar_data), Json::Object(m, _) if m.len() == 1));
    assert!(matches!(unwrap_data(s("y")), Json::Str(x) if x == "y"));
}

#[test]
fn tables_align_columns_and_trim_rows() {
    let list = Json::Array(
        vec![
            obj(vec![("id", s("1")), ("name", s("a"))], "{}"),
            obj(vec![("id", s("22")), ("name", s("long name"))], "{}"),
        ],
        "[]".into(),
    );
    let lines = table(&list, &[("ID", &["id"]), ("NAME", &["name"]), ("X", &["x"])]);
    assert_eq!(lines, vec!["ID  NAME       X", "--  ---------  -", "1   a", "22  long name"]);
    assert_eq!(table(&Json::Null, &[("ID", &["id"])]), vec!["(none)"]);
}

#[test]
fn details_skip_empty_fields_and_pad_labels() {
    let lines = detail(&site(), &[("ID", &["id"]), ("Live URL", &["live_url"]), ("Framework", &["build.framework"])]);
    assert_eq!(lines, vec!["ID         s1", "Framework  laravel"]);
}

#[test]
fn dumps_list_every_member() {
    let v = obj(
        vec![("a", n("1")), ("items", Json::Array(vec![n("1"), n("2")], "[1,2]".into())), ("nested", obj(vec![], "{}"))],
        "{..}",
    );
    assert_eq!(dump(&v).unwrap(), vec!["a       1", "items   (2 items)", "nested  {}"]);
    assert!(dump(&s("x")).is_none());
}

#[test]
fn status_messages_cover_the_common_failures() {
    assert_eq!(default_status_message(401), "unauthorized \u{2014} token missing or expired");
    assert_eq!(default_status_message(404), "not found");
    assert_eq!(default_status_message(503), "dply server error");
    assert_eq!(default_status_message(418), "request failed (418)");
}

#[test]
fn error_envelopes_decode_into_api_errors() {
    let body = "{\"message\":\"Validation failed\",\"errors\":{\"site\":[\"The site does not exist.\"]}}";
    let parsed = obj(
        vec![
            ("errors", obj(vec![
                ("zone", n("3")),
                ("site", Json::Array(vec![s("The site does not exist."), n("1")], "[..]".into())),
                ("name", s("taken")),
            ], "{..}")),
            ("message", s("Validation failed")),
        ],
        body,
    );
    let e = decode_error_envelope(422, "GET", "/api/v1/edge/sites/nope", body, Some(&parsed));
    assert_eq!(e.status(), Some(422));
    assert!(!e.is_auth());
    match e {
        DplyApiError::Api { status, method, path, message, errors, raw } => {
            assert_eq!(status, 422);
            assert_eq!(method, "GET");
            assert_eq!(path, "/api/v1/edge/sites/nope");
            assert_eq!(message, "Validation failed");
            assert_eq!(
                errors,
                vec![
                    ("name".to_string(), vec!["taken".to_string()]),
                    ("site".to_string(), vec!["The site does not exist.".to_string()]),
                    ("zone".to_string(), vec!["3".to_string()]),
                ]
            );
            assert_eq!(raw, body);
        }
        other => panic!("expected Api error, got {other:?}"),
    }
    let long = "x".repeat(1500);
    match decode_error_envelope(401, "POST", "/p", &long, None) {
        DplyApiError::Api { message, errors, raw, status, .. } => {
            assert_eq!(message, "unauthorized \u{2014} token missing or expired");
            assert!(errors.is_empty());
            assert_eq!(raw.chars().count(), 1001);
            assert!(raw.ends_with('\u{2026}'));
            assert!(DplyApiError::Api {
                status,
                method: String::new(),
                path: String::new(),
                message: String::new(),
                errors: vec![],
                raw: String::new()
            }
            .is_auth());
        }
        other => panic!("expected Api error, got {other:?}"),
    }
    assert!(DplyApiError::NotAuthenticated { host: "h".into() }.is_auth());
}

#[test]
fn env_files_and_pairs_split_at_the_first_equals() {
    let text = "# comment\n\nexport APP_KEY=\"base64:abc=\"\n DB_HOST = localhost \nNAME='x'\n=novalue\nnoequals\n";
    let pairs = parse_env_file(text);
    assert_eq!(
        pairs,
        vec![
            ("APP_KEY".to_string(), "base64:abc=".to_string()),
            ("DB_HOST".to_string(), "localhost".to_string()),
            ("NAME".to_string(), "x".to_string()),
        ]
    );
    assert_eq!(split_kv("A=b=c").unwrap(), ("A".to_string(), "b=c".to_string()));
    assert_eq!(split_kv("=b").unwrap_err(), "expected KEY=value, got `=b`");
    assert!(split_kv("nothing").is_err());
}
