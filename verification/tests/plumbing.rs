use dpl::checks::{Check, Checks, Fix, Report, Status};
use dpl::config_store::{ConfigFile, ConfigStore};
use dpl::dply::{device_code_from_start, poll_outcome, url, user_agent, DeviceStatus};
use dpl::error::CoreError;
use dpl::ipc::{check_protocol, encode_frame, frame_length, Envelope, ProtocolError, MAX_FRAME};
use dpl::keel::{login_entry, KeelApiError, KeelConfig, DEFAULT_URL};
use dpl::paths::{daemon_socket, dpl_dir, dply_config, home, join, local_config, mail_dir};
use dpl::php::{catalog, default_binary, default_version, resolve, KegProbe, PhpVersion};
use dpl::PROTOCOL_VERSION;

#[test]
fn paths_join_like_the_platform() {
    assert_eq!(join("/home/me", ".dpl"), "/home/me/.dpl");
    assert_eq!(join("/home/me/", ".dpl"), "/home/me/.dpl");
    assert_eq!(join("/home/me", "/abs"), "/abs");
    assert_eq!(dpl_dir("/h"), "/h/.dpl");
    assert_eq!(local_config("/h"), "/h/.dpl/config.toml");
    assert_eq!(dply_config("/h"), "/h/.dply/config.json");
    assert_eq!(mail_dir("/h"), "/h/.dpl/mail");
    assert_eq!(daemon_socket("/h", None), "/h/.dpl/run/dpld.sock");
    assert_eq!(daemon_socket("/h", Some("/run/user/1")), "/run/user/1/dpl/dpld.sock");
    assert_eq!(daemon_socket("/h", Some("")), "/h/.dpl/run/dpld.sock");
}

#[test]
fn home_prefers_the_override_then_home() {
    assert_eq!(home(Some("/o"), Some("/e"), Some("/p")).unwrap(), "/o");
    assert_eq!(home(Some(""), Some("/e"), Some("/p")).unwrap(), "/e");
    assert_eq!(home(None, Some(""), Some("/p")).unwrap(), "/p");
    assert!(matches!(home(None, None, None), Err(CoreError::NoHome)));
}

#[test]
fn frames_carry_their_length() {
    let f = encode_frame(b"hello").unwrap();
    assert_eq!(f, vec![0, 0, 0, 5, b'h', b'e', b'l', b'l', b'o']);
    assert_eq!(frame_length([0, 0, 0, 5]), Ok(5));
    assert_eq!(frame_length([0, 0x40, 0, 0]), Ok(MAX_FRAME));
    assert_eq!(frame_length([0, 0x40, 0, 1]), Err(ProtocolError::FrameTooLarge(MAX_FRAME + 1)));
    assert_eq!(ProtocolError::FrameTooLarge(7).message(), "frame too large: 7 bytes");
    assert_eq!(ProtocolError::Truncated.message(), "connection closed mid-frame");
}

#[test]
fn a_mismatched_peer_is_refused() {
    assert_eq!(check_protocol(PROTOCOL_VERSION), Ok(()));
    assert_eq!(
        check_protocol(2),
        Err(ProtocolError::VersionMismatch { client: PROTOCOL_VERSION, daemon: 2 })
    );
    assert_eq!(
        ProtocolError::VersionMismatch { client: 1, daemon: 2 }.message(),
        "daemon speaks protocol v2, this client speaks v1; upgrade the mismatched binary"
    );
    let e = Envelope::new("ping");
    assert_eq!(e.protocol, PROTOCOL_VERSION);
    assert_eq!(e.payload, "ping");
}

#[test]
fn host_and_token_lifecycle() {
    let store = ConfigStore::new(Some("/tmp/home".into()));
    let mut file = ConfigFile { default_host: None, hosts: vec![] };

    assert_eq!(store.resolve_host(None, None, None), "https://dply.io");

    store.set_host(&mut file, "https://dply.example/", "tok-1", r#"{"operator":{"name":"Tom"}}"#, "2024-01-01T00:00:00+00:00", true);
    assert_eq!(store.resolve_host(None, None, file.default_host.as_deref()), "https://dply.example");
    assert_eq!(store.token_for(&file, "https://dply.example", None).as_deref(), Some("tok-1"));
    assert_eq!(store.resolve_host(Some("https://other.test"), None, Some("https://dply.example")), "https://other.test");
    assert_eq!(store.resolve_host(None, Some("https://env-host.test"), Some("https://dply.example")), "https://env-host.test");
    assert_eq!(store.resolve_host(Some("https://flag.test"), Some("https://env-host.test"), Some("https://dply.example")), "https://flag.test");
    assert_eq!(store.token_for(&file, "https://dply.example", Some("env-token")).as_deref(), Some("env-token"));

    store.set_host(&mut file, "https://second.test", "tok-2", "{}", "2024-01-02T00:00:00+00:00", true);
    assert_eq!(store.default_host(&file).as_deref(), Some("https://second.test"));
    assert!(store.forget_host(&mut file, "https://second.test"));
    assert_eq!(store.default_host(&file).as_deref(), Some("https://dply.example"));
    assert!(store.token_for(&file, "https://second.test", None).is_none());
    assert!(!store.forget_host(&mut file, "https://never.test"));

    let path = store.path(None, None).unwrap();
    assert!(path.ends_with(".dply/config.json"));
}

#[test]
fn hosts_are_keyed_by_their_normal_form() {
    assert_eq!(ConfigStore::normalize_host("  HTTPS://Dply.IO// "), "https://dply.io");
    let store = ConfigStore::new(None);
    let mut file = ConfigFile { default_host: Some("https://keep.test".into()), hosts: vec![] };
    store.set_host(&mut file, "https://b.test", "b", "{}", "t", false);
    store.set_host(&mut file, "https://a.test", "a", "{\"id\":1}", "t", false);
    store.set_host(&mut file, "HTTPS://B.test/", "b2", "{}", "t2", false);
    let keys: Vec<&str> = file.hosts.iter().map(|(k, _)| k.as_str()).collect();
    assert_eq!(keys, vec!["https://a.test", "https://b.test"]);
    assert_eq!(store.host_entry(&file, "https://b.test").unwrap().token, "b2");
    assert_eq!(store.host_entry(&file, "https://a.test").unwrap().user, "{\"id\":1}");
    assert_eq!(file.default_host.as_deref(), Some("https://keep.test"));
}

#[test]
fn device_flow_decisions() {
    assert_eq!(user_agent("1.2.3"), "dpl/1.2.3");
    assert_eq!(url("https://dply.io/", "/api/v1/auth/device/start"), "https://dply.io/api/v1/auth/device/start");
    let p = poll_outcome(429, Some("authorized"), Some("t"));
    assert_eq!(p.status, DeviceStatus::Pending);
    assert!(p.token.is_none());
    let p = poll_outcome(200, Some("authorized"), Some("tok"));
    assert_eq!(p.status, DeviceStatus::Authorized);
    assert_eq!(p.token.as_deref(), Some("tok"));
    let p = poll_outcome(200, Some("denied"), Some("tok"));
    assert_eq!(p.status, DeviceStatus::Denied);
    assert!(p.token.is_none());
    assert_eq!(poll_outcome(200, None, None).status, DeviceStatus::Expired);
    assert_eq!(DeviceStatus::parse("weird"), DeviceStatus::Expired);

    let c = device_code_from_start(Some("d"), Some("u"), Some("v"), Some("vc"), None, Some(0)).unwrap();
    assert_eq!(c.expires_in, 600);
    assert_eq!(c.interval, 1);
    let e = device_code_from_start(Some("d"), Some(""), Some("v"), None, None, None).unwrap_err();
    assert_eq!(e, "device-flow start response missing field: user_code");
}

#[test]
fn keel_settings_precedence() {
    let cfg = KeelConfig::new(Some("/h"), None, None).unwrap();
    assert_eq!(cfg.path, "/h/.keel/cloud.json");
    assert!(matches!(KeelConfig::new(None, None, None), Err(KeelApiError::Config(_))));
    assert_eq!(cfg.url(Some("https://env.test/"), Some("https://file.test")), "https://env.test");
    assert_eq!(cfg.url(Some(""), Some("https://file.test/")), "https://file.test");
    assert_eq!(cfg.url(None, None), DEFAULT_URL);
    assert_eq!(cfg.token(Some(""), Some("keel_1")).as_deref(), Some("keel_1"));
    assert_eq!(cfg.token(Some("keel_env"), Some("keel_1")).as_deref(), Some("keel_env"));
    assert_eq!(login_entry(" keel_x \n", Some("https://app.keeljs.cloud/")), (None, "keel_x".to_string()));
    assert_eq!(login_entry("k", Some("https://self.host/")), (Some("https://self.host".to_string()), "k".to_string()));
}

fn check(category: &str, status: Status) -> Check {
    Check {
        id: "x".into(),
        category: category.into(),
        title: "t".into(),
        status,
        detail: "d".into(),
        hint: None,
        fix: None,
    }
}

#[test]
fn reports_count_and_keep_only_used_categories() {
    let checks = vec![check("PHP", Status::Pass), check("PHP", Status::Warn), check("Sites", Status::Fail)];
    let r = Report::new("dpl doctor", None, &["System", "PHP", "Sites"], checks);
    assert_eq!(r.categories, vec!["PHP", "Sites"]);
    assert_eq!((r.summary.pass, r.summary.warn, r.summary.fail, r.summary.info), (1, 1, 1, 0));
    assert!(!r.ok);
    let r = Report::new("dpl doctor", Some("sub".into()), &["PHP"], vec![check("PHP", Status::Info)]);
    assert!(r.ok);
    assert_eq!(r.summary.pass + r.summary.warn + r.summary.fail + r.summary.info, r.checks.len());
}

#[test]
fn hints_and_fixes_attach_to_the_last_check() {
    let mut c = Checks(vec![]);
    c.hint("nothing to attach to");
    assert!(c.0.is_empty());
    c.add("php.default", "PHP", "Default PHP", Status::Warn, "none".into());
    c.hint("install one");
    c.fix("Install", "sudo dpl php install <version>");
    let last = c.0.last().unwrap();
    assert_eq!(last.hint.as_deref(), Some("install one"));
    let fix = last.fix.as_ref().unwrap();
    assert!(fix.sudo && fix.placeholder);
    let plain = Fix::new("Trust", "dpl trust");
    assert!(!plain.sudo && !plain.placeholder);
    assert_eq!(Status::Pass.mark(), "\u{2713}");
}

#[test]
fn php_catalog_and_resolution() {
    let mut probes: Vec<KegProbe> = (0..12)
        .map(|_| KegProbe { keg: false, binary: false, load_errors: false, installed_version: Some("x".into()) })
        .collect();
    probes[2] = KegProbe { keg: true, binary: true, load_errors: false, installed_version: Some("8.3.9".into()) };
    probes[1] = KegProbe { keg: true, binary: false, load_errors: false, installed_version: None };
    let c = catalog(&probes, Some("8.3"));
    assert_eq!(c.len(), 12);
    assert_eq!(c[2].formula, "php@8.3");
    assert!(c[2].installed && !c[2].broken && c[2].active);
    assert_eq!(c[2].installed_version.as_deref(), Some("8.3.9"));
    assert!(c[1].installed && c[1].broken && !c[1].active);
    assert!(!c[0].installed && c[0].installed_version.is_none());

    let found = vec![
        PhpVersion { version: "8.4".into(), binary: "/opt/homebrew/bin/php".into(), source: "homebrew".into() },
        PhpVersion { version: "8.3".into(), binary: "/usr/bin/php8.3".into(), source: "path".into() },
    ];
    assert_eq!(resolve("8.3", &found).as_deref(), Some("/usr/bin/php8.3"));
    assert_eq!(resolve("7.4", &found), None);
    assert_eq!(default_binary(None), "php");
    assert_eq!(default_version(Some(" 8.4\n")).as_deref(), Some("8.4"));
    assert_eq!(default_version(Some("8")), None);
    assert_eq!(default_version(None), None);
}
