use dpl::dply::{poll_reply, DeviceStatus, DplyApiError};
use dpl::dply_cmd::{confirmation, confirmed, dply_calls, dply_render, reply_of, BodyValue, DplyCmd, Method};
use dpl::fpm::{fpm_status_lines, FpmPoolInfo, FpmStats};
use dpl::json::Json;

fn s(x: &str) -> String {
    x.to_string()
}

fn obj(members: Vec<(&str, Json)>) -> Json {
    Json::Object(members.into_iter().map(|(k, v)| (k.to_string(), v)).collect(), "{}".to_string())
}

fn text(x: &str) -> Json {
    Json::Str(x.to_string())
}

#[test]
fn edge_deploy_sends_only_the_given_fields() {
    let cmd = DplyCmd::EdgeDeploy { site: s("blog"), commit: Some(s("abc")), branch: Some(s("")) };
    let (calls, err) = dply_calls(&cmd);
    assert!(err.is_none());
    assert_eq!(calls.len(), 1);
    let c = &calls[0];
    assert_eq!(c.method, Method::Post);
    assert_eq!(c.path, "/api/v1/edge/sites/blog/deployments");
    assert!(c.unwrap);
    let body = c.body.as_ref().unwrap();
    assert_eq!(body.len(), 1);
    assert_eq!(body[0].0, "git_commit");
    assert!(matches!(&body[0].1, BodyValue::Text(t) if t == "abc"));
}

#[test]
fn edge_access_sets_only_when_a_flag_is_given() {
    let plain = DplyCmd::EdgeAccess { site: s("a"), mode: None, password: None, allowed_email: vec![] };
    let (calls, _) = dply_calls(&plain);
    assert_eq!(calls.len(), 1);
    assert_eq!(calls[0].method, Method::Get);
    assert_eq!(calls[0].path, "/api/v1/edge/sites/a/access");

    let set = DplyCmd::EdgeAccess { site: s("a"), mode: Some(s("password")), password: None, allowed_email: vec![s("x@y.z")] };
    let (calls, _) = dply_calls(&set);
    assert_eq!(calls.len(), 2);
    assert_eq!(calls[0].method, Method::Patch);
    let body = calls[0].body.as_ref().unwrap();
    assert_eq!(body.iter().map(|(k, _)| k.as_str()).collect::<Vec<_>>(), vec!["mode", "allowed_emails"]);
    assert_eq!(calls[1].method, Method::Get);
}

#[test]
fn edge_env_stops_at_the_first_pair_without_a_key() {
    let cmd = DplyCmd::EdgeEnv {
        site: s("a"),
        set: vec![s("A=1=2"), s("=bad"), s("B=3")],
        unset: vec![s("C")],
        from_file: None,
        scope: s("production"),
    };
    let (calls, err) = dply_calls(&cmd);
    assert_eq!(calls.len(), 1);
    assert_eq!(calls[0].path, "/api/v1/edge/sites/a/env/A");
    let body = calls[0].body.as_ref().unwrap();
    assert!(matches!(&body[0].1, BodyValue::Text(t) if t == "1=2"));
    assert_eq!(err.as_deref(), Some("expected KEY=value, got `=bad`"));
}

#[test]
fn edge_env_sets_unsets_then_lists_with_the_scope() {
    let cmd = DplyCmd::EdgeEnv { site: s("a"), set: vec![s("A=1")], unset: vec![s("C")], from_file: None, scope: s("preview") };
    let (calls, err) = dply_calls(&cmd);
    assert!(err.is_none());
    assert_eq!(calls.len(), 3);
    assert_eq!(calls[1].method, Method::Delete);
    assert_eq!(calls[1].query, vec![(s("scope"), s("preview"))]);
    assert_eq!(calls[2].path, "/api/v1/edge/sites/a/env");
    assert_eq!(calls[2].query, vec![(s("scope"), s("preview"))]);
}

#[test]
fn servers_run_without_a_command_is_refused() {
    let cmd = DplyCmd::ServersRun { server: s("web"), user: s("root"), cmd: vec![] };
    let (calls, err) = dply_calls(&cmd);
    assert!(calls.is_empty());
    assert_eq!(err.as_deref(), Some("no command given. Usage: dpl dply servers:run <server> -- <cmd>\u{2026}"));
    let cmd = DplyCmd::ServersRun { server: s("web"), user: s("root"), cmd: vec![s("ls"), s("-la")] };
    let (calls, _) = dply_calls(&cmd);
    assert_eq!(calls[0].path, "/api/v1/servers/web/run-command");
    assert!(matches!(&calls[0].body.as_ref().unwrap()[0].1, BodyValue::Text(t) if t == "ls -la"));
}

#[test]
fn firewall_and_log_shipping_take_the_first_flag_that_is_set() {
    let cmd = DplyCmd::ServersFirewall { server: s("w"), apply: true, template: Some(s("web")), bundled: Some(s("k")) };
    let (calls, _) = dply_calls(&cmd);
    assert_eq!(calls.len(), 1);
    assert_eq!(calls[0].path, "/api/v1/servers/w/firewall/templates/web");
    let shown = dply_render(&cmd, false, &Json::Null);
    assert_eq!(shown.out, vec![s("\u{2713} Applied firewall template `web`.")]);

    let cmd = DplyCmd::ServersLogShipping { server: s("w"), enable: true, resync: true, disable: false, source: vec![s("nginx")] };
    let (calls, _) = dply_calls(&cmd);
    assert_eq!(calls[0].path, "/api/v1/servers/w/log-shipping/enable");
    assert!(matches!(&calls[0].body.as_ref().unwrap()[0].1, BodyValue::Switches(v) if v == &vec![s("nginx")]));
    let cmd = DplyCmd::ServersLogShipping { server: s("w"), enable: false, resync: false, disable: true, source: vec![] };
    let (calls, _) = dply_calls(&cmd);
    assert_eq!(calls[0].method, Method::Delete);
}

#[test]
fn purge_reports_how_many_paths() {
    let all = DplyCmd::EdgePurge { site: s("blog"), paths: vec![] };
    assert_eq!(dply_render(&all, true, &Json::Null).out, vec![s("\u{2713} Purged all cached paths for blog.")]);
    let some = DplyCmd::EdgePurge { site: s("blog"), paths: vec![s("/a"), s("/b")] };
    assert_eq!(dply_render(&some, false, &Json::Null).out, vec![s("\u{2713} Purged 2 path(s) for blog.")]);
    let (calls, _) = dply_calls(&some);
    assert!(matches!(&calls[0].body.as_ref().unwrap()[0].1, BodyValue::List(v) if v.len() == 2));
}

#[test]
fn servers_run_splits_output_and_errors() {
    let cmd = DplyCmd::ServersRun { server: s("w"), user: s("root"), cmd: vec![s("ls")] };
    let reply = obj(vec![("output", text("a.txt")), ("stderr", text("warn")), ("exit_code", Json::Number(s("0")))]);
    let shown = dply_render(&cmd, false, &reply);
    assert!(!shown.raw);
    assert_eq!(shown.out, vec![s("a.txt"), s("[exit 0]")]);
    assert_eq!(shown.err, vec![s("warn")]);
    assert!(dply_render(&cmd, true, &reply).raw);
}

#[test]
fn lists_render_as_tables_and_details_as_blocks() {
    let rows = Json::Array(vec![obj(vec![("key", text("APP_KEY")), ("scope", text("production"))])], "[]".to_string());
    let cmd = DplyCmd::SiteEnv { site: s("a"), set: vec![], unset: vec![], from_file: None };
    assert_eq!(dply_render(&cmd, false, &rows).out, vec![s("KEY"), s("-------"), s("APP_KEY")]);
    let cmd = DplyCmd::SitesSystemUser { site: s("a") };
    let user = obj(vec![("username", text("forge"))]);
    assert_eq!(dply_render(&cmd, false, &user).out, vec![s("Username  forge")]);
    let empty = DplyCmd::SitesList;
    assert_eq!(dply_render(&empty, false, &Json::Null).out, vec![s("(none)")]);
}

#[test]
fn insights_and_readme_fall_back() {
    let cmd = DplyCmd::InsightsServer { server: s("w") };
    let reply = obj(vec![("data", Json::Array(vec![obj(vec![("severity", text("high"))])], "[]".to_string()))]);
    let out = dply_render(&cmd, false, &reply).out;
    assert_eq!(out.len(), 3);
    assert!(out[2].starts_with("high"));

    let readme = DplyCmd::OperatorReadme { raw: false };
    assert!(dply_render(&readme, false, &obj(vec![])).raw);
    let shown = dply_render(&readme, false, &obj(vec![("body", text("# Hello"))]));
    assert_eq!(shown.out, vec![s("# Hello")]);
}

#[test]
fn lint_failure_lists_errors_then_fails() {
    let cmd = DplyCmd::EdgeLint { path: s("dply.yaml"), filename: s("dply.yaml"), content: s("x") };
    let reply = obj(vec![
        ("ok", Json::Bool(false)),
        ("errors", Json::Array(vec![text("bad key")], "[]".to_string())),
    ]);
    let shown = dply_render(&cmd, false, &reply);
    assert_eq!(shown.out, vec![s("\u{2717} bad key")]);
    assert_eq!(shown.failure.as_deref(), Some("dply.yaml has lint errors."));
    let ok = obj(vec![("ok", Json::Bool(true))]);
    assert_eq!(dply_render(&cmd, false, &ok).out, vec![s("\u{2713} dply.yaml is valid.")]);
}

#[test]
fn schedules_show_both_tables() {
    let cmd = DplyCmd::SitesSchedules { site: s("a") };
    let out = dply_render(&cmd, false, &obj(vec![])).out;
    assert_eq!(out, vec![s("Deploy schedules:"), s("(none)"), s(""), s("Cron jobs:"), s("(none)")]);
}

#[test]
fn rollback_asks_unless_told_yes() {
    let ask = DplyCmd::EdgeRollback { site: s("blog"), deployment: s("d1"), yes: false };
    assert_eq!(confirmation(&ask).as_deref(), Some("Roll back blog to deployment d1?"));
    let yes = DplyCmd::EdgeRollback { site: s("blog"), deployment: s("d1"), yes: true };
    assert_eq!(confirmation(&yes), None);
    assert!(confirmed(" Yes\n"));
    assert!(confirmed("y"));
    assert!(!confirmed("no"));
    let (calls, _) = dply_calls(&ask);
    assert_eq!(calls[0].path, "/api/v1/edge/sites/blog/deployments/d1/rollback");
}

#[test]
fn replies_lose_their_envelope_only_when_asked() {
    let cmd = DplyCmd::SitesShow { site: s("a") };
    let (calls, _) = dply_calls(&cmd);
    let wrapped = obj(vec![("data", obj(vec![("name", text("a"))]))]);
    match reply_of(&calls[0], wrapped) {
        Json::Object(ms, _) => assert_eq!(ms[0].0, "name"),
        _ => panic!("expected an object"),
    }
}

#[test]
fn device_poll_replies() {
    let ok = || Ok((Some(s("authorized")), Some(s("tok"))));
    let p = poll_reply(429, "", ok()).unwrap();
    assert_eq!(p.status, DeviceStatus::Pending);
    assert_eq!(p.token, None);
    match poll_reply(500, "boom", ok()) {
        Err(DplyApiError::Api { status, message, raw, .. }) => {
            assert_eq!(status, 500);
            assert_eq!(message, "device-flow poll failed");
            assert_eq!(raw, "boom");
        }
        other => panic!("unexpected {other:?}"),
    }
    let p = poll_reply(200, "{}", ok()).unwrap();
    assert_eq!(p.status, DeviceStatus::Authorized);
    assert_eq!(p.token.as_deref(), Some("tok"));
    let p = poll_reply(200, "{}", Ok((None, Some(s("tok"))))).unwrap();
    assert_eq!(p.status, DeviceStatus::Expired);
    assert_eq!(p.token, None);
    let bad = serde_json::from_str::<u8>("x").unwrap_err();
    assert!(matches!(poll_reply(200, "x", Err(bad)), Err(DplyApiError::Decode { .. })));
}

fn pool(stats: Option<FpmStats>, running: bool, detail: Option<&str>) -> FpmPoolInfo {
    FpmPoolInfo {
        php: s("8.3"),
        mode: s("off"),
        profile: true,
        sites: 2,
        running,
        detail: detail.map(String::from),
        stats,
    }
}

#[test]
fn fpm_status_lists_pools_and_notices() {
    assert_eq!(
        fpm_status_lines(&[]),
        vec![s("No php-fpm pools are running."), s("A pool starts with the first request to a site that uses one.")]
    );
    let busy = FpmStats { total: 5, active: 3, listen_queue: 0, slow_requests: 1, max_children_reached: 0 };
    let lines = fpm_status_lines(&[pool(Some(busy), true, None), pool(None, false, None)]);
    assert_eq!(lines[0], "PHP      XDEBUG      SITES WORKERS   BUSY  QUEUE  SLOW  STATE");
    assert_eq!(lines[1], "8.3      off+spx         2       5      3      0     1  ok");
    assert_eq!(lines[2], "8.3      off+spx         2       -      -      -     -  stopped");
    assert_eq!(lines[3], "");
    assert_eq!(lines[4], "Slow requests were recorded \u{2014} `dpl fpm slow` to see which endpoints.");
    assert_eq!(lines.len(), 5);
}
