//! The `dpl dply …` commands: which API calls each one makes, in order, with
//! what method, path, query and body, and how the last reply is shown.
//! Sending the calls and printing the lines is the caller's part.

use vstd::prelude::*;

use crate::json::{cell_of, cell_text, first_field, get, get_key, rows_of, Json};
use crate::dply::{action_line, action_note, key_value, lint_outcome, lint_report, log_line, log_row, split_kv};
use crate::output::{col_views, detail_by, detail_text, dump, dump_lines, table_by, table_text};
use crate::sites::opt_view;
use crate::text::{concat_str, dec, dec_string, join, join_strings, push_str, str_is_empty, str_views};

verus! {

/// An HTTP method.
#[derive(Debug, Clone, Copy, PartialEq, Eq, Structural)]
pub enum Method {
    Get,
    Post,
    Put,
    Patch,
    Delete,
}

/// A value in a request body.
#[derive(Debug, Clone)]
pub enum BodyValue {
    Text(String),
    Flag(bool),
    /// An array of strings.
    List(Vec<String>),
    /// An object mapping each name to `true`.
    Switches(Vec<String>),
    /// An array of `{"key", "value", "scope"}` objects, all with one scope.
    Vars(Vec<(String, String)>, String),
}

/// One request to the dply API. `unwrap` says whether the reply is read
/// without its `{"data": …}` envelope.
#[derive(Debug, Clone)]
pub struct ApiCall {
    pub method: Method,
    pub path: String,
    pub query: Vec<(String, String)>,
    /// The JSON object sent, member by member; `None` sends no body.
    pub body: Option<Vec<(String, BodyValue)>>,
    pub unwrap: bool,
}

/// A body value as plain values.
pub enum BodyItem {
    Text(Seq<char>),
    Flag(bool),
    List(Seq<Seq<char>>),
    Switches(Seq<Seq<char>>),
    Vars(Seq<(Seq<char>, Seq<char>)>, Seq<char>),
}

/// A request as plain values.
pub struct CallView {
    pub method: Method,
    pub path: Seq<char>,
    pub query: Seq<(Seq<char>, Seq<char>)>,
    pub body: Option<Seq<(Seq<char>, BodyItem)>>,
    pub unwrap: bool,
}

/// Pairs of strings as plain values.
pub open spec fn pairs_view(v: Seq<(String, String)>) -> Seq<(Seq<char>, Seq<char>)> {
    v.map_values(|p: (String, String)| (p.0@, p.1@))
}

/// A body value as plain values.
pub open spec fn value_view(b: BodyValue) -> BodyItem {
    match b {
        BodyValue::Text(s) => BodyItem::Text(s@),
        BodyValue::Flag(f) => BodyItem::Flag(f),
        BodyValue::List(v) => BodyItem::List(str_views(v@)),
        BodyValue::Switches(v) => BodyItem::Switches(str_views(v@)),
        BodyValue::Vars(v, s) => BodyItem::Vars(pairs_view(v@), s@),
    }
}

/// A body as plain values.
pub open spec fn body_view(b: Seq<(String, BodyValue)>) -> Seq<(Seq<char>, BodyItem)> {
    b.map_values(|e: (String, BodyValue)| (e.0@, value_view(e.1)))
}

/// A request as plain values.
pub open spec fn call_view(c: ApiCall) -> CallView {
    CallView {
        method: c.method,
        path: c.path@,
        query: pairs_view(c.query@),
        body: match c.body {
            Some(b) => Some(body_view(b@)),
            None => None,
        },
        unwrap: c.unwrap,
    }
}

/// Requests as plain values.
pub open spec fn calls_view(cs: Seq<ApiCall>) -> Seq<CallView> {
    cs.map_values(|c: ApiCall| call_view(c))
}

/// A read, whose reply is taken without its envelope.
pub open spec fn get_call(path: Seq<char>, query: Seq<(Seq<char>, Seq<char>)>) -> CallView {
    CallView { method: Method::Get, path, query, body: None, unwrap: true }
}

/// A request that sends a body.
pub open spec fn send_call(method: Method, path: Seq<char>, body: Seq<(Seq<char>, BodyItem)>, unwrap: bool) -> CallView {
    CallView { method, path, query: Seq::empty(), body: Some(body), unwrap }
}

/// A delete.
pub open spec fn delete_call(path: Seq<char>, query: Seq<(Seq<char>, Seq<char>)>) -> CallView {
    CallView { method: Method::Delete, path, query, body: None, unwrap: false }
}

/// A query parameter that is sent only when given and not empty.
pub open spec fn opt_query(key: Seq<char>, v: Option<Seq<char>>) -> Seq<(Seq<char>, Seq<char>)> {
    match v {
        Some(s) => if s.len() > 0 {
            seq![(key, s)]
        } else {
            Seq::empty()
        },
        None => Seq::empty(),
    }
}

/// A text member that is sent only when given and not empty.
pub open spec fn opt_text(key: Seq<char>, v: Option<Seq<char>>) -> Seq<(Seq<char>, BodyItem)> {
    match v {
        Some(s) => if s.len() > 0 {
            seq![(key, BodyItem::Text(s))]
        } else {
            Seq::empty()
        },
        None => Seq::empty(),
    }
}

/// An edge site's endpoint.
pub open spec fn edge_path(site: Seq<char>, rest: Seq<char>) -> Seq<char> {
    "/api/v1/edge/sites/"@ + site + rest
}

/// A site's endpoint.
pub open spec fn site_path(site: Seq<char>, rest: Seq<char>) -> Seq<char> {
    "/api/v1/sites/"@ + site + rest
}

/// A server's endpoint.
pub open spec fn server_path(server: Seq<char>, rest: Seq<char>) -> Seq<char> {
    "/api/v1/servers/"@ + server + rest
}

// ------------------------------------------------------------------ builders

fn cat3(a: &str, b: &str, c: &str) -> (r: String)
    ensures
        r@ == a@ + b@ + c@,
{
    let mut s = concat_str(a, b);
    push_str(&mut s, c);
    s
}

fn cat5(a: &str, b: &str, c: &str, d: &str, e: &str) -> (r: String)
    ensures
        r@ == a@ + b@ + c@ + d@ + e@,
{
    let mut s = cat3(a, b, c);
    push_str(&mut s, d);
    push_str(&mut s, e);
    s
}

fn edge_at(site: &str, rest: &str) -> (r: String)
    ensures
        r@ == edge_path(site@, rest@),
{
    cat3("/api/v1/edge/sites/", site, rest)
}

fn site_at(site: &str, rest: &str) -> (r: String)
    ensures
        r@ == site_path(site@, rest@),
{
    cat3("/api/v1/sites/", site, rest)
}

fn server_at(server: &str, rest: &str) -> (r: String)
    ensures
        r@ == server_path(server@, rest@),
{
    cat3("/api/v1/servers/", server, rest)
}

fn get_of(path: String, query: Vec<(String, String)>) -> (r: ApiCall)
    ensures
        call_view(r) == get_call(path@, pairs_view(query@)),
{
    ApiCall { method: Method::Get, path, query, body: None, unwrap: true }
}

fn send_of(method: Method, path: String, body: Vec<(String, BodyValue)>, unwrap: bool) -> (r: ApiCall)
    ensures
        call_view(r) == send_call(method, path@, body_view(body@), unwrap),
{
    let q: Vec<(String, String)> = Vec::new();
    assert(pairs_view(q@) =~= Seq::<(Seq<char>, Seq<char>)>::empty());
    ApiCall { method, path, query: q, body: Some(body), unwrap }
}

fn delete_of(path: String, query: Vec<(String, String)>) -> (r: ApiCall)
    ensures
        call_view(r) == delete_call(path@, pairs_view(query@)),
{
    ApiCall { method: Method::Delete, path, query, body: None, unwrap: false }
}

fn no_query() -> (r: Vec<(String, String)>)
    ensures
        pairs_view(r@) == Seq::<(Seq<char>, Seq<char>)>::empty(),
{
    let r: Vec<(String, String)> = Vec::new();
    assert(pairs_view(r@) =~= Seq::<(Seq<char>, Seq<char>)>::empty());
    r
}

fn no_body() -> (r: Vec<(String, BodyValue)>)
    ensures
        body_view(r@) == Seq::<(Seq<char>, BodyItem)>::empty(),
{
    let r: Vec<(String, BodyValue)> = Vec::new();
    assert(body_view(r@) =~= Seq::<(Seq<char>, BodyItem)>::empty());
    r
}

fn query_of(key: &str, v: &str) -> (r: Vec<(String, String)>)
    ensures
        pairs_view(r@) == seq![(key@, v@)],
{
    let mut r: Vec<(String, String)> = Vec::new();
    r.push((String::from_str(key), String::from_str(v)));
    assert(pairs_view(r@) =~= seq![(key@, v@)]);
    r
}

fn push_query(q: &mut Vec<(String, String)>, key: &str, v: &Option<String>)
    ensures
        pairs_view(final(q)@) == pairs_view(old(q)@) + opt_query(key@, opt_view(*v)),
{
    let ghost q0 = pairs_view(q@);
    if let Some(s) = v {
        if !str_is_empty(s.as_str()) {
            q.push((String::from_str(key), String::from_str(s.as_str())));
            assert(pairs_view(q@) =~= q0 + opt_query(key@, opt_view(*v)));
            return;
        }
    }
    assert(pairs_view(q@) =~= q0 + opt_query(key@, opt_view(*v)));
}

fn push_item(b: &mut Vec<(String, BodyValue)>, key: &str, v: BodyValue)
    ensures
        body_view(final(b)@) == body_view(old(b)@).push((key@, value_view(v))),
{
    let ghost b0 = body_view(b@);
    let ghost vv = value_view(v);
    b.push((String::from_str(key), v));
    assert(body_view(b@) =~= b0.push((key@, vv)));
}

fn text(s: &str) -> (r: BodyValue)
    ensures
        value_view(r) == BodyItem::Text(s@),
{
    BodyValue::Text(String::from_str(s))
}

fn push_opt_text(b: &mut Vec<(String, BodyValue)>, key: &str, v: &Option<String>)
    ensures
        body_view(final(b)@) == body_view(old(b)@) + opt_text(key@, opt_view(*v)),
{
    let ghost b0 = body_view(b@);
    if let Some(s) = v {
        if !str_is_empty(s.as_str()) {
            push_item(b, key, text(s.as_str()));
            assert(body_view(b@) =~= b0 + opt_text(key@, opt_view(*v)));
            return;
        }
    }
    assert(body_view(b@) =~= b0 + opt_text(key@, opt_view(*v)));
}

fn strings(v: &Vec<String>) -> (r: Vec<String>)
    ensures
        str_views(r@) == str_views(v@),
{
    crate::text::copy_strings(v.as_slice())
}

fn push_call(cs: &mut Vec<ApiCall>, c: ApiCall)
    ensures
        calls_view(final(cs)@) == calls_view(old(cs)@).push(call_view(c)),
{
    let ghost c0 = calls_view(cs@);
    let ghost cv = call_view(c);
    cs.push(c);
    assert(calls_view(cs@) =~= c0.push(cv));
}

fn one(c: ApiCall) -> (r: Vec<ApiCall>)
    ensures
        calls_view(r@) == seq![call_view(c)],
{
    let mut cs: Vec<ApiCall> = Vec::new();
    push_call(&mut cs, c);
    assert(calls_view(cs@) =~= seq![call_view(c)]);
    cs
}


// ------------------------------------------------------------------ commands

/// A `dpl dply …` command, as given on the command line. A dotenv file is
/// given by its pairs, a lint manifest by its name and text.
#[derive(Debug, Clone)]
pub enum DplyCmd {
    EdgeSites { status: Option<String> },
    EdgeShow { site: String },
    EdgeDeploy { site: String, commit: Option<String>, branch: Option<String> },
    EdgeDeployments { site: String, limit: u32 },
    EdgeDeployment { site: String, deployment: String },
    EdgeRollback { site: String, deployment: String, yes: bool },
    EdgeAccess { site: String, mode: Option<String>, password: Option<String>, allowed_email: Vec<String> },
    EdgeEnv { site: String, set: Vec<String>, unset: Vec<String>, from_file: Option<Vec<(String, String)>>, scope: String },
    EdgeDomains { site: String, add: Option<String>, verify: Option<String>, remove: Option<String> },
    EdgeAliases { site: String },
    EdgePreviews { site: String, create: Option<String>, delete: Option<String>, promote: Option<String> },
    EdgeUsage { site: String, period: Option<String> },
    EdgePurge { site: String, paths: Vec<String> },
    EdgeLogs { site: String, limit: u32, since: Option<String> },
    /// `path` as shown to the user, `filename` as sent.
    EdgeLint { path: String, filename: String, content: String },
    ServersList,
    ServersRun { server: String, user: String, cmd: Vec<String> },
    ServersFirewall { server: String, apply: bool, template: Option<String>, bundled: Option<String> },
    ServersLogShipping { server: String, enable: bool, resync: bool, disable: bool, source: Vec<String> },
    SitesList,
    SitesShow { site: String },
    SitesRename { site: String, name: String },
    SitesDeploy { site: String },
    SitesDeployments { site: String },
    SitesDeployment { site: String, deployment: String },
    SitesCommits { site: String },
    SitesDomainsAdd { site: String, hostname: String, primary: bool, www_redirect: bool },
    SitesDomainsList { site: String },
    SitesDomainsRemove { site: String, hostname: String },
    SitesBasicAuthAdd { site: String, username: String, password: String, path: String },
    SitesBasicAuthList { site: String },
    SitesBasicAuthRemove { site: String, username: String },
    SitesDbList { site: String },
    SitesSchedules { site: String },
    SitesSslStatus { site: String },
    SitesSystemUser { site: String },
    SitesUptime { site: String },
    SitesWorkers { site: String },
    SitesErrors { site: String, limit: String },
    SiteEnv { site: String, set: Vec<String>, unset: Vec<String>, from_file: Option<Vec<(String, String)>> },
    InsightsSummary,
    InsightsServer { server: String },
    ImportsMigrations,
    ImportsMigration { migration: String },
    OperatorSummary,
    OperatorReadme { raw: bool },
}

/// The message for a `KEY=value` argument without a key.
pub open spec fn bad_pair(pair: Seq<char>) -> Seq<char> {
    "expected KEY=value, got `"@ + pair + "`"@
}

/// The message for `servers:run` without a command.
pub open spec fn no_command() -> Seq<char> {
    "no command given. Usage: dpl dply servers:run <server> -- <cmd>\u{2026}"@
}

/// An edge variable set for each `KEY=value`, in order, up to the first
/// one without a key, which stops the command with its message.
pub open spec fn edge_sets(site: Seq<char>, pairs: Seq<Seq<char>>, scope: Seq<char>) -> (Seq<CallView>, Option<Seq<char>>)
    decreases pairs.len(),
{
    if pairs.len() == 0 {
        (Seq::empty(), None)
    } else {
        match key_value(pairs[0]) {
            None => (Seq::empty(), Some(bad_pair(pairs[0]))),
            Some((k, v)) => {
                let rest = edge_sets(site, pairs.drop_first(), scope);
                (
                    seq![
                        send_call(
                            Method::Patch,
                            edge_path(site, "/env/"@ + k),
                            seq![("value"@, BodyItem::Text(v)), ("scope"@, BodyItem::Text(scope))],
                            false,
                        ),
                    ] + rest.0,
                    rest.1,
                )
            },
        }
    }
}

/// A site variable set for each `KEY=value`, as [`edge_sets`] but with no
/// scope.
pub open spec fn site_sets(site: Seq<char>, pairs: Seq<Seq<char>>) -> (Seq<CallView>, Option<Seq<char>>)
    decreases pairs.len(),
{
    if pairs.len() == 0 {
        (Seq::empty(), None)
    } else {
        match key_value(pairs[0]) {
            None => (Seq::empty(), Some(bad_pair(pairs[0]))),
            Some((k, v)) => {
                let rest = site_sets(site, pairs.drop_first());
                (
                    seq![send_call(Method::Patch, site_path(site, "/env/"@ + k), seq![("value"@, BodyItem::Text(v))], false)]
                        + rest.0,
                    rest.1,
                )
            },
        }
    }
}

/// Then, when nothing stopped the command, `more`.
pub open spec fn then(first: (Seq<CallView>, Option<Seq<char>>), more: Seq<CallView>) -> (Seq<CallView>, Option<Seq<char>>) {
    match first.1 {
        Some(e) => first,
        None => (first.0 + more, None),
    }
}

/// The requests a command makes, in order, and the message it stops with
/// when an argument is wrong (after the requests before it). The reply to
/// the last request is the one shown.
pub open spec fn planned(cmd: DplyCmd) -> (Seq<CallView>, Option<Seq<char>>) {
    match cmd {
        DplyCmd::EdgeSites { status } => (
            seq![get_call("/api/v1/edge/sites"@, opt_query("status"@, opt_view(status)))],
            None,
        ),
        DplyCmd::EdgeShow { site } => (seq![get_call(edge_path(site@, ""@), seq![])], None),
        DplyCmd::EdgeDeploy { site, commit, branch } => (
            seq![
                send_call(
                    Method::Post,
                    edge_path(site@, "/deployments"@),
                    opt_text("git_commit"@, opt_view(commit)) + opt_text("git_branch"@, opt_view(branch)),
                    true,
                ),
            ],
            None,
        ),
        DplyCmd::EdgeDeployments { site, limit } => (
            seq![get_call(edge_path(site@, "/deployments"@), seq![("limit"@, dec(limit as nat))])],
            None,
        ),
        DplyCmd::EdgeDeployment { site, deployment } => (
            seq![get_call(edge_path(site@, "/deployments/"@ + deployment@), seq![])],
            None,
        ),
        DplyCmd::EdgeRollback { site, deployment, yes } => (
            seq![send_call(Method::Post, edge_path(site@, "/deployments/"@ + deployment@ + "/rollback"@), seq![], false)],
            None,
        ),
        DplyCmd::EdgeAccess { site, mode, password, allowed_email } => (
            (if mode is Some || password is Some || allowed_email@.len() > 0 {
                seq![
                    send_call(
                        Method::Patch,
                        edge_path(site@, "/access"@),
                        opt_text("mode"@, opt_view(mode)) + opt_text("password"@, opt_view(password)) + if allowed_email@.len()
                            > 0 {
                            seq![("allowed_emails"@, BodyItem::List(str_views(allowed_email@)))]
                        } else {
                            Seq::empty()
                        },
                        false,
                    ),
                ]
            } else {
                Seq::empty()
            }) + seq![get_call(edge_path(site@, "/access"@), seq![])],
            None,
        ),
        DplyCmd::EdgeEnv { site, set, unset, from_file, scope } => then(
            match from_file {
                Some(vars) => (
                    seq![
                        send_call(
                            Method::Put,
                            edge_path(site@, "/env"@),
                            seq![("vars"@, BodyItem::Vars(pairs_view(vars@), scope@)), ("scope"@, BodyItem::Text(scope@))],
                            false,
                        ),
                    ],
                    None,
                ),
                None => then(
                    edge_sets(site@, str_views(set@), scope@),
                    str_views(unset@).map_values(
                        |k: Seq<char>| delete_call(edge_path(site@, "/env/"@ + k), seq![("scope"@, scope@)]),
                    ),
                ),
            },
            seq![get_call(edge_path(site@, "/env"@), opt_query("scope"@, Some(scope@)))],
        ),
        DplyCmd::EdgeDomains { site, add, verify, remove } => (
            (match add {
                Some(h) => seq![send_call(Method::Post, edge_path(site@, "/domains"@), seq![("hostname"@, BodyItem::Text(h@))], false)],
                None => Seq::empty(),
            }) + (match verify {
                Some(h) => seq![send_call(Method::Post, edge_path(site@, "/domains/"@ + h@ + "/verify"@), seq![], false)],
                None => Seq::empty(),
            }) + (match remove {
                Some(h) => seq![delete_call(edge_path(site@, "/domains/"@ + h@), seq![])],
                None => Seq::empty(),
            }) + seq![get_call(edge_path(site@, "/domains"@), seq![])],
            None,
        ),
        DplyCmd::EdgeAliases { site } => (seq![get_call(edge_path(site@, "/aliases"@), seq![])], None),
        DplyCmd::EdgePreviews { site, create, delete, promote } => (
            (match create {
                Some(b) => seq![send_call(Method::Post, edge_path(site@, "/previews"@), seq![("branch"@, BodyItem::Text(b@))], false)],
                None => Seq::empty(),
            }) + (match delete {
                Some(id) => seq![delete_call(edge_path(site@, "/previews/"@ + id@), seq![])],
                None => Seq::empty(),
            }) + (match promote {
                Some(id) => seq![send_call(Method::Post, edge_path(site@, "/previews/"@ + id@ + "/promote"@), seq![], false)],
                None => Seq::empty(),
            }) + seq![get_call(edge_path(site@, "/previews"@), seq![])],
            None,
        ),
        DplyCmd::EdgeUsage { site, period } => (
            seq![get_call(edge_path(site@, "/usage"@), opt_query("period"@, opt_view(period)))],
            None,
        ),
        DplyCmd::EdgePurge { site, paths } => (
            seq![
                send_call(
                    Method::Post,
                    edge_path(site@, "/cache/purge"@),
                    if paths@.len() == 0 {
                        seq![]
                    } else {
                        seq![("paths"@, BodyItem::List(str_views(paths@)))]
                    },
                    false,
                ),
            ],
            None,
        ),
        DplyCmd::EdgeLogs { site, limit, since } => (
            seq![get_call(edge_path(site@, "/logs"@), seq![("limit"@, dec(limit as nat))] + opt_query("since"@, opt_view(since)))],
            None,
        ),
        DplyCmd::EdgeLint { path, filename, content } => (
            seq![
                send_call(
                    Method::Post,
                    "/api/v1/edge/lint"@,
                    seq![("path"@, BodyItem::Text(filename@)), ("content"@, BodyItem::Text(content@))],
                    false,
                ),
            ],
            None,
        ),
        DplyCmd::ServersList => (seq![get_call("/api/v1/servers"@, seq![])], None),
        DplyCmd::ServersRun { server, user, cmd } => if cmd@.len() == 0 {
            (Seq::empty(), Some(no_command()))
        } else {
            (
                seq![
                    send_call(
                        Method::Post,
                        server_path(server@, "/run-command"@),
                        seq![("command"@, BodyItem::Text(join(str_views(cmd@), " "@))), ("user"@, BodyItem::Text(user@))],
                        true,
                    ),
                ],
                None,
            )
        },
        DplyCmd::ServersFirewall { server, apply, template, bundled } => (
            seq![
                match template {
                    Some(t) => send_call(Method::Post, server_path(server@, "/firewall/templates/"@ + t@), seq![], false),
                    None => match bundled {
                        Some(k) => send_call(Method::Post, server_path(server@, "/firewall/bundled/"@ + k@), seq![], false),
                        None => if apply {
                            send_call(Method::Post, server_path(server@, "/firewall/apply"@), seq![], false)
                        } else {
                            get_call(server_path(server@, "/firewall"@), seq![])
                        },
                    },
                },
            ],
            None,
        ),
        DplyCmd::ServersLogShipping { server, enable, resync, disable, source } => (
            seq![
                if enable {
                    send_call(
                        Method::Post,
                        server_path(server@, "/log-shipping/enable"@),
                        if source@.len() == 0 {
                            seq![]
                        } else {
                            seq![("sources"@, BodyItem::Switches(str_views(source@)))]
                        },
                        false,
                    )
                } else if resync {
                    send_call(Method::Post, server_path(server@, "/log-shipping/resync"@), seq![], false)
                } else if disable {
                    delete_call(server_path(server@, "/log-shipping"@), seq![])
                } else {
                    get_call(server_path(server@, "/log-shipping"@), seq![])
                },
            ],
            None,
        ),
        DplyCmd::SitesList => (seq![get_call("/api/v1/sites"@, seq![])], None),
        DplyCmd::SitesShow { site } => (seq![get_call(site_path(site@, ""@), seq![])], None),
        DplyCmd::SitesRename { site, name } => (
            seq![send_call(Method::Patch, site_path(site@, ""@), seq![("name"@, BodyItem::Text(name@))], true)],
            None,
        ),
        DplyCmd::SitesDeploy { site } => (seq![send_call(Method::Post, site_path(site@, "/deploy"@), seq![], true)], None),
        DplyCmd::SitesDeployments { site } => (seq![get_call(site_path(site@, "/deployments"@), seq![])], None),
        DplyCmd::SitesDeployment { site, deployment } => (
            seq![get_call(site_path(site@, "/deployments/"@ + deployment@), seq![])],
            None,
        ),
        DplyCmd::SitesCommits { site } => (seq![get_call(site_path(site@, "/commits"@), seq![])], None),
        DplyCmd::SitesDomainsAdd { site, hostname, primary, www_redirect } => (
            seq![
                send_call(
                    Method::Post,
                    site_path(site@, "/domains"@),
                    seq![
                        ("hostname"@, BodyItem::Text(hostname@)),
                        ("is_primary"@, BodyItem::Flag(primary)),
                        ("www_redirect"@, BodyItem::Flag(www_redirect)),
                    ],
                    false,
                ),
            ],
            None,
        ),
        DplyCmd::SitesDomainsList { site } => (seq![get_call(site_path(site@, "/domains"@), seq![])], None),
        DplyCmd::SitesDomainsRemove { site, hostname } => (
            seq![delete_call(site_path(site@, "/domains/"@ + hostname@), seq![])],
            None,
        ),
        DplyCmd::SitesBasicAuthAdd { site, username, password, path } => (
            seq![
                send_call(
                    Method::Post,
                    site_path(site@, "/basic-auth"@),
                    seq![
                        ("username"@, BodyItem::Text(username@)),
                        ("password"@, BodyItem::Text(password@)),
                        ("path"@, BodyItem::Text(path@)),
                    ],
                    false,
                ),
            ],
            None,
        ),
        DplyCmd::SitesBasicAuthList { site } => (seq![get_call(site_path(site@, "/basic-auth"@), seq![])], None),
        DplyCmd::SitesBasicAuthRemove { site, username } => (
            seq![delete_call(site_path(site@, "/basic-auth/"@ + username@), seq![])],
            None,
        ),
        DplyCmd::SitesDbList { site } => (seq![get_call(site_path(site@, "/databases"@), seq![])], None),
        DplyCmd::SitesSchedules { site } => (seq![get_call(site_path(site@, "/schedules"@), seq![])], None),
        DplyCmd::SitesSslStatus { site } => (seq![get_call(site_path(site@, "/ssl"@), seq![])], None),
        DplyCmd::SitesSystemUser { site } => (seq![get_call(site_path(site@, "/system-user"@), seq![])], None),
        DplyCmd::SitesUptime { site } => (seq![get_call(site_path(site@, "/uptime"@), seq![])], None),
        DplyCmd::SitesWorkers { site } => (seq![get_call(site_path(site@, "/workers"@), seq![])], None),
        DplyCmd::SitesErrors { site, limit } => (
            seq![get_call(site_path(site@, "/errors"@), opt_query("limit"@, Some(limit@)))],
            None,
        ),
        DplyCmd::SiteEnv { site, set, unset, from_file } => then(
            match from_file {
                Some(vars) => (
                    pairs_view(vars@).map_values(
                        |p: (Seq<char>, Seq<char>)|
                            send_call(Method::Patch, site_path(site@, "/env/"@ + p.0), seq![("value"@, BodyItem::Text(p.1))], false),
                    ),
                    None,
                ),
                None => then(
                    site_sets(site@, str_views(set@)),
                    str_views(unset@).map_values(|k: Seq<char>| delete_call(site_path(site@, "/env/"@ + k), seq![])),
                ),
            },
            seq![get_call(site_path(site@, "/env"@), seq![])],
        ),
        DplyCmd::InsightsSummary => (seq![get_call("/api/v1/insights/summary"@, seq![])], None),
        DplyCmd::InsightsServer { server } => (seq![get_call(server_path(server@, "/insights"@), seq![])], None),
        DplyCmd::ImportsMigrations => (seq![get_call("/api/v1/imports/migrations"@, seq![])], None),
        DplyCmd::ImportsMigration { migration } => (
            seq![get_call("/api/v1/imports/migrations/"@ + migration@, seq![])],
            None,
        ),
        DplyCmd::OperatorSummary => (seq![get_call("/api/v1/operator/summary"@, seq![])], None),
        DplyCmd::OperatorReadme { raw } => (seq![get_call("/api/v1/operator/readme"@, seq![])], None),
    }
}

// ------------------------------------------------------------------ planning

fn edge_sets_from(site: &str, pairs: &Vec<String>, i: usize, scope: &str, cs: &mut Vec<ApiCall>) -> (r: Option<String>)
    requires
        i <= pairs@.len(),
    ensures
        calls_view(final(cs)@) == calls_view(old(cs)@) + edge_sets(site@, str_views(pairs@).skip(i as int), scope@).0,
        opt_view(r) == edge_sets(site@, str_views(pairs@).skip(i as int), scope@).1,
    decreases pairs@.len() - i,
{
    let ghost rest = str_views(pairs@).skip(i as int);
    if i == pairs.len() {
        assert(rest.len() == 0);
        assert(calls_view(cs@) =~= calls_view(cs@) + Seq::<CallView>::empty());
        return None;
    }
    assert(rest[0] == pairs@[i as int]@);
    assert(rest.drop_first() =~= str_views(pairs@).skip(i + 1));
    match split_kv(pairs[i].as_str()) {
        Err(e) => {
            assert(calls_view(cs@) =~= calls_view(cs@) + Seq::<CallView>::empty());
            Some(e)
        },
        Ok((k, v)) => {
            let ghost c0 = calls_view(cs@);
            let mut b = no_body();
            push_item(&mut b, "value", text(v.as_str()));
            push_item(&mut b, "scope", text(scope));
            assert(body_view(b@) =~= seq![("value"@, BodyItem::Text(v@)), ("scope"@, BodyItem::Text(scope@))]);
            let path = edge_at(site, concat_str("/env/", k.as_str()).as_str());
            let c = send_of(Method::Patch, path, b, false);
            assert(call_view(c) == send_call(
                Method::Patch,
                edge_path(site@, "/env/"@ + k@),
                seq![("value"@, BodyItem::Text(v@)), ("scope"@, BodyItem::Text(scope@))],
                false,
            ));
            let ghost cv = call_view(c);
            push_call(cs, c);
            let ghost c1 = calls_view(cs@);
            let r = edge_sets_from(site, pairs, i + 1, scope, cs);
            assert(calls_view(cs@) =~= c0 + (seq![cv] + edge_sets(site@, rest.drop_first(), scope@).0));
            r
        },
    }
}

fn site_sets_from(site: &str, pairs: &Vec<String>, i: usize, cs: &mut Vec<ApiCall>) -> (r: Option<String>)
    requires
        i <= pairs@.len(),
    ensures
        calls_view(final(cs)@) == calls_view(old(cs)@) + site_sets(site@, str_views(pairs@).skip(i as int)).0,
        opt_view(r) == site_sets(site@, str_views(pairs@).skip(i as int)).1,
    decreases pairs@.len() - i,
{
    let ghost rest = str_views(pairs@).skip(i as int);
    if i == pairs.len() {
        assert(rest.len() == 0);
        assert(calls_view(cs@) =~= calls_view(cs@) + Seq::<CallView>::empty());
        return None;
    }
    assert(rest[0] == pairs@[i as int]@);
    assert(rest.drop_first() =~= str_views(pairs@).skip(i + 1));
    match split_kv(pairs[i].as_str()) {
        Err(e) => {
            assert(calls_view(cs@) =~= calls_view(cs@) + Seq::<CallView>::empty());
            Some(e)
        },
        Ok((k, v)) => {
            let ghost c0 = calls_view(cs@);
            let mut b = no_body();
            push_item(&mut b, "value", text(v.as_str()));
            assert(body_view(b@) =~= seq![("value"@, BodyItem::Text(v@))]);
            let path = site_at(site, concat_str("/env/", k.as_str()).as_str());
            let c = send_of(Method::Patch, path, b, false);
            let ghost cv = call_view(c);
            push_call(cs, c);
            let r = site_sets_from(site, pairs, i + 1, cs);
            assert(calls_view(cs@) =~= c0 + (seq![cv] + site_sets(site@, rest.drop_first()).0));
            r
        },
    }
}

fn edge_unsets(site: &str, unset: &Vec<String>, scope: &str, cs: &mut Vec<ApiCall>)
    ensures
        calls_view(final(cs)@) == calls_view(old(cs)@) + str_views(unset@).map_values(
            |k: Seq<char>| delete_call(edge_path(site@, "/env/"@ + k), seq![("scope"@, scope@)]),
        ),
{
    let ghost c0 = calls_view(cs@);
    let ghost all = str_views(unset@).map_values(
        |k: Seq<char>| delete_call(edge_path(site@, "/env/"@ + k), seq![("scope"@, scope@)]),
    );
    let mut i: usize = 0;
    while i < unset.len()
        invariant
            i <= unset@.len(),
            all == str_views(unset@).map_values(
                |k: Seq<char>| delete_call(edge_path(site@, "/env/"@ + k), seq![("scope"@, scope@)]),
            ),
            calls_view(cs@) == c0 + all.take(i as int),
        decreases unset@.len() - i,
    {
        let path = edge_at(site, concat_str("/env/", unset[i].as_str()).as_str());
        let c = delete_of(path, query_of("scope", scope));
        push_call(cs, c);
        assert(all.take(i + 1) =~= all.take(i as int).push(all[i as int]));
        i = i + 1;
    }
    assert(all.take(unset@.len() as int) =~= all);
}

fn site_unsets(site: &str, unset: &Vec<String>, cs: &mut Vec<ApiCall>)
    ensures
        calls_view(final(cs)@) == calls_view(old(cs)@) + str_views(unset@).map_values(
            |k: Seq<char>| delete_call(site_path(site@, "/env/"@ + k), seq![]),
        ),
{
    let ghost c0 = calls_view(cs@);
    let ghost all = str_views(unset@).map_values(|k: Seq<char>| delete_call(site_path(site@, "/env/"@ + k), seq![]));
    let mut i: usize = 0;
    while i < unset.len()
        invariant
            i <= unset@.len(),
            all == str_views(unset@).map_values(|k: Seq<char>| delete_call(site_path(site@, "/env/"@ + k), seq![])),
            calls_view(cs@) == c0 + all.take(i as int),
        decreases unset@.len() - i,
    {
        let path = site_at(site, concat_str("/env/", unset[i].as_str()).as_str());
        let c = delete_of(path, no_query());
        push_call(cs, c);
        assert(all.take(i + 1) =~= all.take(i as int).push(all[i as int]));
        i = i + 1;
    }
    assert(all.take(unset@.len() as int) =~= all);
}

fn site_file_sets(site: &str, vars: &Vec<(String, String)>, cs: &mut Vec<ApiCall>)
    ensures
        calls_view(final(cs)@) == calls_view(old(cs)@) + pairs_view(vars@).map_values(
            |p: (Seq<char>, Seq<char>)|
                send_call(Method::Patch, site_path(site@, "/env/"@ + p.0), seq![("value"@, BodyItem::Text(p.1))], false),
        ),
{
    let ghost c0 = calls_view(cs@);
    let ghost all = pairs_view(vars@).map_values(
        |p: (Seq<char>, Seq<char>)|
            send_call(Method::Patch, site_path(site@, "/env/"@ + p.0), seq![("value"@, BodyItem::Text(p.1))], false),
    );
    let mut i: usize = 0;
    while i < vars.len()
        invariant
            i <= vars@.len(),
            all == pairs_view(vars@).map_values(
                |p: (Seq<char>, Seq<char>)|
                    send_call(Method::Patch, site_path(site@, "/env/"@ + p.0), seq![("value"@, BodyItem::Text(p.1))], false),
            ),
            calls_view(cs@) == c0 + all.take(i as int),
        decreases vars@.len() - i,
    {
        let mut b = no_body();
        push_item(&mut b, "value", text(vars[i].1.as_str()));
        let path = site_at(site, concat_str("/env/", vars[i].0.as_str()).as_str());
        let c = send_of(Method::Patch, path, b, false);
        push_call(cs, c);
        assert(all.take(i + 1) =~= all.take(i as int).push(all[i as int]));
        i = i + 1;
    }
    assert(all.take(vars@.len() as int) =~= all);
}

fn copy_pairs(v: &Vec<(String, String)>) -> (r: Vec<(String, String)>)
    ensures
        pairs_view(r@) == pairs_view(v@),
{
    let mut out: Vec<(String, String)> = Vec::new();
    let mut i: usize = 0;
    while i < v.len()
        invariant
            i <= v@.len(),
            pairs_view(out@) == pairs_view(v@).take(i as int),
        decreases v@.len() - i,
    {
        let ghost o0 = pairs_view(out@);
        out.push((String::from_str(v[i].0.as_str()), String::from_str(v[i].1.as_str())));
        assert(pairs_view(out@) =~= o0.push((v@[i as int].0@, v@[i as int].1@)));
        assert(pairs_view(v@).take(i + 1) =~= pairs_view(v@).take(i as int).push((v@[i as int].0@, v@[i as int].1@)));
        i = i + 1;
    }
    assert(pairs_view(v@).take(v@.len() as int) =~= pairs_view(v@));
    out
}

fn edge_env_calls(site: &str, set: &Vec<String>, unset: &Vec<String>, from_file: &Option<Vec<(String, String)>>, scope: &str) -> (r: (Vec<ApiCall>, Option<String>))
    ensures
        (calls_view(r.0@), opt_view(r.1)) == then(
            match *from_file {
                Some(vars) => (
                    seq![
                        send_call(
                            Method::Put,
                            edge_path(site@, "/env"@),
                            seq![("vars"@, BodyItem::Vars(pairs_view(vars@), scope@)), ("scope"@, BodyItem::Text(scope@))],
                            false,
                        ),
                    ],
                    None,
                ),
                None => then(
                    edge_sets(site@, str_views(set@), scope@),
                    str_views(unset@).map_values(
                        |k: Seq<char>| delete_call(edge_path(site@, "/env/"@ + k), seq![("scope"@, scope@)]),
                    ),
                ),
            },
            seq![get_call(edge_path(site@, "/env"@), opt_query("scope"@, Some(scope@)))],
        ),
{
    let mut cs: Vec<ApiCall> = Vec::new();
    assert(calls_view(cs@) =~= Seq::<CallView>::empty());
    match from_file {
        Some(vars) => {
            let mut b = no_body();
            push_item(&mut b, "vars", BodyValue::Vars(copy_pairs(vars), String::from_str(scope)));
            push_item(&mut b, "scope", text(scope));
            assert(body_view(b@) =~= seq![("vars"@, BodyItem::Vars(pairs_view(vars@), scope@)), ("scope"@, BodyItem::Text(scope@))]);
            push_call(&mut cs, send_of(Method::Put, edge_at(site, "/env"), b, false));
        },
        None => {
            assert(str_views(set@).skip(0) =~= str_views(set@));
            let e = edge_sets_from(site, set, 0, scope, &mut cs);
            if e.is_some() {
                return (cs, e);
            }
            edge_unsets(site, unset, scope, &mut cs);
        },
    }
    let mut q: Vec<(String, String)> = no_query();
    push_query(&mut q, "scope", &Some(String::from_str(scope)));
    push_call(&mut cs, get_of(edge_at(site, "/env"), q));
    proof {
        assert(pairs_view(q@) =~= opt_query("scope"@, Some(scope@)));
    }
    (cs, None)
}

fn site_env_calls(site: &str, set: &Vec<String>, unset: &Vec<String>, from_file: &Option<Vec<(String, String)>>) -> (r: (Vec<ApiCall>, Option<String>))
    ensures
        (calls_view(r.0@), opt_view(r.1)) == then(
            match *from_file {
                Some(vars) => (
                    pairs_view(vars@).map_values(
                        |p: (Seq<char>, Seq<char>)|
                            send_call(Method::Patch, site_path(site@, "/env/"@ + p.0), seq![("value"@, BodyItem::Text(p.1))], false),
                    ),
                    None,
                ),
                None => then(
                    site_sets(site@, str_views(set@)),
                    str_views(unset@).map_values(|k: Seq<char>| delete_call(site_path(site@, "/env/"@ + k), seq![])),
                ),
            },
            seq![get_call(site_path(site@, "/env"@), seq![])],
        ),
{
    let mut cs: Vec<ApiCall> = Vec::new();
    assert(calls_view(cs@) =~= Seq::<CallView>::empty());
    match from_file {
        Some(vars) => {
            site_file_sets(site, vars, &mut cs);
        },
        None => {
            assert(str_views(set@).skip(0) =~= str_views(set@));
            let e = site_sets_from(site, set, 0, &mut cs);
            if e.is_some() {
                return (cs, e);
            }
            site_unsets(site, unset, &mut cs);
        },
    }
    push_call(&mut cs, get_of(site_at(site, "/env"), no_query()));
    (cs, None)
}

fn fetch(path: String) -> (r: (Vec<ApiCall>, Option<String>))
    ensures
        calls_view(r.0@) == seq![get_call(path@, seq![])],
        r.1 is None,
{
    let c = get_of(path, no_query());
    (one(c), None)
}

fn post_empty(path: String, unwrap: bool) -> (r: ApiCall)
    ensures
        call_view(r) == send_call(Method::Post, path@, seq![], unwrap),
{
    send_of(Method::Post, path, no_body(), unwrap)
}

fn single(c: ApiCall) -> (r: (Vec<ApiCall>, Option<String>))
    ensures
        calls_view(r.0@) == seq![call_view(c)],
        r.1 is None,
{
    (one(c), None)
}

fn push_opt_call(cs: &mut Vec<ApiCall>, c: Option<ApiCall>)
    ensures
        calls_view(final(cs)@) == calls_view(old(cs)@) + match c {
            Some(x) => seq![call_view(x)],
            None => Seq::empty(),
        },
{
    let ghost c0 = calls_view(cs@);
    match c {
        Some(x) => {
            let ghost xv = call_view(x);
            push_call(cs, x);
            assert(calls_view(cs@) =~= c0 + seq![xv]);
        },
        None => {
            assert(calls_view(cs@) =~= c0 + Seq::<CallView>::empty());
        },
    }
}

fn edge_calls(cmd: &DplyCmd) -> (r: (Vec<ApiCall>, Option<String>))
    ensures
        (calls_view(r.0@), opt_view(r.1)) == planned(*cmd) || !(cmd is EdgeSites || cmd is EdgeShow || cmd is EdgeDeploy
            || cmd is EdgeDeployments || cmd is EdgeDeployment || cmd is EdgeRollback || cmd is EdgeAccess
            || cmd is EdgeEnv || cmd is EdgeDomains || cmd is EdgeAliases || cmd is EdgePreviews || cmd is EdgeUsage
            || cmd is EdgePurge || cmd is EdgeLogs || cmd is EdgeLint),
{
    match cmd {
        DplyCmd::EdgeSites { status } => {
            let mut q = no_query();
            push_query(&mut q, "status", status);
            assert(pairs_view(q@) =~= opt_query("status"@, opt_view(*status)));
            single(get_of(String::from_str("/api/v1/edge/sites"), q))
        },
        DplyCmd::EdgeShow { site } => fetch(edge_at(site.as_str(), "")),
        DplyCmd::EdgeDeploy { site, commit, branch } => {
            let mut b = no_body();
            push_opt_text(&mut b, "git_commit", commit);
            push_opt_text(&mut b, "git_branch", branch);
            single(send_of(Method::Post, edge_at(site.as_str(), "/deployments"), b, true))
        },
        DplyCmd::EdgeDeployments { site, limit } => {
            let q = query_of("limit", dec_string(*limit as u64).as_str());
            single(get_of(edge_at(site.as_str(), "/deployments"), q))
        },
        DplyCmd::EdgeDeployment { site, deployment } => fetch(
            edge_at(site.as_str(), concat_str("/deployments/", deployment.as_str()).as_str()),
        ),
        DplyCmd::EdgeRollback { site, deployment, yes } => single(
            post_empty(edge_at(site.as_str(), cat3("/deployments/", deployment.as_str(), "/rollback").as_str()), false),
        ),
        DplyCmd::EdgeAccess { site, mode, password, allowed_email } => {
            let mut cs: Vec<ApiCall> = Vec::new();
            assert(calls_view(cs@) =~= Seq::<CallView>::empty());
            if mode.is_some() || password.is_some() || allowed_email.len() > 0 {
                let mut b = no_body();
                push_opt_text(&mut b, "mode", mode);
                push_opt_text(&mut b, "password", password);
                let ghost b0 = body_view(b@);
                if allowed_email.len() > 0 {
                    push_item(&mut b, "allowed_emails", BodyValue::List(strings(allowed_email)));
                }
                assert(body_view(b@) =~= b0 + if allowed_email@.len() > 0 {
                    seq![("allowed_emails"@, BodyItem::List(str_views(allowed_email@)))]
                } else {
                    Seq::empty()
                });
                push_call(&mut cs, send_of(Method::Patch, edge_at(site.as_str(), "/access"), b, false));
            }
            push_call(&mut cs, get_of(edge_at(site.as_str(), "/access"), no_query()));
            (cs, None)
        },
        DplyCmd::EdgeEnv { site, set, unset, from_file, scope } => edge_env_calls(
            site.as_str(),
            set,
            unset,
            from_file,
            scope.as_str(),
        ),
        DplyCmd::EdgeDomains { site, add, verify, remove } => {
            let mut cs: Vec<ApiCall> = Vec::new();
            assert(calls_view(cs@) =~= Seq::<CallView>::empty());
            push_opt_call(&mut cs, match add {
                Some(h) => {
                    let mut b = no_body();
                    push_item(&mut b, "hostname", text(h.as_str()));
                    assert(body_view(b@) =~= seq![("hostname"@, BodyItem::Text(h@))]);
                    Some(send_of(Method::Post, edge_at(site.as_str(), "/domains"), b, false))
                },
                None => None,
            });
            push_opt_call(&mut cs, match verify {
                Some(h) => Some(post_empty(edge_at(site.as_str(), cat3("/domains/", h.as_str(), "/verify").as_str()), false)),
                None => None,
            });
            push_opt_call(&mut cs, match remove {
                Some(h) => Some(delete_of(edge_at(site.as_str(), concat_str("/domains/", h.as_str()).as_str()), no_query())),
                None => None,
            });
            push_call(&mut cs, get_of(edge_at(site.as_str(), "/domains"), no_query()));
            (cs, None)
        },
        DplyCmd::EdgeAliases { site } => fetch(edge_at(site.as_str(), "/aliases")),
        DplyCmd::EdgePreviews { site, create, delete, promote } => {
            let mut cs: Vec<ApiCall> = Vec::new();
            assert(calls_view(cs@) =~= Seq::<CallView>::empty());
            push_opt_call(&mut cs, match create {
                Some(b0) => {
                    let mut b = no_body();
                    push_item(&mut b, "branch", text(b0.as_str()));
                    assert(body_view(b@) =~= seq![("branch"@, BodyItem::Text(b0@))]);
                    Some(send_of(Method::Post, edge_at(site.as_str(), "/previews"), b, false))
                },
                None => None,
            });
            push_opt_call(&mut cs, match delete {
                Some(id) => Some(delete_of(edge_at(site.as_str(), concat_str("/previews/", id.as_str()).as_str()), no_query())),
                None => None,
            });
            push_opt_call(&mut cs, match promote {
                Some(id) => Some(post_empty(edge_at(site.as_str(), cat3("/previews/", id.as_str(), "/promote").as_str()), false)),
                None => None,
            });
            push_call(&mut cs, get_of(edge_at(site.as_str(), "/previews"), no_query()));
            (cs, None)
        },
        DplyCmd::EdgeUsage { site, period } => {
            let mut q = no_query();
            push_query(&mut q, "period", period);
            assert(pairs_view(q@) =~= opt_query("period"@, opt_view(*period)));
            single(get_of(edge_at(site.as_str(), "/usage"), q))
        },
        DplyCmd::EdgePurge { site, paths } => {
            let mut b = no_body();
            if paths.len() > 0 {
                push_item(&mut b, "paths", BodyValue::List(strings(paths)));
                assert(body_view(b@) =~= seq![("paths"@, BodyItem::List(str_views(paths@)))]);
            }
            single(send_of(Method::Post, edge_at(site.as_str(), "/cache/purge"), b, false))
        },
        DplyCmd::EdgeLogs { site, limit, since } => {
            let mut q = query_of("limit", dec_string(*limit as u64).as_str());
            push_query(&mut q, "since", since);
            single(get_of(edge_at(site.as_str(), "/logs"), q))
        },
        DplyCmd::EdgeLint { path, filename, content } => {
            let mut b = no_body();
            push_item(&mut b, "path", text(filename.as_str()));
            push_item(&mut b, "content", text(content.as_str()));
            assert(body_view(b@) =~= seq![("path"@, BodyItem::Text(filename@)), ("content"@, BodyItem::Text(content@))]);
            single(send_of(Method::Post, String::from_str("/api/v1/edge/lint"), b, false))
        },
        _ => (Vec::new(), None),
    }
}

fn server_calls(cmd: &DplyCmd) -> (r: (Vec<ApiCall>, Option<String>))
    ensures
        (calls_view(r.0@), opt_view(r.1)) == planned(*cmd) || !(cmd is ServersList || cmd is ServersRun
            || cmd is ServersFirewall || cmd is ServersLogShipping || cmd is InsightsSummary || cmd is InsightsServer
            || cmd is ImportsMigrations || cmd is ImportsMigration || cmd is OperatorSummary || cmd is OperatorReadme),
{
    match cmd {
        DplyCmd::ServersList => fetch(String::from_str("/api/v1/servers")),
        DplyCmd::ServersRun { server, user, cmd } => {
            if cmd.len() == 0 {
                let e = String::from_str("no command given. Usage: dpl dply servers:run <server> -- <cmd>\u{2026}");
                let cs: Vec<ApiCall> = Vec::new();
                assert(calls_view(cs@) =~= Seq::<CallView>::empty());
                return (cs, Some(e));
            }
            let joined = join_strings(cmd, " ");
            let mut b = no_body();
            push_item(&mut b, "command", BodyValue::Text(joined));
            push_item(&mut b, "user", text(user.as_str()));
            assert(body_view(b@) =~= seq![
                ("command"@, BodyItem::Text(join(str_views(cmd@), " "@))),
                ("user"@, BodyItem::Text(user@)),
            ]);
            single(send_of(Method::Post, server_at(server.as_str(), "/run-command"), b, true))
        },
        DplyCmd::ServersFirewall { server, apply, template, bundled } => {
            let c = match template {
                Some(t) => post_empty(server_at(server.as_str(), concat_str("/firewall/templates/", t.as_str()).as_str()), false),
                None => match bundled {
                    Some(k) => post_empty(server_at(server.as_str(), concat_str("/firewall/bundled/", k.as_str()).as_str()), false),
                    None => if *apply {
                        post_empty(server_at(server.as_str(), "/firewall/apply"), false)
                    } else {
                        get_of(server_at(server.as_str(), "/firewall"), no_query())
                    },
                },
            };
            single(c)
        },
        DplyCmd::ServersLogShipping { server, enable, resync, disable, source } => {
            let c = if *enable {
                let mut b = no_body();
                if source.len() > 0 {
                    push_item(&mut b, "sources", BodyValue::Switches(strings(source)));
                    assert(body_view(b@) =~= seq![("sources"@, BodyItem::Switches(str_views(source@)))]);
                }
                send_of(Method::Post, server_at(server.as_str(), "/log-shipping/enable"), b, false)
            } else if *resync {
                post_empty(server_at(server.as_str(), "/log-shipping/resync"), false)
            } else if *disable {
                delete_of(server_at(server.as_str(), "/log-shipping"), no_query())
            } else {
                get_of(server_at(server.as_str(), "/log-shipping"), no_query())
            };
            single(c)
        },
        DplyCmd::InsightsSummary => fetch(String::from_str("/api/v1/insights/summary")),
        DplyCmd::InsightsServer { server } => fetch(server_at(server.as_str(), "/insights")),
        DplyCmd::ImportsMigrations => fetch(String::from_str("/api/v1/imports/migrations")),
        DplyCmd::ImportsMigration { migration } => fetch(concat_str("/api/v1/imports/migrations/", migration.as_str())),
        DplyCmd::OperatorSummary => fetch(String::from_str("/api/v1/operator/summary")),
        DplyCmd::OperatorReadme { raw } => fetch(String::from_str("/api/v1/operator/readme")),
        _ => (Vec::new(), None),
    }
}

fn site_calls(cmd: &DplyCmd) -> (r: (Vec<ApiCall>, Option<String>))
    ensures
        (calls_view(r.0@), opt_view(r.1)) == planned(*cmd) || !(cmd is SitesList || cmd is SitesShow || cmd is SitesRename
            || cmd is SitesDeploy || cmd is SitesDeployments || cmd is SitesDeployment || cmd is SitesCommits
            || cmd is SitesDomainsAdd || cmd is SitesDomainsList || cmd is SitesDomainsRemove || cmd is SitesBasicAuthAdd
            || cmd is SitesBasicAuthList || cmd is SitesBasicAuthRemove || cmd is SitesDbList || cmd is SitesSchedules
            || cmd is SitesSslStatus || cmd is SitesSystemUser || cmd is SitesUptime || cmd is SitesWorkers
            || cmd is SitesErrors || cmd is SiteEnv),
{
    match cmd {
        DplyCmd::SitesList => fetch(String::from_str("/api/v1/sites")),
        DplyCmd::SitesShow { site } => fetch(site_at(site.as_str(), "")),
        DplyCmd::SitesRename { site, name } => {
            let mut b = no_body();
            push_item(&mut b, "name", text(name.as_str()));
            assert(body_view(b@) =~= seq![("name"@, BodyItem::Text(name@))]);
            single(send_of(Method::Patch, site_at(site.as_str(), ""), b, true))
        },
        DplyCmd::SitesDeploy { site } => single(post_empty(site_at(site.as_str(), "/deploy"), true)),
        DplyCmd::SitesDeployments { site } => fetch(site_at(site.as_str(), "/deployments")),
        DplyCmd::SitesDeployment { site, deployment } => fetch(
            site_at(site.as_str(), concat_str("/deployments/", deployment.as_str()).as_str()),
        ),
        DplyCmd::SitesCommits { site } => fetch(site_at(site.as_str(), "/commits")),
        DplyCmd::SitesDomainsAdd { site, hostname, primary, www_redirect } => {
            let mut b = no_body();
            push_item(&mut b, "hostname", text(hostname.as_str()));
            push_item(&mut b, "is_primary", BodyValue::Flag(*primary));
            push_item(&mut b, "www_redirect", BodyValue::Flag(*www_redirect));
            assert(body_view(b@) =~= seq![
                ("hostname"@, BodyItem::Text(hostname@)),
                ("is_primary"@, BodyItem::Flag(*primary)),
                ("www_redirect"@, BodyItem::Flag(*www_redirect)),
            ]);
            single(send_of(Method::Post, site_at(site.as_str(), "/domains"), b, false))
        },
        DplyCmd::SitesDomainsList { site } => fetch(site_at(site.as_str(), "/domains")),
        DplyCmd::SitesDomainsRemove { site, hostname } => single(
            delete_of(site_at(site.as_str(), concat_str("/domains/", hostname.as_str()).as_str()), no_query()),
        ),
        DplyCmd::SitesBasicAuthAdd { site, username, password, path } => {
            let mut b = no_body();
            push_item(&mut b, "username", text(username.as_str()));
            push_item(&mut b, "password", text(password.as_str()));
            push_item(&mut b, "path", text(path.as_str()));
            assert(body_view(b@) =~= seq![
                ("username"@, BodyItem::Text(username@)),
                ("password"@, BodyItem::Text(password@)),
                ("path"@, BodyItem::Text(path@)),
            ]);
            single(send_of(Method::Post, site_at(site.as_str(), "/basic-auth"), b, false))
        },
        DplyCmd::SitesBasicAuthList { site } => fetch(site_at(site.as_str(), "/basic-auth")),
        DplyCmd::SitesBasicAuthRemove { site, username } => single(
            delete_of(site_at(site.as_str(), concat_str("/basic-auth/", username.as_str()).as_str()), no_query()),
        ),
        DplyCmd::SitesDbList { site } => fetch(site_at(site.as_str(), "/databases")),
        DplyCmd::SitesSchedules { site } => fetch(site_at(site.as_str(), "/schedules")),
        DplyCmd::SitesSslStatus { site } => fetch(site_at(site.as_str(), "/ssl")),
        DplyCmd::SitesSystemUser { site } => fetch(site_at(site.as_str(), "/system-user")),
        DplyCmd::SitesUptime { site } => fetch(site_at(site.as_str(), "/uptime")),
        DplyCmd::SitesWorkers { site } => fetch(site_at(site.as_str(), "/workers")),
        DplyCmd::SitesErrors { site, limit } => {
            let mut q = no_query();
            push_query(&mut q, "limit", &Some(String::from_str(limit.as_str())));
            single(get_of(site_at(site.as_str(), "/errors"), q))
        },
        DplyCmd::SiteEnv { site, set, unset, from_file } => site_env_calls(site.as_str(), set, unset, from_file),
        _ => (Vec::new(), None),
    }
}

/// The requests `cmd` makes, in order, and the message it stops with when
/// an argument is wrong (see [`planned`]).
pub fn dply_calls(cmd: &DplyCmd) -> (r: (Vec<ApiCall>, Option<String>))
    ensures
        (calls_view(r.0@), opt_view(r.1)) == planned(*cmd),
{
    match cmd {
        DplyCmd::ServersList | DplyCmd::ServersRun { .. } | DplyCmd::ServersFirewall { .. }
        | DplyCmd::ServersLogShipping { .. } | DplyCmd::InsightsSummary | DplyCmd::InsightsServer { .. }
        | DplyCmd::ImportsMigrations | DplyCmd::ImportsMigration { .. } | DplyCmd::OperatorSummary
        | DplyCmd::OperatorReadme { .. } => server_calls(cmd),
        DplyCmd::SitesList | DplyCmd::SitesShow { .. } | DplyCmd::SitesRename { .. } | DplyCmd::SitesDeploy { .. }
        | DplyCmd::SitesDeployments { .. } | DplyCmd::SitesDeployment { .. } | DplyCmd::SitesCommits { .. }
        | DplyCmd::SitesDomainsAdd { .. } | DplyCmd::SitesDomainsList { .. } | DplyCmd::SitesDomainsRemove { .. }
        | DplyCmd::SitesBasicAuthAdd { .. } | DplyCmd::SitesBasicAuthList { .. }
        | DplyCmd::SitesBasicAuthRemove { .. } | DplyCmd::SitesDbList { .. } | DplyCmd::SitesSchedules { .. }
        | DplyCmd::SitesSslStatus { .. } | DplyCmd::SitesSystemUser { .. } | DplyCmd::SitesUptime { .. }
        | DplyCmd::SitesWorkers { .. } | DplyCmd::SitesErrors { .. } | DplyCmd::SiteEnv { .. } => site_calls(cmd),
        _ => edge_calls(cmd),
    }
}

// ------------------------------------------------------------------ columns

/// The columns (or fields) of `edge_sites`.
pub open spec fn edge_sites_cols() -> Seq<(Seq<char>, Seq<Seq<char>>)> {
    seq![
        ("ID"@, seq!["id"@]),
        ("NAME"@, seq!["name"@]),
        ("STATUS"@, seq!["status"@]),
        ("FRAMEWORK"@, seq!["build.framework"@, "framework"@]),
        ("URL"@, seq!["live_url"@, "hostname"@]),
        ("UPDATED"@, seq!["updated_at"@]),
    ]
}

fn edge_sites_columns() -> (r: &'static [(&'static str, &'static [&'static str])])
    ensures
        col_views(r@) == edge_sites_cols(),
{
    let r: &'static [(&'static str, &'static [&'static str])] = &[("ID", &["id"]), ("NAME", &["name"]), ("STATUS", &["status"]), ("FRAMEWORK", &["build.framework", "framework"]), ("URL", &["live_url", "hostname"]), ("UPDATED", &["updated_at"])];
    assert(r@[0].1@.map_values(|n: &str| n@) =~= seq!["id"@]);
    assert(r@[1].1@.map_values(|n: &str| n@) =~= seq!["name"@]);
    assert(r@[2].1@.map_values(|n: &str| n@) =~= seq!["status"@]);
    assert(r@[3].1@.map_values(|n: &str| n@) =~= seq!["build.framework"@, "framework"@]);
    assert(r@[4].1@.map_values(|n: &str| n@) =~= seq!["live_url"@, "hostname"@]);
    assert(r@[5].1@.map_values(|n: &str| n@) =~= seq!["updated_at"@]);
    assert(col_views(r@) =~= edge_sites_cols());
    r
}

/// The columns (or fields) of `edge_show`.
pub open spec fn edge_show_cols() -> Seq<(Seq<char>, Seq<Seq<char>>)> {
    seq![
        ("ID"@, seq!["id"@]),
        ("Name"@, seq!["name"@]),
        ("Status"@, seq!["status"@]),
        ("Backend"@, seq!["edge_backend"@, "backend"@]),
        ("Runtime"@, seq!["runtime_mode"@]),
        ("Framework"@, seq!["build.framework"@]),
        ("Repo"@, seq!["source.repo"@]),
        ("Branch"@, seq!["source.branch"@]),
        ("Build cmd"@, seq!["build.command"@]),
        ("Output"@, seq!["build.output"@]),
        ("Live URL"@, seq!["live_url"@]),
        ("Active deploy"@, seq!["active_deployment_id"@]),
        ("Created"@, seq!["created_at"@]),
        ("Updated"@, seq!["updated_at"@]),
    ]
}

fn edge_show_columns() -> (r: &'static [(&'static str, &'static [&'static str])])
    ensures
        col_views(r@) == edge_show_cols(),
{
    let r: &'static [(&'static str, &'static [&'static str])] = &[("ID", &["id"]), ("Name", &["name"]), ("Status", &["status"]), ("Backend", &["edge_backend", "backend"]), ("Runtime", &["runtime_mode"]), ("Framework", &["build.framework"]), ("Repo", &["source.repo"]), ("Branch", &["source.branch"]), ("Build cmd", &["build.command"]), ("Output", &["build.output"]), ("Live URL", &["live_url"]), ("Active deploy", &["active_deployment_id"]), ("Created", &["created_at"]), ("Updated", &["updated_at"])];
    assert(r@[0].1@.map_values(|n: &str| n@) =~= seq!["id"@]);
    assert(r@[1].1@.map_values(|n: &str| n@) =~= seq!["name"@]);
    assert(r@[2].1@.map_values(|n: &str| n@) =~= seq!["status"@]);
    assert(r@[3].1@.map_values(|n: &str| n@) =~= seq!["edge_backend"@, "backend"@]);
    assert(r@[4].1@.map_values(|n: &str| n@) =~= seq!["runtime_mode"@]);
    assert(r@[5].1@.map_values(|n: &str| n@) =~= seq!["build.framework"@]);
    assert(r@[6].1@.map_values(|n: &str| n@) =~= seq!["source.repo"@]);
    assert(r@[7].1@.map_values(|n: &str| n@) =~= seq!["source.branch"@]);
    assert(r@[8].1@.map_values(|n: &str| n@) =~= seq!["build.command"@]);
    assert(r@[9].1@.map_values(|n: &str| n@) =~= seq!["build.output"@]);
    assert(r@[10].1@.map_values(|n: &str| n@) =~= seq!["live_url"@]);
    assert(r@[11].1@.map_values(|n: &str| n@) =~= seq!["active_deployment_id"@]);
    assert(r@[12].1@.map_values(|n: &str| n@) =~= seq!["created_at"@]);
    assert(r@[13].1@.map_values(|n: &str| n@) =~= seq!["updated_at"@]);
    assert(col_views(r@) =~= edge_show_cols());
    r
}

/// The columns (or fields) of `edge_deployments`.
pub open spec fn edge_deployments_cols() -> Seq<(Seq<char>, Seq<Seq<char>>)> {
    seq![
        ("ID"@, seq!["id"@]),
        ("STATUS"@, seq!["status"@]),
        ("COMMIT"@, seq!["git_commit"@]),
        ("BRANCH"@, seq!["git_branch"@]),
        ("PUBLISHED"@, seq!["published_at"@]),
        ("CREATED"@, seq!["created_at"@]),
    ]
}

fn edge_deployments_columns() -> (r: &'static [(&'static str, &'static [&'static str])])
    ensures
        col_views(r@) == edge_deployments_cols(),
{
    let r: &'static [(&'static str, &'static [&'static str])] = &[("ID", &["id"]), ("STATUS", &["status"]), ("COMMIT", &["git_commit"]), ("BRANCH", &["git_branch"]), ("PUBLISHED", &["published_at"]), ("CREATED", &["created_at"])];
    assert(r@[0].1@.map_values(|n: &str| n@) =~= seq!["id"@]);
    assert(r@[1].1@.map_values(|n: &str| n@) =~= seq!["status"@]);
    assert(r@[2].1@.map_values(|n: &str| n@) =~= seq!["git_commit"@]);
    assert(r@[3].1@.map_values(|n: &str| n@) =~= seq!["git_branch"@]);
    assert(r@[4].1@.map_values(|n: &str| n@) =~= seq!["published_at"@]);
    assert(r@[5].1@.map_values(|n: &str| n@) =~= seq!["created_at"@]);
    assert(col_views(r@) =~= edge_deployments_cols());
    r
}

/// The columns (or fields) of `edge_deployment`.
pub open spec fn edge_deployment_cols() -> Seq<(Seq<char>, Seq<Seq<char>>)> {
    seq![
        ("ID"@, seq!["id"@]),
        ("Status"@, seq!["status"@]),
        ("Commit"@, seq!["git_commit"@]),
        ("Branch"@, seq!["git_branch"@]),
        ("Subject"@, seq!["meta.commit.subject"@]),
        ("Author"@, seq!["meta.commit.author"@]),
        ("Storage"@, seq!["storage_prefix"@]),
        ("KV version"@, seq!["cf_kv_version"@]),
        ("Build log"@, seq!["build_log_path"@]),
        ("Published"@, seq!["published_at"@]),
        ("Failed"@, seq!["failed_at"@]),
        ("Failure"@, seq!["failure_reason"@]),
        ("Created"@, seq!["created_at"@]),
    ]
}

fn edge_deployment_columns() -> (r: &'static [(&'static str, &'static [&'static str])])
    ensures
        col_views(r@) == edge_deployment_cols(),
{
    let r: &'static [(&'static str, &'static [&'static str])] = &[("ID", &["id"]), ("Status", &["status"]), ("Commit", &["git_commit"]), ("Branch", &["git_branch"]), ("Subject", &["meta.commit.subject"]), ("Author", &["meta.commit.author"]), ("Storage", &["storage_prefix"]), ("KV version", &["cf_kv_version"]), ("Build log", &["build_log_path"]), ("Published", &["published_at"]), ("Failed", &["failed_at"]), ("Failure", &["failure_reason"]), ("Created", &["created_at"])];
    assert(r@[0].1@.map_values(|n: &str| n@) =~= seq!["id"@]);
    assert(r@[1].1@.map_values(|n: &str| n@) =~= seq!["status"@]);
    assert(r@[2].1@.map_values(|n: &str| n@) =~= seq!["git_commit"@]);
    assert(r@[3].1@.map_values(|n: &str| n@) =~= seq!["git_branch"@]);
    assert(r@[4].1@.map_values(|n: &str| n@) =~= seq!["meta.commit.subject"@]);
    assert(r@[5].1@.map_values(|n: &str| n@) =~= seq!["meta.commit.author"@]);
    assert(r@[6].1@.map_values(|n: &str| n@) =~= seq!["storage_prefix"@]);
    assert(r@[7].1@.map_values(|n: &str| n@) =~= seq!["cf_kv_version"@]);
    assert(r@[8].1@.map_values(|n: &str| n@) =~= seq!["build_log_path"@]);
    assert(r@[9].1@.map_values(|n: &str| n@) =~= seq!["published_at"@]);
    assert(r@[10].1@.map_values(|n: &str| n@) =~= seq!["failed_at"@]);
    assert(r@[11].1@.map_values(|n: &str| n@) =~= seq!["failure_reason"@]);
    assert(r@[12].1@.map_values(|n: &str| n@) =~= seq!["created_at"@]);
    assert(col_views(r@) =~= edge_deployment_cols());
    r
}

/// The columns (or fields) of `edge_access`.
pub open spec fn edge_access_cols() -> Seq<(Seq<char>, Seq<Seq<char>>)> {
    seq![
        ("Mode"@, seq!["mode"@]),
        ("Password set"@, seq!["password_set"@, "has_password"@]),
        ("Allowed emails"@, seq!["allowed_emails"@]),
        ("Updated"@, seq!["updated_at"@]),
    ]
}

fn edge_access_columns() -> (r: &'static [(&'static str, &'static [&'static str])])
    ensures
        col_views(r@) == edge_access_cols(),
{
    let r: &'static [(&'static str, &'static [&'static str])] = &[("Mode", &["mode"]), ("Password set", &["password_set", "has_password"]), ("Allowed emails", &["allowed_emails"]), ("Updated", &["updated_at"])];
    assert(r@[0].1@.map_values(|n: &str| n@) =~= seq!["mode"@]);
    assert(r@[1].1@.map_values(|n: &str| n@) =~= seq!["password_set"@, "has_password"@]);
    assert(r@[2].1@.map_values(|n: &str| n@) =~= seq!["allowed_emails"@]);
    assert(r@[3].1@.map_values(|n: &str| n@) =~= seq!["updated_at"@]);
    assert(col_views(r@) =~= edge_access_cols());
    r
}

/// The columns (or fields) of `edge_env`.
pub open spec fn edge_env_cols() -> Seq<(Seq<char>, Seq<Seq<char>>)> {
    seq![
        ("KEY"@, seq!["key"@]),
        ("SCOPE"@, seq!["scope"@]),
        ("UPDATED"@, seq!["updated_at"@]),
    ]
}

fn edge_env_columns() -> (r: &'static [(&'static str, &'static [&'static str])])
    ensures
        col_views(r@) == edge_env_cols(),
{
    let r: &'static [(&'static str, &'static [&'static str])] = &[("KEY", &["key"]), ("SCOPE", &["scope"]), ("UPDATED", &["updated_at"])];
    assert(r@[0].1@.map_values(|n: &str| n@) =~= seq!["key"@]);
    assert(r@[1].1@.map_values(|n: &str| n@) =~= seq!["scope"@]);
    assert(r@[2].1@.map_values(|n: &str| n@) =~= seq!["updated_at"@]);
    assert(col_views(r@) =~= edge_env_cols());
    r
}

/// The columns (or fields) of `edge_domains`.
pub open spec fn edge_domains_cols() -> Seq<(Seq<char>, Seq<Seq<char>>)> {
    seq![
        ("HOSTNAME"@, seq!["hostname"@]),
        ("STATUS"@, seq!["status"@]),
        ("VERIFIED"@, seq!["verified_at"@]),
        ("CREATED"@, seq!["created_at"@]),
    ]
}

fn edge_domains_columns() -> (r: &'static [(&'static str, &'static [&'static str])])
    ensures
        col_views(r@) == edge_domains_cols(),
{
    let r: &'static [(&'static str, &'static [&'static str])] = &[("HOSTNAME", &["hostname"]), ("STATUS", &["status"]), ("VERIFIED", &["verified_at"]), ("CREATED", &["created_at"])];
    assert(r@[0].1@.map_values(|n: &str| n@) =~= seq!["hostname"@]);
    assert(r@[1].1@.map_values(|n: &str| n@) =~= seq!["status"@]);
    assert(r@[2].1@.map_values(|n: &str| n@) =~= seq!["verified_at"@]);
    assert(r@[3].1@.map_values(|n: &str| n@) =~= seq!["created_at"@]);
    assert(col_views(r@) =~= edge_domains_cols());
    r
}

/// The columns (or fields) of `edge_aliases`.
pub open spec fn edge_aliases_cols() -> Seq<(Seq<char>, Seq<Seq<char>>)> {
    seq![
        ("HOSTNAME"@, seq!["hostname"@]),
        ("DEPLOYMENT"@, seq!["deployment_id"@, "deployment.id"@]),
        ("CREATED"@, seq!["created_at"@]),
    ]
}

fn edge_aliases_columns() -> (r: &'static [(&'static str, &'static [&'static str])])
    ensures
        col_views(r@) == edge_aliases_cols(),
{
    let r: &'static [(&'static str, &'static [&'static str])] = &[("HOSTNAME", &["hostname"]), ("DEPLOYMENT", &["deployment_id", "deployment.id"]), ("CREATED", &["created_at"])];
    assert(r@[0].1@.map_values(|n: &str| n@) =~= seq!["hostname"@]);
    assert(r@[1].1@.map_values(|n: &str| n@) =~= seq!["deployment_id"@, "deployment.id"@]);
    assert(r@[2].1@.map_values(|n: &str| n@) =~= seq!["created_at"@]);
    assert(col_views(r@) =~= edge_aliases_cols());
    r
}

/// The columns (or fields) of `edge_previews`.
pub open spec fn edge_previews_cols() -> Seq<(Seq<char>, Seq<Seq<char>>)> {
    seq![
        ("ID"@, seq!["id"@]),
        ("BRANCH"@, seq!["preview_branch"@, "branch"@]),
        ("PR"@, seq!["preview_pr_number"@]),
        ("STATUS"@, seq!["status"@]),
        ("URL"@, seq!["live_url"@]),
        ("UPDATED"@, seq!["updated_at"@]),
    ]
}

fn edge_previews_columns() -> (r: &'static [(&'static str, &'static [&'static str])])
    ensures
        col_views(r@) == edge_previews_cols(),
{
    let r: &'static [(&'static str, &'static [&'static str])] = &[("ID", &["id"]), ("BRANCH", &["preview_branch", "branch"]), ("PR", &["preview_pr_number"]), ("STATUS", &["status"]), ("URL", &["live_url"]), ("UPDATED", &["updated_at"])];
    assert(r@[0].1@.map_values(|n: &str| n@) =~= seq!["id"@]);
    assert(r@[1].1@.map_values(|n: &str| n@) =~= seq!["preview_branch"@, "branch"@]);
    assert(r@[2].1@.map_values(|n: &str| n@) =~= seq!["preview_pr_number"@]);
    assert(r@[3].1@.map_values(|n: &str| n@) =~= seq!["status"@]);
    assert(r@[4].1@.map_values(|n: &str| n@) =~= seq!["live_url"@]);
    assert(r@[5].1@.map_values(|n: &str| n@) =~= seq!["updated_at"@]);
    assert(col_views(r@) =~= edge_previews_cols());
    r
}

/// The columns (or fields) of `servers`.
pub open spec fn servers_cols() -> Seq<(Seq<char>, Seq<Seq<char>>)> {
    seq![
        ("ID"@, seq!["id"@]),
        ("NAME"@, seq!["name"@]),
        ("PROVIDER"@, seq!["provider"@]),
        ("REGION"@, seq!["region"@]),
        ("STATUS"@, seq!["status"@]),
        ("IP"@, seq!["ip_address"@, "ip"@]),
        ("UPDATED"@, seq!["updated_at"@]),
    ]
}

fn servers_columns() -> (r: &'static [(&'static str, &'static [&'static str])])
    ensures
        col_views(r@) == servers_cols(),
{
    let r: &'static [(&'static str, &'static [&'static str])] = &[("ID", &["id"]), ("NAME", &["name"]), ("PROVIDER", &["provider"]), ("REGION", &["region"]), ("STATUS", &["status"]), ("IP", &["ip_address", "ip"]), ("UPDATED", &["updated_at"])];
    assert(r@[0].1@.map_values(|n: &str| n@) =~= seq!["id"@]);
    assert(r@[1].1@.map_values(|n: &str| n@) =~= seq!["name"@]);
    assert(r@[2].1@.map_values(|n: &str| n@) =~= seq!["provider"@]);
    assert(r@[3].1@.map_values(|n: &str| n@) =~= seq!["region"@]);
    assert(r@[4].1@.map_values(|n: &str| n@) =~= seq!["status"@]);
    assert(r@[5].1@.map_values(|n: &str| n@) =~= seq!["ip_address"@, "ip"@]);
    assert(r@[6].1@.map_values(|n: &str| n@) =~= seq!["updated_at"@]);
    assert(col_views(r@) =~= servers_cols());
    r
}

/// The columns (or fields) of `firewall`.
pub open spec fn firewall_cols() -> Seq<(Seq<char>, Seq<Seq<char>>)> {
    seq![
        ("ACTION"@, seq!["action"@]),
        ("PROTO"@, seq!["protocol"@]),
        ("PORT"@, seq!["port"@, "port_range"@]),
        ("SOURCE"@, seq!["source"@]),
        ("COMMENT"@, seq!["comment"@]),
    ]
}

fn firewall_columns() -> (r: &'static [(&'static str, &'static [&'static str])])
    ensures
        col_views(r@) == firewall_cols(),
{
    let r: &'static [(&'static str, &'static [&'static str])] = &[("ACTION", &["action"]), ("PROTO", &["protocol"]), ("PORT", &["port", "port_range"]), ("SOURCE", &["source"]), ("COMMENT", &["comment"])];
    assert(r@[0].1@.map_values(|n: &str| n@) =~= seq!["action"@]);
    assert(r@[1].1@.map_values(|n: &str| n@) =~= seq!["protocol"@]);
    assert(r@[2].1@.map_values(|n: &str| n@) =~= seq!["port"@, "port_range"@]);
    assert(r@[3].1@.map_values(|n: &str| n@) =~= seq!["source"@]);
    assert(r@[4].1@.map_values(|n: &str| n@) =~= seq!["comment"@]);
    assert(col_views(r@) =~= firewall_cols());
    r
}

/// The columns (or fields) of `log_shipping`.
pub open spec fn log_shipping_cols() -> Seq<(Seq<char>, Seq<Seq<char>>)> {
    seq![
        ("Addon enabled"@, seq!["addon_enabled"@]),
        ("Installed"@, seq!["installed"@]),
        ("Status"@, seq!["status"@]),
        ("Version"@, seq!["version"@]),
        ("Last seen"@, seq!["last_seen_at"@]),
        ("Destination"@, seq!["destination"@]),
        ("Shipping"@, seq!["shipping"@]),
        ("Error"@, seq!["error_message"@]),
    ]
}

fn log_shipping_columns() -> (r: &'static [(&'static str, &'static [&'static str])])
    ensures
        col_views(r@) == log_shipping_cols(),
{
    let r: &'static [(&'static str, &'static [&'static str])] = &[("Addon enabled", &["addon_enabled"]), ("Installed", &["installed"]), ("Status", &["status"]), ("Version", &["version"]), ("Last seen", &["last_seen_at"]), ("Destination", &["destination"]), ("Shipping", &["shipping"]), ("Error", &["error_message"])];
    assert(r@[0].1@.map_values(|n: &str| n@) =~= seq!["addon_enabled"@]);
    assert(r@[1].1@.map_values(|n: &str| n@) =~= seq!["installed"@]);
    assert(r@[2].1@.map_values(|n: &str| n@) =~= seq!["status"@]);
    assert(r@[3].1@.map_values(|n: &str| n@) =~= seq!["version"@]);
    assert(r@[4].1@.map_values(|n: &str| n@) =~= seq!["last_seen_at"@]);
    assert(r@[5].1@.map_values(|n: &str| n@) =~= seq!["destination"@]);
    assert(r@[6].1@.map_values(|n: &str| n@) =~= seq!["shipping"@]);
    assert(r@[7].1@.map_values(|n: &str| n@) =~= seq!["error_message"@]);
    assert(col_views(r@) =~= log_shipping_cols());
    r
}

/// The columns (or fields) of `sites`.
pub open spec fn sites_cols() -> Seq<(Seq<char>, Seq<Seq<char>>)> {
    seq![
        ("ID"@, seq!["id"@]),
        ("NAME"@, seq!["name"@]),
        ("SERVER"@, seq!["server.name"@, "server_name"@]),
        ("RUNTIME"@, seq!["runtime"@, "runtime_profile"@]),
        ("STATUS"@, seq!["status"@]),
        ("UPDATED"@, seq!["updated_at"@]),
    ]
}

fn sites_columns() -> (r: &'static [(&'static str, &'static [&'static str])])
    ensures
        col_views(r@) == sites_cols(),
{
    let r: &'static [(&'static str, &'static [&'static str])] = &[("ID", &["id"]), ("NAME", &["name"]), ("SERVER", &["server.name", "server_name"]), ("RUNTIME", &["runtime", "runtime_profile"]), ("STATUS", &["status"]), ("UPDATED", &["updated_at"])];
    assert(r@[0].1@.map_values(|n: &str| n@) =~= seq!["id"@]);
    assert(r@[1].1@.map_values(|n: &str| n@) =~= seq!["name"@]);
    assert(r@[2].1@.map_values(|n: &str| n@) =~= seq!["server.name"@, "server_name"@]);
    assert(r@[3].1@.map_values(|n: &str| n@) =~= seq!["runtime"@, "runtime_profile"@]);
    assert(r@[4].1@.map_values(|n: &str| n@) =~= seq!["status"@]);
    assert(r@[5].1@.map_values(|n: &str| n@) =~= seq!["updated_at"@]);
    assert(col_views(r@) =~= sites_cols());
    r
}

/// The columns (or fields) of `site_show`.
pub open spec fn site_show_cols() -> Seq<(Seq<char>, Seq<Seq<char>>)> {
    seq![
        ("Name"@, seq!["name"@]),
        ("Slug"@, seq!["slug"@]),
        ("Server"@, seq!["server_name"@]),
        ("Runtime"@, seq!["runtime"@]),
        ("Runtime ver"@, seq!["runtime_version"@]),
        ("Status"@, seq!["status"@]),
        ("SSL"@, seq!["ssl_status"@]),
        ("Repo"@, seq!["git_repository_url"@]),
        ("Branch"@, seq!["git_branch"@]),
        ("Last deploy"@, seq!["last_deploy_at"@]),
    ]
}

fn site_show_columns() -> (r: &'static [(&'static str, &'static [&'static str])])
    ensures
        col_views(r@) == site_show_cols(),
{
    let r: &'static [(&'static str, &'static [&'static str])] = &[("Name", &["name"]), ("Slug", &["slug"]), ("Server", &["server_name"]), ("Runtime", &["runtime"]), ("Runtime ver", &["runtime_version"]), ("Status", &["status"]), ("SSL", &["ssl_status"]), ("Repo", &["git_repository_url"]), ("Branch", &["git_branch"]), ("Last deploy", &["last_deploy_at"])];
    assert(r@[0].1@.map_values(|n: &str| n@) =~= seq!["name"@]);
    assert(r@[1].1@.map_values(|n: &str| n@) =~= seq!["slug"@]);
    assert(r@[2].1@.map_values(|n: &str| n@) =~= seq!["server_name"@]);
    assert(r@[3].1@.map_values(|n: &str| n@) =~= seq!["runtime"@]);
    assert(r@[4].1@.map_values(|n: &str| n@) =~= seq!["runtime_version"@]);
    assert(r@[5].1@.map_values(|n: &str| n@) =~= seq!["status"@]);
    assert(r@[6].1@.map_values(|n: &str| n@) =~= seq!["ssl_status"@]);
    assert(r@[7].1@.map_values(|n: &str| n@) =~= seq!["git_repository_url"@]);
    assert(r@[8].1@.map_values(|n: &str| n@) =~= seq!["git_branch"@]);
    assert(r@[9].1@.map_values(|n: &str| n@) =~= seq!["last_deploy_at"@]);
    assert(col_views(r@) =~= site_show_cols());
    r
}

/// The columns (or fields) of `site_deployments`.
pub open spec fn site_deployments_cols() -> Seq<(Seq<char>, Seq<Seq<char>>)> {
    seq![
        ("ID"@, seq!["id"@]),
        ("STATUS"@, seq!["status"@]),
        ("COMMIT"@, seq!["commit"@, "git_commit"@]),
        ("STARTED"@, seq!["started_at"@]),
        ("FINISHED"@, seq!["finished_at"@]),
    ]
}

fn site_deployments_columns() -> (r: &'static [(&'static str, &'static [&'static str])])
    ensures
        col_views(r@) == site_deployments_cols(),
{
    let r: &'static [(&'static str, &'static [&'static str])] = &[("ID", &["id"]), ("STATUS", &["status"]), ("COMMIT", &["commit", "git_commit"]), ("STARTED", &["started_at"]), ("FINISHED", &["finished_at"])];
    assert(r@[0].1@.map_values(|n: &str| n@) =~= seq!["id"@]);
    assert(r@[1].1@.map_values(|n: &str| n@) =~= seq!["status"@]);
    assert(r@[2].1@.map_values(|n: &str| n@) =~= seq!["commit"@, "git_commit"@]);
    assert(r@[3].1@.map_values(|n: &str| n@) =~= seq!["started_at"@]);
    assert(r@[4].1@.map_values(|n: &str| n@) =~= seq!["finished_at"@]);
    assert(col_views(r@) =~= site_deployments_cols());
    r
}

/// The columns (or fields) of `site_deployment`.
pub open spec fn site_deployment_cols() -> Seq<(Seq<char>, Seq<Seq<char>>)> {
    seq![
        ("ID"@, seq!["id"@]),
        ("Status"@, seq!["status"@]),
        ("Commit"@, seq!["commit"@, "git_commit"@]),
        ("Branch"@, seq!["branch"@, "git_branch"@]),
        ("Author"@, seq!["commit_author"@]),
        ("Subject"@, seq!["commit_subject"@]),
        ("Started"@, seq!["started_at"@]),
        ("Finished"@, seq!["finished_at"@]),
        ("Duration"@, seq!["duration"@]),
    ]
}

fn site_deployment_columns() -> (r: &'static [(&'static str, &'static [&'static str])])
    ensures
        col_views(r@) == site_deployment_cols(),
{
    let r: &'static [(&'static str, &'static [&'static str])] = &[("ID", &["id"]), ("Status", &["status"]), ("Commit", &["commit", "git_commit"]), ("Branch", &["branch", "git_branch"]), ("Author", &["commit_author"]), ("Subject", &["commit_subject"]), ("Started", &["started_at"]), ("Finished", &["finished_at"]), ("Duration", &["duration"])];
    assert(r@[0].1@.map_values(|n: &str| n@) =~= seq!["id"@]);
    assert(r@[1].1@.map_values(|n: &str| n@) =~= seq!["status"@]);
    assert(r@[2].1@.map_values(|n: &str| n@) =~= seq!["commit"@, "git_commit"@]);
    assert(r@[3].1@.map_values(|n: &str| n@) =~= seq!["branch"@, "git_branch"@]);
    assert(r@[4].1@.map_values(|n: &str| n@) =~= seq!["commit_author"@]);
    assert(r@[5].1@.map_values(|n: &str| n@) =~= seq!["commit_subject"@]);
    assert(r@[6].1@.map_values(|n: &str| n@) =~= seq!["started_at"@]);
    assert(r@[7].1@.map_values(|n: &str| n@) =~= seq!["finished_at"@]);
    assert(r@[8].1@.map_values(|n: &str| n@) =~= seq!["duration"@]);
    assert(col_views(r@) =~= site_deployment_cols());
    r
}

/// The columns (or fields) of `commits`.
pub open spec fn commits_cols() -> Seq<(Seq<char>, Seq<Seq<char>>)> {
    seq![
        ("SHA"@, seq!["short_sha"@, "sha"@]),
        ("MESSAGE"@, seq!["message"@]),
        ("AUTHOR"@, seq!["author_name"@]),
        ("WHEN"@, seq!["committed_at"@]),
    ]
}

fn commits_columns() -> (r: &'static [(&'static str, &'static [&'static str])])
    ensures
        col_views(r@) == commits_cols(),
{
    let r: &'static [(&'static str, &'static [&'static str])] = &[("SHA", &["short_sha", "sha"]), ("MESSAGE", &["message"]), ("AUTHOR", &["author_name"]), ("WHEN", &["committed_at"])];
    assert(r@[0].1@.map_values(|n: &str| n@) =~= seq!["short_sha"@, "sha"@]);
    assert(r@[1].1@.map_values(|n: &str| n@) =~= seq!["message"@]);
    assert(r@[2].1@.map_values(|n: &str| n@) =~= seq!["author_name"@]);
    assert(r@[3].1@.map_values(|n: &str| n@) =~= seq!["committed_at"@]);
    assert(col_views(r@) =~= commits_cols());
    r
}

/// The columns (or fields) of `site_domains`.
pub open spec fn site_domains_cols() -> Seq<(Seq<char>, Seq<Seq<char>>)> {
    seq![
        ("HOSTNAME"@, seq!["hostname"@]),
        ("PRIMARY"@, seq!["is_primary"@]),
        ("WWW REDIRECT"@, seq!["www_redirect"@]),
    ]
}

fn site_domains_columns() -> (r: &'static [(&'static str, &'static [&'static str])])
    ensures
        col_views(r@) == site_domains_cols(),
{
    let r: &'static [(&'static str, &'static [&'static str])] = &[("HOSTNAME", &["hostname"]), ("PRIMARY", &["is_primary"]), ("WWW REDIRECT", &["www_redirect"])];
    assert(r@[0].1@.map_values(|n: &str| n@) =~= seq!["hostname"@]);
    assert(r@[1].1@.map_values(|n: &str| n@) =~= seq!["is_primary"@]);
    assert(r@[2].1@.map_values(|n: &str| n@) =~= seq!["www_redirect"@]);
    assert(col_views(r@) =~= site_domains_cols());
    r
}

/// The columns (or fields) of `basic_auth`.
pub open spec fn basic_auth_cols() -> Seq<(Seq<char>, Seq<Seq<char>>)> {
    seq![
        ("USERNAME"@, seq!["username"@]),
        ("PATH"@, seq!["path"@]),
    ]
}

fn basic_auth_columns() -> (r: &'static [(&'static str, &'static [&'static str])])
    ensures
        col_views(r@) == basic_auth_cols(),
{
    let r: &'static [(&'static str, &'static [&'static str])] = &[("USERNAME", &["username"]), ("PATH", &["path"])];
    assert(r@[0].1@.map_values(|n: &str| n@) =~= seq!["username"@]);
    assert(r@[1].1@.map_values(|n: &str| n@) =~= seq!["path"@]);
    assert(col_views(r@) =~= basic_auth_cols());
    r
}

/// The columns (or fields) of `databases`.
pub open spec fn databases_cols() -> Seq<(Seq<char>, Seq<Seq<char>>)> {
    seq![
        ("NAME"@, seq!["name"@]),
        ("ENGINE"@, seq!["engine"@]),
        ("USER"@, seq!["username"@]),
        ("HOST"@, seq!["host"@]),
        ("SITE OWNED"@, seq!["site_owned"@]),
    ]
}

fn databases_columns() -> (r: &'static [(&'static str, &'static [&'static str])])
    ensures
        col_views(r@) == databases_cols(),
{
    let r: &'static [(&'static str, &'static [&'static str])] = &[("NAME", &["name"]), ("ENGINE", &["engine"]), ("USER", &["username"]), ("HOST", &["host"]), ("SITE OWNED", &["site_owned"])];
    assert(r@[0].1@.map_values(|n: &str| n@) =~= seq!["name"@]);
    assert(r@[1].1@.map_values(|n: &str| n@) =~= seq!["engine"@]);
    assert(r@[2].1@.map_values(|n: &str| n@) =~= seq!["username"@]);
    assert(r@[3].1@.map_values(|n: &str| n@) =~= seq!["host"@]);
    assert(r@[4].1@.map_values(|n: &str| n@) =~= seq!["site_owned"@]);
    assert(col_views(r@) =~= databases_cols());
    r
}

/// The columns (or fields) of `deploy_schedules`.
pub open spec fn deploy_schedules_cols() -> Seq<(Seq<char>, Seq<Seq<char>>)> {
    seq![
        ("CRON"@, seq!["cron_expression"@]),
        ("BRANCH"@, seq!["git_branch"@]),
        ("TZ"@, seq!["timezone"@]),
        ("ACTIVE"@, seq!["is_active"@]),
        ("LAST RUN"@, seq!["last_run_at"@]),
    ]
}

fn deploy_schedules_columns() -> (r: &'static [(&'static str, &'static [&'static str])])
    ensures
        col_views(r@) == deploy_schedules_cols(),
{
    let r: &'static [(&'static str, &'static [&'static str])] = &[("CRON", &["cron_expression"]), ("BRANCH", &["git_branch"]), ("TZ", &["timezone"]), ("ACTIVE", &["is_active"]), ("LAST RUN", &["last_run_at"])];
    assert(r@[0].1@.map_values(|n: &str| n@) =~= seq!["cron_expression"@]);
    assert(r@[1].1@.map_values(|n: &str| n@) =~= seq!["git_branch"@]);
    assert(r@[2].1@.map_values(|n: &str| n@) =~= seq!["timezone"@]);
    assert(r@[3].1@.map_values(|n: &str| n@) =~= seq!["is_active"@]);
    assert(r@[4].1@.map_values(|n: &str| n@) =~= seq!["last_run_at"@]);
    assert(col_views(r@) =~= deploy_schedules_cols());
    r
}

/// The columns (or fields) of `cron_jobs`.
pub open spec fn cron_jobs_cols() -> Seq<(Seq<char>, Seq<Seq<char>>)> {
    seq![
        ("CRON"@, seq!["cron_expression"@]),
        ("COMMAND"@, seq!["command"@]),
        ("USER"@, seq!["user"@]),
        ("ENABLED"@, seq!["enabled"@]),
        ("LAST RUN"@, seq!["last_run_at"@]),
    ]
}

fn cron_jobs_columns() -> (r: &'static [(&'static str, &'static [&'static str])])
    ensures
        col_views(r@) == cron_jobs_cols(),
{
    let r: &'static [(&'static str, &'static [&'static str])] = &[("CRON", &["cron_expression"]), ("COMMAND", &["command"]), ("USER", &["user"]), ("ENABLED", &["enabled"]), ("LAST RUN", &["last_run_at"])];
    assert(r@[0].1@.map_values(|n: &str| n@) =~= seq!["cron_expression"@]);
    assert(r@[1].1@.map_values(|n: &str| n@) =~= seq!["command"@]);
    assert(r@[2].1@.map_values(|n: &str| n@) =~= seq!["user"@]);
    assert(r@[3].1@.map_values(|n: &str| n@) =~= seq!["enabled"@]);
    assert(r@[4].1@.map_values(|n: &str| n@) =~= seq!["last_run_at"@]);
    assert(col_views(r@) =~= cron_jobs_cols());
    r
}

/// The columns (or fields) of `ssl`.
pub open spec fn ssl_cols() -> Seq<(Seq<char>, Seq<Seq<char>>)> {
    seq![
        ("PROVIDER"@, seq!["provider_type"@]),
        ("CHALLENGE"@, seq!["challenge_type"@]),
        ("STATUS"@, seq!["status"@]),
        ("EXPIRES"@, seq!["expires_at"@]),
        ("INSTALLED"@, seq!["last_installed_at"@]),
    ]
}

fn ssl_columns() -> (r: &'static [(&'static str, &'static [&'static str])])
    ensures
        col_views(r@) == ssl_cols(),
{
    let r: &'static [(&'static str, &'static [&'static str])] = &[("PROVIDER", &["provider_type"]), ("CHALLENGE", &["challenge_type"]), ("STATUS", &["status"]), ("EXPIRES", &["expires_at"]), ("INSTALLED", &["last_installed_at"])];
    assert(r@[0].1@.map_values(|n: &str| n@) =~= seq!["provider_type"@]);
    assert(r@[1].1@.map_values(|n: &str| n@) =~= seq!["challenge_type"@]);
    assert(r@[2].1@.map_values(|n: &str| n@) =~= seq!["status"@]);
    assert(r@[3].1@.map_values(|n: &str| n@) =~= seq!["expires_at"@]);
    assert(r@[4].1@.map_values(|n: &str| n@) =~= seq!["last_installed_at"@]);
    assert(col_views(r@) =~= ssl_cols());
    r
}

/// The columns (or fields) of `system_user`.
pub open spec fn system_user_cols() -> Seq<(Seq<char>, Seq<Seq<char>>)> {
    seq![
        ("Username"@, seq!["username"@]),
        ("Server"@, seq!["server_name"@]),
    ]
}

fn system_user_columns() -> (r: &'static [(&'static str, &'static [&'static str])])
    ensures
        col_views(r@) == system_user_cols(),
{
    let r: &'static [(&'static str, &'static [&'static str])] = &[("Username", &["username"]), ("Server", &["server_name"])];
    assert(r@[0].1@.map_values(|n: &str| n@) =~= seq!["username"@]);
    assert(r@[1].1@.map_values(|n: &str| n@) =~= seq!["server_name"@]);
    assert(col_views(r@) =~= system_user_cols());
    r
}

/// The columns (or fields) of `uptime`.
pub open spec fn uptime_cols() -> Seq<(Seq<char>, Seq<Seq<char>>)> {
    seq![
        ("LABEL"@, seq!["label"@]),
        ("PATH"@, seq!["path"@]),
        ("STATUS"@, seq!["status"@]),
        ("HTTP"@, seq!["http_status"@]),
        ("LATENCY"@, seq!["latency_ms"@]),
        ("CHECKED"@, seq!["last_checked_at"@]),
    ]
}

fn uptime_columns() -> (r: &'static [(&'static str, &'static [&'static str])])
    ensures
        col_views(r@) == uptime_cols(),
{
    let r: &'static [(&'static str, &'static [&'static str])] = &[("LABEL", &["label"]), ("PATH", &["path"]), ("STATUS", &["status"]), ("HTTP", &["http_status"]), ("LATENCY", &["latency_ms"]), ("CHECKED", &["last_checked_at"])];
    assert(r@[0].1@.map_values(|n: &str| n@) =~= seq!["label"@]);
    assert(r@[1].1@.map_values(|n: &str| n@) =~= seq!["path"@]);
    assert(r@[2].1@.map_values(|n: &str| n@) =~= seq!["status"@]);
    assert(r@[3].1@.map_values(|n: &str| n@) =~= seq!["http_status"@]);
    assert(r@[4].1@.map_values(|n: &str| n@) =~= seq!["latency_ms"@]);
    assert(r@[5].1@.map_values(|n: &str| n@) =~= seq!["last_checked_at"@]);
    assert(col_views(r@) =~= uptime_cols());
    r
}

/// The columns (or fields) of `workers`.
pub open spec fn workers_cols() -> Seq<(Seq<char>, Seq<Seq<char>>)> {
    seq![
        ("TYPE"@, seq!["type"@]),
        ("NAME"@, seq!["name"@]),
        ("COMMAND"@, seq!["command"@]),
        ("SCALE"@, seq!["scale"@]),
        ("ACTIVE"@, seq!["is_active"@]),
    ]
}

fn workers_columns() -> (r: &'static [(&'static str, &'static [&'static str])])
    ensures
        col_views(r@) == workers_cols(),
{
    let r: &'static [(&'static str, &'static [&'static str])] = &[("TYPE", &["type"]), ("NAME", &["name"]), ("COMMAND", &["command"]), ("SCALE", &["scale"]), ("ACTIVE", &["is_active"])];
    assert(r@[0].1@.map_values(|n: &str| n@) =~= seq!["type"@]);
    assert(r@[1].1@.map_values(|n: &str| n@) =~= seq!["name"@]);
    assert(r@[2].1@.map_values(|n: &str| n@) =~= seq!["command"@]);
    assert(r@[3].1@.map_values(|n: &str| n@) =~= seq!["scale"@]);
    assert(r@[4].1@.map_values(|n: &str| n@) =~= seq!["is_active"@]);
    assert(col_views(r@) =~= workers_cols());
    r
}

/// The columns (or fields) of `errors`.
pub open spec fn errors_cols() -> Seq<(Seq<char>, Seq<Seq<char>>)> {
    seq![
        ("CATEGORY"@, seq!["category"@]),
        ("TITLE"@, seq!["title"@]),
        ("WHEN"@, seq!["occurred_at"@]),
    ]
}

fn errors_columns() -> (r: &'static [(&'static str, &'static [&'static str])])
    ensures
        col_views(r@) == errors_cols(),
{
    let r: &'static [(&'static str, &'static [&'static str])] = &[("CATEGORY", &["category"]), ("TITLE", &["title"]), ("WHEN", &["occurred_at"])];
    assert(r@[0].1@.map_values(|n: &str| n@) =~= seq!["category"@]);
    assert(r@[1].1@.map_values(|n: &str| n@) =~= seq!["title"@]);
    assert(r@[2].1@.map_values(|n: &str| n@) =~= seq!["occurred_at"@]);
    assert(col_views(r@) =~= errors_cols());
    r
}

/// The columns (or fields) of `site_env`.
pub open spec fn site_env_cols() -> Seq<(Seq<char>, Seq<Seq<char>>)> {
    seq![
        ("KEY"@, seq!["key"@]),
    ]
}

fn site_env_columns() -> (r: &'static [(&'static str, &'static [&'static str])])
    ensures
        col_views(r@) == site_env_cols(),
{
    let r: &'static [(&'static str, &'static [&'static str])] = &[("KEY", &["key"])];
    assert(r@[0].1@.map_values(|n: &str| n@) =~= seq!["key"@]);
    assert(col_views(r@) =~= site_env_cols());
    r
}

/// The columns (or fields) of `findings`.
pub open spec fn findings_cols() -> Seq<(Seq<char>, Seq<Seq<char>>)> {
    seq![
        ("SEVERITY"@, seq!["severity"@]),
        ("CATEGORY"@, seq!["category"@]),
        ("TITLE"@, seq!["title"@, "message"@]),
        ("DETECTED"@, seq!["detected_at"@, "created_at"@]),
        ("ACK"@, seq!["acknowledged_at"@]),
    ]
}

fn findings_columns() -> (r: &'static [(&'static str, &'static [&'static str])])
    ensures
        col_views(r@) == findings_cols(),
{
    let r: &'static [(&'static str, &'static [&'static str])] = &[("SEVERITY", &["severity"]), ("CATEGORY", &["category"]), ("TITLE", &["title", "message"]), ("DETECTED", &["detected_at", "created_at"]), ("ACK", &["acknowledged_at"])];
    assert(r@[0].1@.map_values(|n: &str| n@) =~= seq!["severity"@]);
    assert(r@[1].1@.map_values(|n: &str| n@) =~= seq!["category"@]);
    assert(r@[2].1@.map_values(|n: &str| n@) =~= seq!["title"@, "message"@]);
    assert(r@[3].1@.map_values(|n: &str| n@) =~= seq!["detected_at"@, "created_at"@]);
    assert(r@[4].1@.map_values(|n: &str| n@) =~= seq!["acknowledged_at"@]);
    assert(col_views(r@) =~= findings_cols());
    r
}

/// The columns (or fields) of `migrations`.
pub open spec fn migrations_cols() -> Seq<(Seq<char>, Seq<Seq<char>>)> {
    seq![
        ("ID"@, seq!["id"@]),
        ("SOURCE"@, seq!["source"@]),
        ("STATUS"@, seq!["status"@]),
        ("ITEMS"@, seq!["item_count"@, "items"@]),
        ("UPDATED"@, seq!["updated_at"@]),
    ]
}

fn migrations_columns() -> (r: &'static [(&'static str, &'static [&'static str])])
    ensures
        col_views(r@) == migrations_cols(),
{
    let r: &'static [(&'static str, &'static [&'static str])] = &[("ID", &["id"]), ("SOURCE", &["source"]), ("STATUS", &["status"]), ("ITEMS", &["item_count", "items"]), ("UPDATED", &["updated_at"])];
    assert(r@[0].1@.map_values(|n: &str| n@) =~= seq!["id"@]);
    assert(r@[1].1@.map_values(|n: &str| n@) =~= seq!["source"@]);
    assert(r@[2].1@.map_values(|n: &str| n@) =~= seq!["status"@]);
    assert(r@[3].1@.map_values(|n: &str| n@) =~= seq!["item_count"@, "items"@]);
    assert(r@[4].1@.map_values(|n: &str| n@) =~= seq!["updated_at"@]);
    assert(col_views(r@) =~= migrations_cols());
    r
}

/// The columns (or fields) of `operator`.
pub open spec fn operator_cols() -> Seq<(Seq<char>, Seq<Seq<char>>)> {
    seq![
        ("Operator"@, seq!["operator.name"@]),
        ("Email"@, seq!["operator.email"@]),
        ("Role"@, seq!["operator.role"@]),
        ("Organization"@, seq!["organization.name"@]),
        ("Org ID"@, seq!["organization.id"@]),
        ("Plan"@, seq!["organization.plan"@]),
    ]
}

fn operator_columns() -> (r: &'static [(&'static str, &'static [&'static str])])
    ensures
        col_views(r@) == operator_cols(),
{
    let r: &'static [(&'static str, &'static [&'static str])] = &[("Operator", &["operator.name"]), ("Email", &["operator.email"]), ("Role", &["operator.role"]), ("Organization", &["organization.name"]), ("Org ID", &["organization.id"]), ("Plan", &["organization.plan"])];
    assert(r@[0].1@.map_values(|n: &str| n@) =~= seq!["operator.name"@]);
    assert(r@[1].1@.map_values(|n: &str| n@) =~= seq!["operator.email"@]);
    assert(r@[2].1@.map_values(|n: &str| n@) =~= seq!["operator.role"@]);
    assert(r@[3].1@.map_values(|n: &str| n@) =~= seq!["organization.name"@]);
    assert(r@[4].1@.map_values(|n: &str| n@) =~= seq!["organization.id"@]);
    assert(r@[5].1@.map_values(|n: &str| n@) =~= seq!["organization.plan"@]);
    assert(col_views(r@) =~= operator_cols());
    r
}

// ------------------------------------------------------------------ rendering

/// What a command shows: the reply as pretty JSON (`raw`, printed first),
/// lines for standard output and for standard error, and the message it
/// fails with after printing them.
#[derive(Debug, Clone)]
pub struct Shown {
    pub raw: bool,
    pub out: Vec<String>,
    pub err: Vec<String>,
    pub failure: Option<String>,
}

/// What a command shows, as plain values.
pub open spec fn shown_view(s: Shown) -> (bool, Seq<Seq<char>>, Seq<Seq<char>>, Option<Seq<char>>) {
    (s.raw, str_views(s.out@), str_views(s.err@), opt_view(s.failure))
}

/// Only the reply as JSON.
pub open spec fn raw_view() -> (bool, Seq<Seq<char>>, Seq<Seq<char>>, Option<Seq<char>>) {
    (true, Seq::empty(), Seq::empty(), None)
}

/// Only lines.
pub open spec fn lines_view(ls: Seq<Seq<char>>) -> (bool, Seq<Seq<char>>, Seq<Seq<char>>, Option<Seq<char>>) {
    (false, ls, Seq::empty(), None)
}

/// A list reply as a table, or as JSON under `--json`.
pub open spec fn rows_view(json: bool, v: Json, cols: Seq<(Seq<char>, Seq<Seq<char>>)>) -> (bool, Seq<Seq<char>>, Seq<Seq<char>>, Option<Seq<char>>) {
    if json {
        raw_view()
    } else {
        lines_view(table_text(v, cols))
    }
}

/// An object reply as a detail block, or as JSON under `--json`.
pub open spec fn detail_view(json: bool, v: Json, fields: Seq<(Seq<char>, Seq<Seq<char>>)>) -> (bool, Seq<Seq<char>>, Seq<Seq<char>>, Option<Seq<char>>) {
    if json {
        raw_view()
    } else {
        lines_view(detail_text(v, fields))
    }
}

/// Every scalar key of an object reply; JSON under `--json` or for anything
/// but an object.
pub open spec fn dump_view(json: bool, v: Json) -> (bool, Seq<Seq<char>>, Seq<Seq<char>>, Option<Seq<char>>) {
    if json {
        raw_view()
    } else {
        match dump_lines(v) {
            Some(ls) => lines_view(ls),
            None => raw_view(),
        }
    }
}

/// A queued action's acknowledgement, or the reply as JSON.
pub open spec fn action_view(json: bool, v: Json, verb: Seq<char>) -> (bool, Seq<Seq<char>>, Seq<Seq<char>>, Option<Seq<char>>) {
    if json {
        raw_view()
    } else {
        lines_view(seq![action_note(v, verb)])
    }
}

/// A field's cell.
pub open spec fn cell_at(v: Json, names: Seq<Seq<char>>) -> Seq<char> {
    cell_text(first_field(v, names))
}

/// The member `key`, else `v` itself.
pub open spec fn member_or(v: Json, key: Seq<char>) -> Json {
    match get_key(v, key) {
        Some(w) => w,
        None => v,
    }
}

/// The member `key`, else null.
pub open spec fn member_or_null(v: Json, key: Seq<char>) -> Json {
    match get_key(v, key) {
        Some(w) => w,
        None => Json::Null,
    }
}

/// How a command shows the reply `v` to its last request.
pub open spec fn rendered(cmd: DplyCmd, json: bool, v: Json) -> (bool, Seq<Seq<char>>, Seq<Seq<char>>, Option<Seq<char>>) {
    match cmd {
        DplyCmd::EdgeSites { .. } => rows_view(json, v, edge_sites_cols()),
        DplyCmd::EdgeShow { .. } => detail_view(json, v, edge_show_cols()),
        DplyCmd::EdgeDeploy { .. } => action_view(json, v, "Deployment queued."@),
        DplyCmd::EdgeDeployments { .. } => rows_view(json, v, edge_deployments_cols()),
        DplyCmd::EdgeDeployment { .. } => detail_view(json, v, edge_deployment_cols()),
        DplyCmd::EdgeRollback { .. } => action_view(json, v, "Rollback queued."@),
        DplyCmd::EdgeAccess { .. } => detail_view(json, v, edge_access_cols()),
        DplyCmd::EdgeEnv { .. } => rows_view(json, v, edge_env_cols()),
        DplyCmd::EdgeDomains { .. } => rows_view(json, v, edge_domains_cols()),
        DplyCmd::EdgeAliases { .. } => rows_view(json, v, edge_aliases_cols()),
        DplyCmd::EdgePreviews { .. } => rows_view(json, v, edge_previews_cols()),
        DplyCmd::EdgeUsage { .. } => dump_view(json, v),
        DplyCmd::EdgePurge { site, paths } => lines_view(
            seq![
                if paths@.len() == 0 {
                    "\u{2713} Purged all cached paths for "@ + site@ + "."@
                } else {
                    "\u{2713} Purged "@ + dec(paths@.len()) + " path(s) for "@ + site@ + "."@
                },
            ],
        ),
        DplyCmd::EdgeLogs { .. } => lines_view(rows_of(v).map_values(|j: Json| log_line(j))),
        DplyCmd::EdgeLint { path, .. } => if json {
            raw_view()
        } else {
            let (ok, ls) = lint_outcome(v);
            if ok {
                lines_view(ls.push("\u{2713} "@ + path@ + " is valid."@))
            } else {
                (false, ls, Seq::empty(), Some(path@ + " has lint errors."@))
            }
        },
        DplyCmd::ServersList => rows_view(json, v, servers_cols()),
        DplyCmd::ServersRun { .. } => if json {
            raw_view()
        } else {
            let out = cell_at(v, seq!["stdout"@, "output"@]);
            let err = cell_at(v, seq!["stderr"@]);
            (
                false,
                (if out.len() > 0 {
                    seq![out]
                } else {
                    Seq::empty()
                }) + seq!["[exit "@ + cell_at(v, seq!["exit_code"@]) + "]"@],
                if err.len() > 0 {
                    seq![err]
                } else {
                    Seq::empty()
                },
                None,
            )
        },
        DplyCmd::ServersFirewall { template, bundled, apply, .. } => match template {
            Some(t) => lines_view(seq!["\u{2713} Applied firewall template `"@ + t@ + "`."@]),
            None => match bundled {
                Some(k) => lines_view(seq!["\u{2713} Applied bundled firewall `"@ + k@ + "`."@]),
                None => if apply {
                    lines_view(seq!["\u{2713} Firewall apply queued."@])
                } else {
                    rows_view(json, member_or(v, "rules"@), firewall_cols())
                },
            },
        },
        DplyCmd::ServersLogShipping { enable, resync, disable, .. } => if enable {
            lines_view(seq!["\u{2713} Log shipping enabled."@])
        } else if resync {
            lines_view(seq!["\u{2713} Log shipping resync queued."@])
        } else if disable {
            lines_view(seq!["\u{2713} Log shipping disabled."@])
        } else {
            detail_view(json, v, log_shipping_cols())
        },
        DplyCmd::SitesList => rows_view(json, v, sites_cols()),
        DplyCmd::SitesShow { .. } => detail_view(json, v, site_show_cols()),
        DplyCmd::SitesRename { .. } => if json {
            raw_view()
        } else {
            lines_view(seq!["\u{2713} Renamed to "@ + cell_at(v, seq!["name"@])])
        },
        DplyCmd::SitesDeploy { .. } => action_view(json, v, "Deployment queued."@),
        DplyCmd::SitesDeployments { .. } => rows_view(json, v, site_deployments_cols()),
        DplyCmd::SitesDeployment { .. } => detail_view(json, v, site_deployment_cols()),
        DplyCmd::SitesCommits { .. } => rows_view(json, v, commits_cols()),
        DplyCmd::SitesDomainsAdd { hostname, .. } => lines_view(seq!["\u{2713} Added domain "@ + hostname@ + "."@]),
        DplyCmd::SitesDomainsList { .. } => rows_view(json, v, site_domains_cols()),
        DplyCmd::SitesDomainsRemove { hostname, .. } => lines_view(seq!["\u{2713} Removed domain "@ + hostname@ + "."@]),
        DplyCmd::SitesBasicAuthAdd { username, .. } => lines_view(
            seq!["\u{2713} Added basic-auth user "@ + username@ + "."@],
        ),
        DplyCmd::SitesBasicAuthList { .. } => rows_view(json, v, basic_auth_cols()),
        DplyCmd::SitesBasicAuthRemove { username, .. } => lines_view(
            seq!["\u{2713} Removed basic-auth user "@ + username@ + "."@],
        ),
        DplyCmd::SitesDbList { .. } => rows_view(json, v, databases_cols()),
        DplyCmd::SitesSchedules { .. } => if json {
            raw_view()
        } else {
            lines_view(
                seq!["Deploy schedules:"@] + table_text(member_or_null(v, "deploy_schedules"@), deploy_schedules_cols())
                    + seq![Seq::empty(), "Cron jobs:"@] + table_text(member_or_null(v, "cron_jobs"@), cron_jobs_cols()),
            )
        },
        DplyCmd::SitesSslStatus { .. } => if json {
            raw_view()
        } else {
            lines_view(
                seq!["SSL status: "@ + cell_at(v, seq!["ssl_status"@])] + table_text(member_or_null(v, "data"@), ssl_cols()),
            )
        },
        DplyCmd::SitesSystemUser { .. } => detail_view(json, v, system_user_cols()),
        DplyCmd::SitesUptime { .. } => rows_view(json, v, uptime_cols()),
        DplyCmd::SitesWorkers { .. } => rows_view(json, v, workers_cols()),
        DplyCmd::SitesErrors { .. } => rows_view(json, v, errors_cols()),
        DplyCmd::SiteEnv { .. } => rows_view(json, v, site_env_cols()),
        DplyCmd::InsightsSummary => dump_view(json, v),
        DplyCmd::InsightsServer { .. } => rows_view(
            json,
            match get_key(v, "findings"@) {
                Some(f) => f,
                None => member_or(v, "data"@),
            },
            findings_cols(),
        ),
        DplyCmd::ImportsMigrations => rows_view(json, v, migrations_cols()),
        DplyCmd::ImportsMigration { .. } => dump_view(json, v),
        DplyCmd::OperatorSummary => detail_view(json, v, operator_cols()),
        DplyCmd::OperatorReadme { raw } => if raw || json {
            raw_view()
        } else {
            let text = cell_at(v, seq!["markdown"@, "body"@, "content"@]);
            if text.len() == 0 {
                raw_view()
            } else {
                lines_view(seq![text])
            }
        },
    }
}

fn raw_shown() -> (r: Shown)
    ensures
        shown_view(r) == raw_view(),
{
    let r = Shown { raw: true, out: Vec::new(), err: Vec::new(), failure: None };
    assert(str_views(r.out@) =~= Seq::<Seq<char>>::empty());
    assert(str_views(r.err@) =~= Seq::<Seq<char>>::empty());
    r
}

fn lines_shown(out: Vec<String>) -> (r: Shown)
    ensures
        shown_view(r) == lines_view(str_views(out@)),
{
    let r = Shown { raw: false, out, err: Vec::new(), failure: None };
    assert(str_views(r.err@) =~= Seq::<Seq<char>>::empty());
    r
}

fn line_shown(l: String) -> (r: Shown)
    ensures
        shown_view(r) == lines_view(seq![l@]),
{
    let ghost lv = l@;
    let mut out: Vec<String> = Vec::new();
    out.push(l);
    assert(str_views(out@) =~= seq![lv]);
    lines_shown(out)
}

fn rows_shown(json: bool, v: &Json, cols: &[(&str, &[&str])]) -> (r: Shown)
    ensures
        shown_view(r) == rows_view(json, *v, col_views(cols@)),
{
    if json {
        raw_shown()
    } else {
        lines_shown(table_by(v, cols))
    }
}

fn detail_shown(json: bool, v: &Json, fields: &[(&str, &[&str])]) -> (r: Shown)
    ensures
        shown_view(r) == detail_view(json, *v, col_views(fields@)),
{
    if json {
        raw_shown()
    } else {
        lines_shown(detail_by(v, fields))
    }
}

fn dump_shown(json: bool, v: &Json) -> (r: Shown)
    ensures
        shown_view(r) == dump_view(json, *v),
{
    if json {
        return raw_shown();
    }
    match dump(v) {
        Some(ls) => lines_shown(ls),
        None => raw_shown(),
    }
}

fn action_shown(json: bool, v: &Json, verb: &str) -> (r: Shown)
    ensures
        shown_view(r) == action_view(json, *v, verb@),
{
    if json {
        raw_shown()
    } else {
        line_shown(action_line(v, verb))
    }
}

fn cell1(v: &Json, a: &str) -> (r: String)
    ensures
        r@ == cell_at(*v, seq![a@]),
{
    let names: [&str; 1] = [a];
    let r = cell_of(v, &names);
    assert(names@.map_values(|n: &str| n@) =~= seq![a@]);
    r
}

fn cell2(v: &Json, a: &str, b: &str) -> (r: String)
    ensures
        r@ == cell_at(*v, seq![a@, b@]),
{
    let names: [&str; 2] = [a, b];
    let r = cell_of(v, &names);
    assert(names@.map_values(|n: &str| n@) =~= seq![a@, b@]);
    r
}

fn cell3(v: &Json, a: &str, b: &str, c: &str) -> (r: String)
    ensures
        r@ == cell_at(*v, seq![a@, b@, c@]),
{
    let names: [&str; 3] = [a, b, c];
    let r = cell_of(v, &names);
    assert(names@.map_values(|n: &str| n@) =~= seq![a@, b@, c@]);
    r
}

fn purge_note(site: &str, n: usize) -> (r: String)
    ensures
        r@ == if n == 0 {
            "\u{2713} Purged all cached paths for "@ + site@ + "."@
        } else {
            "\u{2713} Purged "@ + dec(n as nat) + " path(s) for "@ + site@ + "."@
        },
{
    if n == 0 {
        cat3("\u{2713} Purged all cached paths for ", site, ".")
    } else {
        cat5("\u{2713} Purged ", dec_string(n as u64).as_str(), " path(s) for ", site, ".")
    }
}

fn log_lines(v: &Json) -> (r: Vec<String>)
    ensures
        str_views(r@) == rows_of(*v).map_values(|j: Json| log_line(j)),
{
    let rs = crate::json::rows(v);
    let ghost rv = rows_of(*v);
    let mut out: Vec<String> = Vec::new();
    let mut i: usize = 0;
    while i < rs.len()
        invariant
            i <= rs@.len(),
            rv == rows_of(*v),
            rs@.len() == rv.len(),
            forall|q: int| 0 <= q < rs@.len() ==> *(#[trigger] rs@[q]) == rv[q],
            str_views(out@) == rv.take(i as int).map_values(|j: Json| log_line(j)),
        decreases rs@.len() - i,
    {
        let l = log_row(rs[i]);
        let ghost o0 = str_views(out@);
        let ghost lv = l@;
        out.push(l);
        assert(str_views(out@) =~= o0.push(lv));
        assert(rv.take(i + 1).map_values(|j: Json| log_line(j)) =~= rv.take(i as int).map_values(|j: Json| log_line(j)).push(
            log_line(rv[i as int]),
        ));
        i = i + 1;
    }
    assert(rv.take(rs@.len() as int) =~= rv);
    out
}

fn edge_render(cmd: &DplyCmd, json: bool, v: &Json) -> (r: Shown)
    ensures
        shown_view(r) == rendered(*cmd, json, *v) || !(cmd is EdgeSites || cmd is EdgeShow || cmd is EdgeDeploy
            || cmd is EdgeDeployments || cmd is EdgeDeployment || cmd is EdgeRollback || cmd is EdgeAccess
            || cmd is EdgeEnv || cmd is EdgeDomains || cmd is EdgeAliases || cmd is EdgePreviews || cmd is EdgeUsage
            || cmd is EdgePurge || cmd is EdgeLogs || cmd is EdgeLint),
{
    match cmd {
        DplyCmd::EdgeSites { .. } => rows_shown(json, v, edge_sites_columns()),
        DplyCmd::EdgeShow { .. } => detail_shown(json, v, edge_show_columns()),
        DplyCmd::EdgeDeploy { .. } => action_shown(json, v, "Deployment queued."),
        DplyCmd::EdgeDeployments { .. } => rows_shown(json, v, edge_deployments_columns()),
        DplyCmd::EdgeDeployment { .. } => detail_shown(json, v, edge_deployment_columns()),
        DplyCmd::EdgeRollback { .. } => action_shown(json, v, "Rollback queued."),
        DplyCmd::EdgeAccess { .. } => detail_shown(json, v, edge_access_columns()),
        DplyCmd::EdgeEnv { .. } => rows_shown(json, v, edge_env_columns()),
        DplyCmd::EdgeDomains { .. } => rows_shown(json, v, edge_domains_columns()),
        DplyCmd::EdgeAliases { .. } => rows_shown(json, v, edge_aliases_columns()),
        DplyCmd::EdgePreviews { .. } => rows_shown(json, v, edge_previews_columns()),
        DplyCmd::EdgeUsage { .. } => dump_shown(json, v),
        DplyCmd::EdgePurge { site, paths } => line_shown(purge_note(site.as_str(), paths.len())),
        DplyCmd::EdgeLogs { .. } => lines_shown(log_lines(v)),
        DplyCmd::EdgeLint { path, .. } => {
            if json {
                return raw_shown();
            }
            let (ok, mut ls) = lint_report(v);
            assert(str_views(ls@) =~= ls@.map_values(|l: String| l@));
            if ok {
                let ghost l0 = str_views(ls@);
                let l = cat3("\u{2713} ", path.as_str(), " is valid.");
                let ghost lv = l@;
                ls.push(l);
                assert(str_views(ls@) =~= l0.push(lv));
                lines_shown(ls)
            } else {
                let r = Shown { raw: false, out: ls, err: Vec::new(), failure: Some(concat_str(path.as_str(), " has lint errors.")) };
                assert(str_views(r.err@) =~= Seq::<Seq<char>>::empty());
                r
            }
        },
        _ => raw_shown(),
    }
}

fn server_render(cmd: &DplyCmd, json: bool, v: &Json) -> (r: Shown)
    ensures
        shown_view(r) == rendered(*cmd, json, *v) || !(cmd is ServersList || cmd is ServersRun
            || cmd is ServersFirewall || cmd is ServersLogShipping || cmd is InsightsSummary || cmd is InsightsServer
            || cmd is ImportsMigrations || cmd is ImportsMigration || cmd is OperatorSummary || cmd is OperatorReadme),
{
    match cmd {
        DplyCmd::ServersList => rows_shown(json, v, servers_columns()),
        DplyCmd::ServersRun { .. } => {
            if json {
                return raw_shown();
            }
            let out = cell2(v, "stdout", "output");
            let err = cell1(v, "stderr");
            let code = cell1(v, "exit_code");
            let mut o: Vec<String> = Vec::new();
            let mut e: Vec<String> = Vec::new();
            let ghost ov = out@;
            let ghost ev = err@;
            if !str_is_empty(out.as_str()) {
                o.push(out);
            }
            if !str_is_empty(err.as_str()) {
                e.push(err);
            }
            let ghost o0 = str_views(o@);
            o.push(cat3("[exit ", code.as_str(), "]"));
            let r = Shown { raw: false, out: o, err: e, failure: None };
            assert(o0 =~= if ov.len() > 0 {
                seq![ov]
            } else {
                Seq::<Seq<char>>::empty()
            });
            assert(str_views(r.out@) =~= o0 + seq!["[exit "@ + cell_at(*v, seq!["exit_code"@]) + "]"@]);
            assert(str_views(r.err@) =~= if ev.len() > 0 {
                seq![ev]
            } else {
                Seq::<Seq<char>>::empty()
            });
            r
        },
        DplyCmd::ServersFirewall { template, bundled, apply, .. } => match template {
            Some(t) => line_shown(cat3("\u{2713} Applied firewall template `", t.as_str(), "`.")),
            None => match bundled {
                Some(k) => line_shown(cat3("\u{2713} Applied bundled firewall `", k.as_str(), "`.")),
                None => if *apply {
                    line_shown(String::from_str("\u{2713} Firewall apply queued."))
                } else {
                    match get(v, "rules") {
                        Some(w) => rows_shown(json, w, firewall_columns()),
                        None => rows_shown(json, v, firewall_columns()),
                    }
                },
            },
        },
        DplyCmd::ServersLogShipping { enable, resync, disable, .. } => if *enable {
            line_shown(String::from_str("\u{2713} Log shipping enabled."))
        } else if *resync {
            line_shown(String::from_str("\u{2713} Log shipping resync queued."))
        } else if *disable {
            line_shown(String::from_str("\u{2713} Log shipping disabled."))
        } else {
            detail_shown(json, v, log_shipping_columns())
        },
        DplyCmd::InsightsSummary => dump_shown(json, v),
        DplyCmd::InsightsServer { .. } => match get(v, "findings") {
            Some(f) => rows_shown(json, f, findings_columns()),
            None => match get(v, "data") {
                Some(d) => rows_shown(json, d, findings_columns()),
                None => rows_shown(json, v, findings_columns()),
            },
        },
        DplyCmd::ImportsMigrations => rows_shown(json, v, migrations_columns()),
        DplyCmd::ImportsMigration { .. } => dump_shown(json, v),
        DplyCmd::OperatorSummary => detail_shown(json, v, operator_columns()),
        DplyCmd::OperatorReadme { raw } => {
            if *raw || json {
                return raw_shown();
            }
            let text = cell3(v, "markdown", "body", "content");
            if str_is_empty(text.as_str()) {
                raw_shown()
            } else {
                line_shown(text)
            }
        },
        _ => raw_shown(),
    }
}

fn table_lines_into(out: &mut Vec<String>, v: &Json, cols: &[(&str, &[&str])])
    ensures
        str_views(final(out)@) == str_views(old(out)@) + table_text(*v, col_views(cols@)),
{
    let t = table_by(v, cols);
    let ghost o0 = str_views(out@);
    let mut i: usize = 0;
    while i < t.len()
        invariant
            i <= t@.len(),
            str_views(out@) == o0 + str_views(t@).take(i as int),
        decreases t@.len() - i,
    {
        let ghost before = str_views(out@);
        out.push(String::from_str(t[i].as_str()));
        assert(str_views(out@) =~= before.push(t@[i as int]@));
        assert(str_views(t@).take(i + 1) =~= str_views(t@).take(i as int).push(t@[i as int]@));
        i = i + 1;
    }
    assert(str_views(t@).take(t@.len() as int) =~= str_views(t@));
}

fn push_line(out: &mut Vec<String>, l: &str)
    ensures
        str_views(final(out)@) == str_views(old(out)@).push(l@),
{
    let ghost o0 = str_views(out@);
    out.push(String::from_str(l));
    assert(str_views(out@) =~= o0.push(l@));
}

fn site_render(cmd: &DplyCmd, json: bool, v: &Json) -> (r: Shown)
    ensures
        shown_view(r) == rendered(*cmd, json, *v) || !(cmd is SitesList || cmd is SitesShow || cmd is SitesRename
            || cmd is SitesDeploy || cmd is SitesDeployments || cmd is SitesDeployment || cmd is SitesCommits
            || cmd is SitesDomainsAdd || cmd is SitesDomainsList || cmd is SitesDomainsRemove || cmd is SitesBasicAuthAdd
            || cmd is SitesBasicAuthList || cmd is SitesBasicAuthRemove || cmd is SitesDbList || cmd is SitesSchedules
            || cmd is SitesSslStatus || cmd is SitesSystemUser || cmd is SitesUptime || cmd is SitesWorkers
            || cmd is SitesErrors || cmd is SiteEnv),
{
    let null = Json::Null;
    match cmd {
        DplyCmd::SitesList => rows_shown(json, v, sites_columns()),
        DplyCmd::SitesShow { .. } => detail_shown(json, v, site_show_columns()),
        DplyCmd::SitesRename { .. } => if json {
            raw_shown()
        } else {
            line_shown(concat_str("\u{2713} Renamed to ", cell1(v, "name").as_str()))
        },
        DplyCmd::SitesDeploy { .. } => action_shown(json, v, "Deployment queued."),
        DplyCmd::SitesDeployments { .. } => rows_shown(json, v, site_deployments_columns()),
        DplyCmd::SitesDeployment { .. } => detail_shown(json, v, site_deployment_columns()),
        DplyCmd::SitesCommits { .. } => rows_shown(json, v, commits_columns()),
        DplyCmd::SitesDomainsAdd { hostname, .. } => line_shown(cat3("\u{2713} Added domain ", hostname.as_str(), ".")),
        DplyCmd::SitesDomainsList { .. } => rows_shown(json, v, site_domains_columns()),
        DplyCmd::SitesDomainsRemove { hostname, .. } => line_shown(cat3("\u{2713} Removed domain ", hostname.as_str(), ".")),
        DplyCmd::SitesBasicAuthAdd { username, .. } => line_shown(
            cat3("\u{2713} Added basic-auth user ", username.as_str(), "."),
        ),
        DplyCmd::SitesBasicAuthList { .. } => rows_shown(json, v, basic_auth_columns()),
        DplyCmd::SitesBasicAuthRemove { username, .. } => line_shown(
            cat3("\u{2713} Removed basic-auth user ", username.as_str(), "."),
        ),
        DplyCmd::SitesDbList { .. } => rows_shown(json, v, databases_columns()),
        DplyCmd::SitesSchedules { .. } => {
            if json {
                return raw_shown();
            }
            let mut out: Vec<String> = Vec::new();
            assert(str_views(out@) =~= Seq::<Seq<char>>::empty());
            push_line(&mut out, "Deploy schedules:");
            let a = match get(v, "deploy_schedules") {
                Some(w) => w,
                None => &null,
            };
            table_lines_into(&mut out, a, deploy_schedules_columns());
            assert(*a == member_or_null(*v, "deploy_schedules"@));
            let ghost first = str_views(out@);
            push_line(&mut out, "");
            push_line(&mut out, "Cron jobs:");
            let b = match get(v, "cron_jobs") {
                Some(w) => w,
                None => &null,
            };
            table_lines_into(&mut out, b, cron_jobs_columns());
            assert(*b == member_or_null(*v, "cron_jobs"@));
            proof {
                reveal_strlit("");
            }
            assert(""@ =~= Seq::<char>::empty());
            assert(str_views(out@) =~= first + seq![Seq::<char>::empty(), "Cron jobs:"@] + table_text(member_or_null(*v, "cron_jobs"@), cron_jobs_cols()));
            assert(str_views(out@) =~= seq!["Deploy schedules:"@] + table_text(
                member_or_null(*v, "deploy_schedules"@),
                deploy_schedules_cols(),
            ) + seq![Seq::<char>::empty(), "Cron jobs:"@] + table_text(member_or_null(*v, "cron_jobs"@), cron_jobs_cols()));
            lines_shown(out)
        },
        DplyCmd::SitesSslStatus { .. } => {
            if json {
                return raw_shown();
            }
            let mut out: Vec<String> = Vec::new();
            assert(str_views(out@) =~= Seq::<Seq<char>>::empty());
            push_line(&mut out, concat_str("SSL status: ", cell1(v, "ssl_status").as_str()).as_str());
            let d = match get(v, "data") {
                Some(w) => w,
                None => &null,
            };
            table_lines_into(&mut out, d, ssl_columns());
            lines_shown(out)
        },
        DplyCmd::SitesSystemUser { .. } => detail_shown(json, v, system_user_columns()),
        DplyCmd::SitesUptime { .. } => rows_shown(json, v, uptime_columns()),
        DplyCmd::SitesWorkers { .. } => rows_shown(json, v, workers_columns()),
        DplyCmd::SitesErrors { .. } => rows_shown(json, v, errors_columns()),
        DplyCmd::SiteEnv { .. } => rows_shown(json, v, site_env_columns()),
        _ => raw_shown(),
    }
}

/// How `cmd` shows `reply`, the reply to its last request, read without its
/// envelope when that request says so (see [`rendered`]).
pub fn dply_render(cmd: &DplyCmd, json: bool, reply: &Json) -> (r: Shown)
    ensures
        shown_view(r) == rendered(*cmd, json, *reply),
{
    match cmd {
        DplyCmd::ServersList | DplyCmd::ServersRun { .. } | DplyCmd::ServersFirewall { .. }
        | DplyCmd::ServersLogShipping { .. } | DplyCmd::InsightsSummary | DplyCmd::InsightsServer { .. }
        | DplyCmd::ImportsMigrations | DplyCmd::ImportsMigration { .. } | DplyCmd::OperatorSummary
        | DplyCmd::OperatorReadme { .. } => server_render(cmd, json, reply),
        DplyCmd::SitesList | DplyCmd::SitesShow { .. } | DplyCmd::SitesRename { .. } | DplyCmd::SitesDeploy { .. }
        | DplyCmd::SitesDeployments { .. } | DplyCmd::SitesDeployment { .. } | DplyCmd::SitesCommits { .. }
        | DplyCmd::SitesDomainsAdd { .. } | DplyCmd::SitesDomainsList { .. } | DplyCmd::SitesDomainsRemove { .. }
        | DplyCmd::SitesBasicAuthAdd { .. } | DplyCmd::SitesBasicAuthList { .. }
        | DplyCmd::SitesBasicAuthRemove { .. } | DplyCmd::SitesDbList { .. } | DplyCmd::SitesSchedules { .. }
        | DplyCmd::SitesSslStatus { .. } | DplyCmd::SitesSystemUser { .. } | DplyCmd::SitesUptime { .. }
        | DplyCmd::SitesWorkers { .. } | DplyCmd::SitesErrors { .. } | DplyCmd::SiteEnv { .. } => site_render(
            cmd,
            json,
            reply,
        ),
        _ => edge_render(cmd, json, reply),
    }
}

/// The reply a request's caller reads: without its `{"data": …}` envelope
/// when the request says so.
pub fn reply_of(call: &ApiCall, reply: Json) -> (r: Json)
    ensures
        r == if call.unwrap {
            crate::json::unwrapped(reply)
        } else {
            reply
        },
{
    if call.unwrap {
        crate::json::unwrap_data(reply)
    } else {
        reply
    }
}

/// The question a command asks before it acts: a rollback without `--yes`.
pub open spec fn prompt_of(cmd: DplyCmd) -> Option<Seq<char>> {
    match cmd {
        DplyCmd::EdgeRollback { site, deployment, yes } => if yes {
            None
        } else {
            Some("Roll back "@ + site@ + " to deployment "@ + deployment@ + "?"@)
        },
        _ => None,
    }
}

/// The question to ask before running `cmd`, if any (see [`prompt_of`]);
/// a command that is not confirmed prints `Aborted.` and makes no request.
pub fn confirmation(cmd: &DplyCmd) -> (r: Option<String>)
    ensures
        opt_view(r) == prompt_of(*cmd),
{
    match cmd {
        DplyCmd::EdgeRollback { site, deployment, yes } => if *yes {
            None
        } else {
            let mut q = cat3("Roll back ", site.as_str(), " to deployment ");
            push_str(&mut q, deployment.as_str());
            push_str(&mut q, "?");
            Some(q)
        },
        _ => None,
    }
}

/// Whether an answer to a question says yes: `y` or `yes`, trimmed, in any
/// case.
pub open spec fn says_yes(answer: Seq<char>) -> bool {
    let a = crate::text::to_lowercase(crate::text::trim(answer));
    a == "y"@ || a == "yes"@
}

/// Whether an answer says yes (see [`says_yes`]).
pub fn confirmed(answer: &str) -> (r: bool)
    ensures
        r == says_yes(answer@),
{
    let t = crate::text::trim_str(answer);
    let a = crate::text::to_lower(t.as_str());
    crate::text::str_eq(a.as_str(), "y") || crate::text::str_eq(a.as_str(), "yes")
}
} // verus!
