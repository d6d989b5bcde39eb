use dpl::fan::{agent_tally, candidates, fan_header, fan_summary, forced_agent, no_targets, pin_label, Fan, Job};
use dpl::ipc::SiteInfo;
use dpl::node::{Agent, AgentChoice, AgentReason, Pin, PinSource};

fn choice(agent: Agent, berry: bool) -> AgentChoice {
    AgentChoice { agent, reason: AgentReason::Lockfile("yarn.lock"), berry }
}

#[test]
fn jobs_spell_their_words_per_agent() {
    let frozen = Job::Install { frozen: true };
    assert_eq!(frozen.args(&choice(Agent::Npm, false)), vec!["ci"]);
    assert_eq!(frozen.args(&choice(Agent::Yarn, true)), vec!["install", "--immutable"]);
    assert_eq!(frozen.label(), "install (frozen lockfile)");
    assert_eq!(Job::Install { frozen: false }.label(), "install");
    let build = Job::Script { name: "build".into(), extra: vec!["--".into(), "--prod".into()] };
    assert_eq!(build.args(&choice(Agent::Pnpm, false)), vec!["run", "build", "--", "--prod"]);
    assert_eq!(build.label(), "run build -- --prod");
    assert_eq!(Job::Script { name: "dev".into(), extra: vec![] }.label(), "run dev");
    let raw = Job::Verbatim(vec!["outdated".into(), "--json".into()]);
    assert_eq!(raw.args(&choice(Agent::Bun, false)), vec!["outdated", "--json"]);
    assert_eq!(raw.label(), "outdated --json");
    let fan = Fan { site: None, agent: Some("pnpm".into()), fail_fast: true };
    assert!(fan.fail_fast && fan.site.is_none());
}

#[test]
fn a_forced_agent_must_be_known() {
    assert_eq!(forced_agent(None), Ok(None));
    assert_eq!(forced_agent(Some(" PNPM ")), Ok(Some(Agent::Pnpm)));
    assert_eq!(
        forced_agent(Some("deno")),
        Err("unknown package manager `deno` \u{2014} expected one of npm, pnpm, yarn, bun.".to_string())
    );
}

#[test]
fn tallies_count_agents_most_first() {
    assert_eq!(agent_tally(&[]), "");
    assert_eq!(agent_tally(&[Agent::Npm, Agent::Npm]), ", npm");
    assert_eq!(
        agent_tally(&[Agent::Pnpm, Agent::Npm, Agent::Yarn, Agent::Npm, Agent::Pnpm, Agent::Npm]),
        ", npm 3 \u{b7} pnpm 2 \u{b7} yarn 1"
    );
    assert_eq!(agent_tally(&[Agent::Yarn, Agent::Bun]), ", bun 1 \u{b7} yarn 1");
}

#[test]
fn runs_are_announced_and_summed_up() {
    assert_eq!(
        fan_header("install", &[Agent::Npm, Agent::Pnpm], 1),
        "install \u{2014} 2 sites, npm 1 \u{b7} pnpm 1, 1 without a package.json skipped"
    );
    assert_eq!(fan_header("run build", &[Agent::Bun], 0), "run build \u{2014} 1 site, bun");
    let names = vec!["a".to_string(), "b".to_string()];
    assert_eq!(fan_summary("install", &names, &vec![]), Ok("\u{2713} install succeeded in all 2 sites.".to_string()));
    assert_eq!(
        fan_summary("install", &vec!["a".to_string()], &vec![]),
        Ok("\u{2713} install succeeded in a.".to_string())
    );
    assert_eq!(fan_summary("install", &names, &names), Err("2 of 2 sites failed: a, b".to_string()));
    assert_eq!(no_targets(Some("blog"), 0), "blog has no package.json \u{2014} nothing to run.");
    assert_eq!(no_targets(None, 1), "no linked site has a package.json (1 site checked).");
    assert_eq!(no_targets(None, 3), "no linked site has a package.json (3 sites checked).");
    assert_eq!(pin_label(None), "Node (unpinned)");
    assert_eq!(pin_label(Some(&Pin { version: "20".into(), source: PinSource::Nvmrc })), "Node 20 (.nvmrc)");
}

fn site(name: &str, source: &str) -> SiteInfo {
    SiteInfo {
        name: name.into(),
        host: format!("{name}.test"),
        url: format!("http://{name}.test"),
        path: format!("/p/{name}"),
        docroot: format!("/p/{name}"),
        source: source.into(),
        php: None,
        secure: false,
        serving: false,
        runtime: None,
        framework: None,
        requires_php: None,
        xdebug: None,
        xdebug_installed: false,
        profile: false,
        profile_installed: false,
        preload: None,
        node: None,
        node_source: None,
        database: None,
        db_branch: None,
    }
}

#[test]
fn candidates_skip_proxies_or_pick_the_named_site() {
    let sites = vec![site("a", "linked"), site("vite", "proxy"), site("b", "parked")];
    assert_eq!(candidates(&sites, None), Ok(vec![0, 2]));
    assert_eq!(candidates(&sites, Some("B")), Ok(vec![2]));
    assert_eq!(candidates(&sites, Some("zz")), Err("no local site named zz. See `dpl node`.".to_string()));
}
