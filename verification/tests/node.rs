use dpl::node::{
    detect_agent, detect_manager, install_args, normalize_range, pinned_invocation, read_pin, run_args,
    Agent, AgentChoice, AgentReason, Invocation, Manager, Pin, PinSource,
};

fn pin(version: &str, source: PinSource) -> Pin {
    Pin { version: version.into(), source }
}

fn args(words: &[&str]) -> Vec<String> {
    words.iter().map(|w| w.to_string()).collect()
}

#[test]
fn normalizes_engine_ranges_to_a_major() {
    assert_eq!(normalize_range("^20.11.0"), Some("20".into()));
    assert_eq!(normalize_range(">=18"), Some("18".into()));
    assert_eq!(normalize_range("20.x"), Some("20".into()));
    assert_eq!(normalize_range("18 || 20"), Some("18".into()));
    assert_eq!(normalize_range("lts/*"), None);
}

#[test]
fn without_a_manager_the_command_runs_as_path_finds_it() {
    let inv = pinned_invocation(None, None, Some(&pin("20", PinSource::Nvmrc)), "npm", &args(&["ci"]));
    assert_eq!(inv, Invocation { program: "npm".into(), args: args(&["ci"]) });
}

#[test]
fn an_unpinned_project_runs_the_command_directly() {
    let inv = pinned_invocation(Some(Manager::Fnm), None, None, "npm", &args(&["ci"]));
    assert_eq!(inv, Invocation { program: "npm".into(), args: args(&["ci"]) });
}

#[test]
fn fnm_execs_against_the_projects_version_file() {
    let inv = pinned_invocation(
        Some(Manager::Fnm),
        None,
        Some(&pin("20", PinSource::Nvmrc)),
        "npm",
        &args(&["run", "build"]),
    );
    assert_eq!(inv.program, "fnm");
    assert_eq!(inv.args, args(&["exec", "--using-file", "--", "npm", "run", "build"]));
}

#[test]
fn fnm_resolves_a_package_json_range_to_a_version() {
    let inv = pinned_invocation(
        Some(Manager::Fnm),
        None,
        Some(&pin("^20.11.0", PinSource::PackageJson)),
        "npm",
        &args(&["ci"]),
    );
    assert_eq!(inv.args, args(&["exec", "--using", "20", "--", "npm", "ci"]));
}

#[test]
fn an_unresolvable_range_falls_back_to_running_directly() {
    let inv = pinned_invocation(
        Some(Manager::Fnm),
        None,
        Some(&pin("lts/*", PinSource::PackageJson)),
        "npm",
        &args(&["ci"]),
    );
    assert_eq!(inv, Invocation { program: "npm".into(), args: args(&["ci"]) });
}

#[test]
fn nvm_sources_its_script_then_execs_the_command() {
    let script = "/Users/x/.nvm/nvm.sh";
    let inv = pinned_invocation(
        Some(Manager::Nvm),
        Some(script),
        Some(&pin("20", PinSource::Nvmrc)),
        "npm",
        &args(&["ci"]),
    );
    assert_eq!(inv.program, "bash");
    assert_eq!(inv.args[0], "-lc");
    assert_eq!(inv.args[1], ". '/Users/x/.nvm/nvm.sh' && nvm use --silent 1>&2 && exec 'npm' 'ci'");
}

#[test]
fn nvm_without_its_script_runs_the_command_directly() {
    let inv = pinned_invocation(Some(Manager::Nvm), None, Some(&pin("20", PinSource::Nvmrc)), "npm", &args(&["ci"]));
    assert_eq!(inv, Invocation { program: "npm".into(), args: args(&["ci"]) });
}

#[test]
fn nvm_quotes_arguments_and_paths() {
    let script = "/home/o'brien/my nvm/nvm.sh";
    let inv = pinned_invocation(
        Some(Manager::Nvm),
        Some(script),
        Some(&pin("18", PinSource::PackageJson)),
        "npm",
        &args(&["run", "build -- --mode=$PROD"]),
    );
    assert_eq!(
        inv.args[1],
        r#". '/home/o'\''brien/my nvm/nvm.sh' && nvm use --silent '18' 1>&2 && exec 'npm' 'run' 'build -- --mode=$PROD'"#
    );
}

#[test]
fn each_agent_spells_a_frozen_install_its_own_way() {
    let choice = |agent, berry| AgentChoice { agent, reason: AgentReason::Assumed, berry };

    assert_eq!(install_args(&choice(Agent::Npm, false), false), args(&["install"]));
    assert_eq!(install_args(&choice(Agent::Npm, false), true), args(&["ci"]));
    assert_eq!(install_args(&choice(Agent::Pnpm, false), true), args(&["install", "--frozen-lockfile"]));
    assert_eq!(install_args(&choice(Agent::Bun, false), true), args(&["install", "--frozen-lockfile"]));
    assert_eq!(install_args(&choice(Agent::Yarn, false), true), args(&["install", "--frozen-lockfile"]));
    assert_eq!(install_args(&choice(Agent::Yarn, true), true), args(&["install", "--immutable"]));
    assert_eq!(install_args(&choice(Agent::Yarn, true), false), args(&["install"]));
}

#[test]
fn scripts_run_through_the_explicit_run_verb() {
    assert_eq!(run_args("build", &[]), args(&["run", "build"]));
    assert_eq!(run_args("test", &args(&["--watch"])), args(&["run", "test", "--watch"]));
}

#[test]
fn agent_names_round_trip() {
    for agent in Agent::all() {
        assert_eq!(Agent::parse(agent.as_str()), Some(agent));
    }
    assert_eq!(Agent::parse("PNPM"), Some(Agent::Pnpm));
    assert_eq!(Agent::parse("deno"), None);
}

#[test]
fn reads_engines_node_from_package_json() {
    let pkg = r#"{ "name": "x", "engines": { "node": ">=20.0.0" }, "scripts": {} }"#;
    let pin = read_pin(None, None, Some(pkg)).unwrap();
    assert_eq!(pin.version, ">=20.0.0");
    assert_eq!(pin.source, PinSource::PackageJson);
}

#[test]
fn nvmrc_wins_over_package_json() {
    let pin = read_pin(Some("20\n"), None, Some(r#"{ "engines": { "node": "18" } }"#)).unwrap();
    assert_eq!(pin.version, "20");
    assert_eq!(pin.source, PinSource::Nvmrc);
    let pin = read_pin(Some("\n"), Some(" 18.19.0 \nignored"), None).unwrap();
    assert_eq!(pin.version, "18.19.0");
    assert_eq!(pin.source, PinSource::NodeVersion);
    assert!(read_pin(None, None, Some(r#"{ "name": "x" }"#)).is_none());
}

#[test]
fn fnm_is_preferred_over_nvm() {
    assert_eq!(detect_manager(true, true), Some(Manager::Fnm));
    assert_eq!(detect_manager(false, true), Some(Manager::Nvm));
    assert_eq!(detect_manager(false, false), None);
    assert_eq!(Manager::Fnm.name(), "fnm");
}

fn files(names: &[&str]) -> Vec<String> {
    names.iter().map(|n| n.to_string()).collect()
}

#[test]
fn a_bare_project_is_assumed_to_be_npm() {
    let choice = detect_agent(Some(r#"{ "name": "x" }"#), &files(&["package.json"]), None);
    assert_eq!(choice.agent, Agent::Npm);
    assert_eq!(choice.reason, AgentReason::Assumed);
    assert_eq!(choice.reason.as_str(), "assumed");
}

#[test]
fn each_lockfile_identifies_its_agent() {
    for (file, expected) in
        [("pnpm-lock.yaml", Agent::Pnpm), ("yarn.lock", Agent::Yarn), ("bun.lockb", Agent::Bun), ("package-lock.json", Agent::Npm)]
    {
        let choice = detect_agent(Some(r#"{ "name": "x" }"#), &files(&["package.json", file]), Some(""));
        assert_eq!(choice.agent, expected, "{file}");
        assert_eq!(choice.reason, AgentReason::Lockfile(file));
        assert_eq!(choice.reason.as_str(), file);
    }
}

#[test]
fn a_stale_npm_lockfile_does_not_beat_pnpm() {
    let choice = detect_agent(Some(r#"{ "name": "x" }"#), &files(&["package.json", "package-lock.json", "pnpm-lock.yaml"]), None);
    assert_eq!(choice.agent, Agent::Pnpm);
}

#[test]
fn the_package_manager_field_wins_over_a_lockfile() {
    let choice = detect_agent(Some(r#"{ "packageManager": "pnpm@9.1.0" }"#), &files(&["yarn.lock"]), Some(""));
    assert_eq!(choice.agent, Agent::Pnpm);
    assert_eq!(choice.reason, AgentReason::Declared);
}

#[test]
fn yarn_1_and_yarn_berry_are_told_apart() {
    assert!(detect_agent(Some(r#"{ "packageManager": "yarn@3.6.4" }"#), &[], None).berry);
    assert!(!detect_agent(Some(r#"{ "packageManager": "yarn@1.22.19" }"#), &[], None).berry);
    assert!(detect_agent(Some(r#"{ "name": "x" }"#), &files(&["package.json", "yarn.lock", ".yarnrc.yml"]), Some("")).berry);
    let berry_lock = "# This file is generated by running \"yarn install\"\n\n__metadata:\n  version: 8\n";
    assert!(detect_agent(Some(r#"{ "name": "x" }"#), &files(&["package.json", "yarn.lock"]), Some(berry_lock)).berry);
    let classic_lock = "# yarn lockfile v1\n\n\nfoo@^1.0.0:\n  version \"1.0.0\"\n";
    assert!(!detect_agent(Some(r#"{ "name": "x" }"#), &files(&["package.json", "yarn.lock"]), Some(classic_lock)).berry);
}

#[test]
fn pin_sources_name_their_files() {
    assert_eq!(PinSource::Nvmrc.as_str(), ".nvmrc");
    assert_eq!(PinSource::NodeVersion.as_str(), ".node-version");
    assert_eq!(PinSource::PackageJson.as_str(), "package.json");
}
