//! Per-project Node version management, delegated to fnm/nvm.
//!
//! dpl doesn't run `node` itself, so it can't force a version the way it does
//! for php-fpm. It reads a project's desired version out of `.nvmrc`,
//! `.node-version`, or `package.json` `engines.node`, and when it runs a
//! command *for* you across sites it asks the manager to apply the pin for that
//! one invocation — see [`pinned_invocation`]. It also works out *which*
//! package manager each project uses — see [`detect_agent`].
//!
//! The functions here decide from what the files say; reading the files is the
//! caller's part, and each function takes their contents (`None` for a file
//! that is missing or unreadable).

use vstd::prelude::*;

use crate::text::{
    all_ascii, ascii_lower, copy_string, find, from_chars, is_digit, lemma_find_from, lines,
    lines_of, to_lowercase, parse_uint, parse_uint_chars, push_str, slice_chars, split_char,
    split_on, str_views, to_chars, to_lower, trim, trim_chars, trim_str, find_chars, contains_seq,
    str_contains, chars_eq, copy_strings, skip_digits, skip_non_digits, lemma_skip_bounds,
};

verus! {

// ------------------------------------------------------------------ managers

/// A Node version manager dpl can drive.
#[derive(Debug, Clone, Copy, PartialEq, Eq)]
pub enum Manager {
    /// fnm — a fast, single-binary manager.
    Fnm,
    /// nvm — the shell-function manager, loaded from `~/.nvm/nvm.sh`.
    Nvm,
}

/// The name of a manager.
pub open spec fn manager_name(m: Manager) -> Seq<char> {
    match m {
        Manager::Fnm => "fnm"@,
        Manager::Nvm => "nvm"@,
    }
}

impl Manager {
    /// The manager's name: `fnm` or `nvm`.
    pub fn name(self) -> (r: &'static str)
        ensures
            r@ == manager_name(self),
    {
        match self {
            Manager::Fnm => "fnm",
            Manager::Nvm => "nvm",
        }
    }
}

/// The Node manager available on this machine, preferring fnm (a real binary
/// that can be called directly) over nvm (a shell function that has to be
/// sourced). `fnm_on_path` says whether `fnm` was found on `PATH`,
/// `nvm_script_found` whether `nvm.sh` exists.
pub fn detect_manager(fnm_on_path: bool, nvm_script_found: bool) -> (r: Option<Manager>)
    ensures
        r == (if fnm_on_path {
            Some(Manager::Fnm)
        } else if nvm_script_found {
            Some(Manager::Nvm)
        } else {
            None
        }),
{
    if fnm_on_path {
        return Some(Manager::Fnm);
    }
    if nvm_script_found {
        return Some(Manager::Nvm);
    }
    None
}

// ---------------------------------------------------------------------- pins

/// Which file a pin was read from.
#[derive(Debug, Clone, Copy, PartialEq, Eq)]
pub enum PinSource {
    Nvmrc,
    NodeVersion,
    PackageJson,
}

/// The file name of a pin source.
pub open spec fn pin_source_name(s: PinSource) -> Seq<char> {
    match s {
        PinSource::Nvmrc => ".nvmrc"@,
        PinSource::NodeVersion => ".node-version"@,
        PinSource::PackageJson => "package.json"@,
    }
}

impl PinSource {
    /// The file the pin came from, for display.
    pub fn as_str(self) -> (r: &'static str)
        ensures
            r@ == pin_source_name(self),
    {
        match self {
            PinSource::Nvmrc => ".nvmrc",
            PinSource::NodeVersion => ".node-version",
            PinSource::PackageJson => "package.json",
        }
    }
}

/// Where a project's pinned Node version comes from, and what it is.
#[derive(Debug, Clone, PartialEq, Eq)]
pub struct Pin {
    /// The version string, as written for the manager (`"20"`, `"lts/*"`).
    pub version: String,
    /// Which file it was read from.
    pub source: PinSource,
}

/// A pin as plain values.
pub open spec fn pin_view(p: Pin) -> (Seq<char>, PinSource) {
    (p.version@, p.source)
}

/// The first line of `text`, trimmed, when it is not empty.
pub open spec fn first_line(text: Seq<char>) -> Option<Seq<char>> {
    if lines(text).len() == 0 {
        None
    } else if trim(lines(text)[0]).len() == 0 {
        None
    } else {
        Some(trim(lines(text)[0]))
    }
}

/// The string value of the first `key` in JSON text: after the key, the first
/// `:`, then the text between the next two `"`, trimmed; `None` when any of
/// these is missing or the value is blank.
pub open spec fn json_string_value(text: Seq<char>, key: Seq<char>) -> Option<Seq<char>> {
    match find(text, key) {
        None => None,
        Some(at) => {
            let after = text.subrange(at + key.len(), text.len() as int);
            match find(after, seq![':']) {
                None => None,
                Some(c) => {
                    let ac = after.subrange(c + 1, after.len() as int);
                    match find(ac, seq!['"']) {
                        None => None,
                        Some(o) => {
                            let v = ac.subrange(o + 1, ac.len() as int);
                            match find(v, seq!['"']) {
                                None => None,
                                Some(cl) => {
                                    let f = trim(v.subrange(0, cl));
                                    if f.len() == 0 {
                                        None
                                    } else {
                                        Some(f)
                                    }
                                },
                            }
                        },
                    }
                },
            }
        },
    }
}

/// `engines.node` from package.json text: the `"node"` value scanned from the
/// first `"engines"` key on.
pub open spec fn engines_node(text: Seq<char>) -> Option<Seq<char>> {
    match find(text, "\"engines\""@) {
        None => None,
        Some(at) => json_string_value(text.subrange(at, text.len() as int), "\"node\""@),
    }
}

/// Which pin the three files give: `.nvmrc` wins, then `.node-version` (both
/// by their first line), then package.json's `engines.node`.
pub open spec fn pin_from(
    nvmrc: Option<Seq<char>>,
    node_version: Option<Seq<char>>,
    package_json: Option<Seq<char>>,
) -> Option<(Seq<char>, PinSource)> {
    let a = match nvmrc {
        Some(t) => first_line(t),
        None => None,
    };
    let b = match node_version {
        Some(t) => first_line(t),
        None => None,
    };
    let c = match package_json {
        Some(t) => engines_node(t),
        None => None,
    };
    if a is Some {
        Some((a->0, PinSource::Nvmrc))
    } else if b is Some {
        Some((b->0, PinSource::NodeVersion))
    } else if c is Some {
        Some((c->0, PinSource::PackageJson))
    } else {
        None
    }
}

/// The view of an optional string.
pub open spec fn opt_str(o: Option<&str>) -> Option<Seq<char>> {
    match o {
        Some(s) => Some(s@),
        None => None,
    }
}

/// The first line of `text`, trimmed, unless it is blank.
fn read_first_line(text: &str) -> (r: Option<String>)
    ensures
        r matches Some(l) ==> first_line(text@) == Some(l@),
        r is None ==> first_line(text@) is None,
{
    let cs = to_chars(text);
    let ls = lines_of(&cs);
    if ls.len() == 0 {
        return None;
    }
    let t = trim_chars(&ls[0]);
    if t.len() == 0 {
        return None;
    }
    Some(from_chars(&t))
}

/// The first index of `needle` in `hay`, with the bounds callers need.
fn find_in(hay: &[char], needle: &[char]) -> (r: Option<usize>)
    ensures
        r matches Some(k) ==> find(hay@, needle@) == Some(k as int) && k + needle@.len() <= hay@.len(),
        r is None ==> find(hay@, needle@) is None,
{
    let r = find_chars(hay, needle);
    proof {
        lemma_find_from(hay@, needle@, 0);
    }
    r
}

/// The first index of `c` in `cs`, with the bounds callers need.
fn find_char(cs: &[char], c: char) -> (r: Option<usize>)
    ensures
        r matches Some(k) ==> find(cs@, seq![c]) == Some(k as int) && k < cs@.len(),
        r is None ==> find(cs@, seq![c]) is None,
{
    let needle = [c];
    assert(needle@ =~= seq![c]);
    find_in(cs, &needle)
}

/// The string value of `key` in JSON text (see [`json_string_value`]).
fn json_string_value_of(text: &[char], key: &[char]) -> (r: Option<Vec<char>>)
    ensures
        r matches Some(v) ==> json_string_value(text@, key@) == Some(v@),
        r is None ==> json_string_value(text@, key@) is None,
{
    let found = find_in(text, key);
    let at = match found {
        Some(at) => at,
        None => return None,
    };
    let tl = text.len();
    let start = at + key.len();
    let after = slice_chars(text, start, tl);
    let c = match find_char(&after, ':') {
        Some(c) => c,
        None => return None,
    };
    let ac = slice_chars(&after, c + 1, after.len());
    let o = match find_char(&ac, '"') {
        Some(o) => o,
        None => return None,
    };
    let v = slice_chars(&ac, o + 1, ac.len());
    let cl = match find_char(&v, '"') {
        Some(cl) => cl,
        None => return None,
    };
    let inner = slice_chars(&v, 0, cl);
    let f = trim_chars(&inner);
    if f.len() == 0 {
        None
    } else {
        Some(f)
    }
}

/// `engines.node` out of package.json text.
fn engines_node_of(text: &[char]) -> (r: Option<Vec<char>>)
    ensures
        r matches Some(v) ==> engines_node(text@) == Some(v@),
        r is None ==> engines_node(text@) is None,
{
    let key = to_chars("\"engines\"");
    match find_in(text, &key) {
        None => None,
        Some(at) => {
            let rest = slice_chars(text, at, text.len());
            let node = to_chars("\"node\"");
            json_string_value_of(&rest, &node)
        },
    }
}

/// Read a project's pinned Node version from the contents of its `.nvmrc`,
/// `.node-version` and `package.json`: the managers' own pin files win, else
/// package.json's `engines.node` as a hint. `None` when the project says
/// nothing about Node.
pub fn read_pin(nvmrc: Option<&str>, node_version: Option<&str>, package_json: Option<&str>) -> (r:
    Option<Pin>)
    ensures
        r matches Some(p) ==> pin_from(opt_str(nvmrc), opt_str(node_version), opt_str(package_json))
            == Some(pin_view(p)),
        r is None ==> pin_from(opt_str(nvmrc), opt_str(node_version), opt_str(package_json)) is None,
{
    if let Some(t) = nvmrc {
        if let Some(v) = read_first_line(t) {
            return Some(Pin { version: v, source: PinSource::Nvmrc });
        }
    }
    if let Some(t) = node_version {
        if let Some(v) = read_first_line(t) {
            return Some(Pin { version: v, source: PinSource::NodeVersion });
        }
    }
    if let Some(t) = package_json {
        let cs = to_chars(t);
        if let Some(v) = engines_node_of(&cs) {
            return Some(Pin { version: from_chars(&v), source: PinSource::PackageJson });
        }
    }
    None
}

// ------------------------------------------------------------ version ranges

/// The first run of ASCII digits in `s`.
pub open spec fn first_digit_run(s: Seq<char>) -> Seq<char> {
    let i = skip_non_digits(s, 0);
    s.subrange(i, skip_digits(s, i))
}

/// A version a manager accepts for an `engines.node` range: its first number
/// (`"^20.11 || 18"` gives `"20"`), or `None` when it has no digits.
pub open spec fn normalized_range(range: Seq<char>) -> Option<Seq<char>> {
    if first_digit_run(range).len() == 0 {
        None
    } else {
        Some(first_digit_run(range))
    }
}

/// Reduce a `package.json` `engines.node` range to a version a manager accepts
/// — the first version number in the range (`"^20.11 || 18"` → `"20"`,
/// `">=18"` → `"18"`). A hint, not a resolution.
pub fn normalize_range(range: &str) -> (r: Option<String>)
    ensures
        r matches Some(v) ==> normalized_range(range@) == Some(v@),
        r is None ==> normalized_range(range@) is None,
{
    let cs = to_chars(range);
    let mut i: usize = 0;
    while i < cs.len() && !(cs[i] >= '0' && cs[i] <= '9')
        invariant
            i <= cs.len(),
            cs@ == range@,
            skip_non_digits(cs@, 0) == skip_non_digits(cs@, i as int),
        decreases cs.len() - i,
    {
        i = i + 1;
    }
    let mut j: usize = i;
    while j < cs.len() && cs[j] >= '0' && cs[j] <= '9'
        invariant
            i <= j <= cs.len(),
            skip_digits(cs@, i as int) == skip_digits(cs@, j as int),
        decreases cs.len() - j,
    {
        j = j + 1;
    }
    proof {
        lemma_skip_bounds(cs@, 0);
    }
    if j == i {
        return None;
    }
    let run = slice_chars(&cs, i, j);
    Some(from_chars(&run))
}

// -------------------------------------------------------------------- agents

/// A JavaScript package manager dpl can drive on a project's behalf.
#[derive(Debug, Clone, Copy, PartialEq, Eq, Structural)]
pub enum Agent {
    Npm,
    Pnpm,
    Yarn,
    Bun,
}

/// The name of an agent: the binary to spawn.
pub open spec fn agent_name(a: Agent) -> Seq<char> {
    match a {
        Agent::Npm => "npm"@,
        Agent::Pnpm => "pnpm"@,
        Agent::Yarn => "yarn"@,
        Agent::Bun => "bun"@,
    }
}

/// The agent whose name is exactly `s`.
pub open spec fn agent_named(s: Seq<char>) -> Option<Agent> {
    if s == "npm"@ {
        Some(Agent::Npm)
    } else if s == "pnpm"@ {
        Some(Agent::Pnpm)
    } else if s == "yarn"@ {
        Some(Agent::Yarn)
    } else if s == "bun"@ {
        Some(Agent::Bun)
    } else {
        None
    }
}

/// What `Agent::parse` gives for a user-supplied name: the agent named by the
/// name trimmed and lowercased.
pub open spec fn agent_parsed(name: Seq<char>) -> Option<Agent> {
    agent_named(to_lowercase(trim(name)))
}

/// The agent whose name is exactly `lowered`.
pub fn agent_from_name(lowered: &str) -> (r: Option<Agent>)
    ensures
        r == agent_named(lowered@),
{
    if crate::text::str_eq(lowered, "npm") {
        Some(Agent::Npm)
    } else if crate::text::str_eq(lowered, "pnpm") {
        Some(Agent::Pnpm)
    } else if crate::text::str_eq(lowered, "yarn") {
        Some(Agent::Yarn)
    } else if crate::text::str_eq(lowered, "bun") {
        Some(Agent::Bun)
    } else {
        None
    }
}

impl Agent {
    /// The binary to spawn — also the name printed.
    pub fn as_str(self) -> (r: &'static str)
        ensures
            r@ == agent_name(self),
    {
        match self {
            Agent::Npm => "npm",
            Agent::Pnpm => "pnpm",
            Agent::Yarn => "yarn",
            Agent::Bun => "bun",
        }
    }

    /// Parse a user-supplied agent name (`--agent pnpm`): trimmed, any case.
    pub fn parse(name: &str) -> (r: Option<Agent>)
        ensures
            r == agent_parsed(name@),
    {
        let t = trim_str(name);
        let l = to_lower(t.as_str());
        agent_from_name(l.as_str())
    }

    /// Every agent, in the order error messages list them.
    pub fn all() -> (r: [Agent; 4])
        ensures
            r@ == seq![Agent::Npm, Agent::Pnpm, Agent::Yarn, Agent::Bun],
    {
        [Agent::Npm, Agent::Pnpm, Agent::Yarn, Agent::Bun]
    }
}

/// Each agent's name, parsed back, is that agent: the names are ASCII, carry
/// no surrounding whitespace, and are already lowercase.
pub proof fn lemma_agent_name_round_trip(a: Agent)
    ensures
        agent_parsed(agent_name(a)) == Some(a),
{
    let n = agent_name(a);
    reveal_strlit("npm");
    reveal_strlit("pnpm");
    reveal_strlit("yarn");
    reveal_strlit("bun");
    crate::text::lemma_trim_start_at(n, 0);
    assert(crate::text::trim_start(n) == n);
    crate::text::lemma_trim_end_at(n, n.len() as int);
    assert(trim(n) =~= n);
    assert(ascii_lower(n) =~= n);
}

/// Parsing a name gives the same answer as parsing its trimmed, lowercased
/// form, for every name whose trimmed text is ASCII (the agent names are).
pub proof fn lemma_agent_parse_settled(name: Seq<char>)
    requires
        crate::text::all_ascii(trim(name)),
    ensures
        agent_parsed(name) == agent_parsed(to_lowercase(trim(name))),
        agent_parsed(name) is Some ==> to_lowercase(trim(name)) == agent_name(agent_parsed(name).unwrap()),
{
    crate::text::lemma_lower_trim_settled(name);
}

/// What identified the agent, kept for display.
#[derive(Debug, Clone, Copy, PartialEq, Eq)]
pub enum AgentReason {
    /// package.json's `packageManager` field.
    Declared,
    /// A lockfile in the project root.
    Lockfile(&'static str),
    /// Nothing said; npm is the assumption.
    Assumed,
    /// The user overrode detection for this run (`--agent`).
    Forced,
}

/// The display text of a reason.
pub open spec fn reason_text(r: AgentReason) -> Seq<char> {
    match r {
        AgentReason::Declared => "packageManager"@,
        AgentReason::Lockfile(file) => file@,
        AgentReason::Assumed => "assumed"@,
        AgentReason::Forced => "--agent"@,
    }
}

impl AgentReason {
    /// The reason as printed next to the agent.
    pub fn as_str(self) -> (r: &'static str)
        ensures
            r@ == reason_text(self),
    {
        match self {
            AgentReason::Declared => "packageManager",
            AgentReason::Lockfile(file) => file,
            AgentReason::Assumed => "assumed",
            AgentReason::Forced => "--agent",
        }
    }
}

/// Which agent a project uses, what said so, and whether it is Yarn 2+
/// ("berry"), whose flags diverge from Yarn 1's.
#[derive(Debug, Clone, PartialEq, Eq)]
pub struct AgentChoice {
    pub agent: Agent,
    pub reason: AgentReason,
    pub berry: bool,
}

/// The lockfiles, most specific first, with the agent each identifies. Order
/// is precedence: a stale `package-lock.json` left next to `pnpm-lock.yaml`
/// must not win.
pub open spec fn lockfiles() -> Seq<(Seq<char>, Agent)> {
    seq![
        ("pnpm-lock.yaml"@, Agent::Pnpm),
        ("bun.lockb"@, Agent::Bun),
        ("bun.lock"@, Agent::Bun),
        ("yarn.lock"@, Agent::Yarn),
        ("package-lock.json"@, Agent::Npm),
        ("npm-shrinkwrap.json"@, Agent::Npm),
    ]
}

fn lockfile(i: usize) -> (r: (&'static str, Agent))
    requires
        i < 6,
    ensures
        r.0@ == lockfiles()[i as int].0,
        r.1 == lockfiles()[i as int].1,
{
    match i {
        0 => ("pnpm-lock.yaml", Agent::Pnpm),
        1 => ("bun.lockb", Agent::Bun),
        2 => ("bun.lock", Agent::Bun),
        3 => ("yarn.lock", Agent::Yarn),
        4 => ("package-lock.json", Agent::Npm),
        _ => ("npm-shrinkwrap.json", Agent::Npm),
    }
}

/// The first lockfile, in precedence order, whose name is among `present`.
pub open spec fn first_lockfile(present: Seq<Seq<char>>) -> Option<int> {
    if exists|i: int| 0 <= i < 6 && present.contains(#[trigger] lockfiles()[i].0) {
        Some(
            choose|i: int|
                0 <= i < 6 && present.contains(#[trigger] lockfiles()[i].0) && forall|j: int|
                    0 <= j < i ==> !present.contains(#[trigger] lockfiles()[j].0),
        )
    } else {
        None
    }
}

/// package.json's `packageManager` (`"pnpm@9.1.0"`) as an agent plus its
/// major version: the name before the first `@` parsed like `--agent`, the
/// major the part of the rest before the first `.`, parsed as a `u32`.
pub open spec fn package_manager(text: Seq<char>) -> Option<(Agent, Option<nat>)> {
    match json_string_value(text, "\"packageManager\""@) {
        None => None,
        Some(value) => {
            let (name, rest) = match find(value, seq!['@']) {
                Some(i) => (value.subrange(0, i), value.subrange(i + 1, value.len() as int)),
                None => (value, Seq::<char>::empty()),
            };
            match agent_parsed(name) {
                None => None,
                Some(a) => Some((a, parse_uint(split_on(rest, '.')[0], 0xffff_ffff))),
            }
        },
    }
}

/// Whether a Yarn project is Yarn 2+: the declared major settles it;
/// otherwise `.yarnrc.yml` (berry-only) or a `__metadata` block in the head
/// of `yarn.lock`.
pub open spec fn yarn_berry(
    declared_major: Option<nat>,
    yarnrc_present: bool,
    yarn_lock_head: Option<Seq<char>>,
) -> bool {
    match declared_major {
        Some(m) => m >= 2,
        None => yarnrc_present || match yarn_lock_head {
            Some(h) => contains_seq(h, "__metadata"@),
            None => false,
        },
    }
}

/// The agent a project expects: the `packageManager` declaration wins, else
/// the first lockfile present, else npm.
pub open spec fn agent_detected(package_json: Option<Seq<char>>, present: Seq<Seq<char>>) -> Agent {
    let declared = match package_json {
        Some(t) => package_manager(t),
        None => None,
    };
    match declared {
        Some((a, _)) => a,
        None => match first_lockfile(present) {
            Some(i) => lockfiles()[i].1,
            None => Agent::Npm,
        },
    }
}

/// `r` names the lockfile `name`.
pub open spec fn lockfile_reason(r: AgentReason, name: Seq<char>) -> bool {
    match r {
        AgentReason::Lockfile(f) => f@ == name,
        _ => false,
    }
}

/// Whether the reason recorded matches what decided: the declaration, the
/// lockfile found, or neither.
pub open spec fn reason_for(
    r: AgentReason,
    package_json: Option<Seq<char>>,
    present: Seq<Seq<char>>,
) -> bool {
    let declared = match package_json {
        Some(t) => package_manager(t),
        None => None,
    };
    match r {
        AgentReason::Declared => declared is Some,
        AgentReason::Lockfile(f) => declared is None && first_lockfile(present) is Some
            && f@ == lockfiles()[first_lockfile(present)->0].0,
        AgentReason::Assumed => declared is None && first_lockfile(present) is None,
        AgentReason::Forced => false,
    }
}

/// Whether the chosen agent is Yarn 2+.
pub open spec fn berry_detected(
    package_json: Option<Seq<char>>,
    present: Seq<Seq<char>>,
    yarn_lock_head: Option<Seq<char>>,
) -> bool {
    let declared = match package_json {
        Some(t) => package_manager(t),
        None => None,
    };
    let major = match declared {
        Some((_, m)) => m,
        None => None,
    };
    agent_detected(package_json, present) == Agent::Yarn && yarn_berry(
        major,
        present.contains(".yarnrc.yml"@),
        yarn_lock_head,
    )
}

/// Whether `name` is among `present`.
fn is_present(present: &[String], name: &str) -> (r: bool)
    ensures
        r == str_views(present@).contains(name@),
{
    let mut i: usize = 0;
    while i < present.len()
        invariant
            i <= present.len(),
            forall|k: int| 0 <= k < i ==> present@[k]@ != name@,
        decreases present.len() - i,
    {
        if crate::text::str_eq(present[i].as_str(), name) {
            assert(str_views(present@)[i as int] == name@);
            return true;
        }
        i = i + 1;
    }
    proof {
        if str_views(present@).contains(name@) {
            let k = choose|k: int| 0 <= k < present@.len() && str_views(present@)[k] == name@;
            assert(present@[k]@ == name@);
        }
    }
    false
}

/// `packageManager` out of package.json text.
fn package_manager_of(text: &str) -> (r: Option<(Agent, Option<u32>)>)
    ensures
        r matches Some((a, m)) ==> package_manager(text@) == Some(
            (
                a,
                match m {
                    Some(n) => Some(n as nat),
                    None => None,
                },
            ),
        ),
        r is None ==> package_manager(text@) is None,
{
    let cs = to_chars(text);
    let key = to_chars("\"packageManager\"");
    let value = match json_string_value_of(&cs, &key) {
        Some(v) => v,
        None => return None,
    };
    let vl = value.len();
    let (name, rest) = match find_char(&value, '@') {
        Some(i) => (slice_chars(&value, 0, i), slice_chars(&value, i + 1, vl)),
        None => (slice_chars(&value, 0, value.len()), Vec::new()),
    };
    assert(value@.subrange(0, value@.len() as int) =~= value@);
    assert(rest@.len() == 0 ==> rest@ =~= Seq::<char>::empty());
    let name_s = from_chars(&name);
    let agent = match Agent::parse(name_s.as_str()) {
        Some(a) => a,
        None => return None,
    };
    let pieces = split_char(&rest, '.');
    proof {
        crate::text::lemma_split_on_nonempty(rest@, '.');
    }
    let major = parse_uint_chars(&pieces[0], 0xffff_ffff);
    let m: Option<u32> = match major {
        Some(n) => Some(n as u32),
        None => None,
    };
    Some((agent, m))
}

/// Work out which package manager a project expects, from the text of its
/// `package.json` (`None` when missing), the names of the files present in
/// its root, and the first bytes of its `yarn.lock` as text (`None` when
/// missing).
///
/// `packageManager` is Corepack's declaration — intent, so it wins outright.
/// Otherwise the first lockfile in precedence order is the evidence. Failing
/// both, npm: it ships with Node.
pub fn detect_agent(package_json: Option<&str>, present: &[String], yarn_lock_head: Option<&str>) -> (r:
    AgentChoice)
    ensures
        r.agent == agent_detected(opt_str(package_json), str_views(present@)),
        reason_for(r.reason, opt_str(package_json), str_views(present@)),
        r.berry == berry_detected(opt_str(package_json), str_views(present@), opt_str(yarn_lock_head)),
{
    let declared = match package_json {
        Some(t) => package_manager_of(t),
        None => None,
    };
    let ghost pv = str_views(present@);
    let (agent, reason) = match declared {
        Some((a, _)) => (a, AgentReason::Declared),
        None => {
            let mut i: usize = 0;
            let mut found: Option<(Agent, AgentReason)> = None;
            while i < 6
                invariant
                    i <= 6,
                    pv == str_views(present@),
                    found is None ==> forall|j: int| 0 <= j < i ==> !pv.contains(#[trigger] lockfiles()[j].0),
                    found matches Some((a, rr)) ==> exists|k: int| 0 <= k < i
                        && pv.contains(#[trigger] lockfiles()[k].0)
                        && (forall|j: int| 0 <= j < k ==> !pv.contains(#[trigger] lockfiles()[j].0))
                        && a == lockfiles()[k].1
                        && lockfile_reason(rr, lockfiles()[k].0),
                decreases 6 - i,
            {
                if found.is_none() {
                    let (file, a) = lockfile(i);
                    if is_present(present, file) {
                        found = Some((a, AgentReason::Lockfile(file)));
                    }
                }
                i = i + 1;
            }
            proof {
                if let Some((a, rr)) = found {
                    let k = choose|k: int| 0 <= k < 6
                        && pv.contains(#[trigger] lockfiles()[k].0)
                        && (forall|j: int| 0 <= j < k ==> !pv.contains(#[trigger] lockfiles()[j].0))
                        && a == lockfiles()[k].1
                        && lockfile_reason(rr, lockfiles()[k].0);
                    assert(first_lockfile(pv) is Some);
                    let c = first_lockfile(pv)->0;
                    assert(c == k) by {
                        if c < k {
                            assert(!pv.contains(lockfiles()[c].0));
                        }
                        if k < c {
                            assert(!pv.contains(lockfiles()[k].0));
                        }
                    }
                } else {
                    assert(first_lockfile(pv) is None);
                }
            }
            match found {
                Some(p) => p,
                None => (Agent::Npm, AgentReason::Assumed),
            }
        },
    };
    let is_yarn = match agent {
        Agent::Yarn => true,
        _ => false,
    };
    let berry = if !is_yarn {
        false
    } else {
        match declared {
            Some((_, Some(m))) => m >= 2,
            _ => if is_present(present, ".yarnrc.yml") {
                true
            } else {
                match yarn_lock_head {
                    Some(h) => str_contains(h, "__metadata"),
                    None => false,
                }
            },
        }
    };
    AgentChoice { agent, reason, berry }
}

/// The install command's words for an agent: `frozen` is the CI-shaped
/// install that fails rather than update the lockfile, which each agent spells
/// its own way.
pub open spec fn install_words(agent: Agent, berry: bool, frozen: bool) -> Seq<Seq<char>> {
    match (agent, frozen) {
        (Agent::Npm, false) => seq!["install"@],
        (Agent::Npm, true) => seq!["ci"@],
        (Agent::Yarn, true) => if berry {
            seq!["install"@, "--immutable"@]
        } else {
            seq!["install"@, "--frozen-lockfile"@]
        },
        (_, true) => seq!["install"@, "--frozen-lockfile"@],
        (_, false) => seq!["install"@],
    }
}

/// The arguments that install a project's dependencies from its lockfile.
/// Classic Yarn's `--frozen-lockfile` is an unknown option to Yarn 2+, which
/// wants `--immutable`; npm's frozen install is a different verb, `ci`.
pub fn install_args(choice: &AgentChoice, frozen: bool) -> (r: Vec<String>)
    ensures
        str_views(r@) == install_words(choice.agent, choice.berry, frozen),
{
    let mut out: Vec<String> = Vec::new();
    match (choice.agent, frozen) {
        (Agent::Npm, false) => {
            out.push(String::from_str("install"));
        },
        (Agent::Npm, true) => {
            out.push(String::from_str("ci"));
        },
        (Agent::Yarn, true) => {
            out.push(String::from_str("install"));
            if choice.berry {
                out.push(String::from_str("--immutable"));
            } else {
                out.push(String::from_str("--frozen-lockfile"));
            }
        },
        (_, true) => {
            out.push(String::from_str("install"));
            out.push(String::from_str("--frozen-lockfile"));
        },
        (_, false) => {
            out.push(String::from_str("install"));
        },
    }
    assert(str_views(out@) =~= install_words(choice.agent, choice.berry, frozen));
    out
}

/// The arguments that run a package.json script: `run <script> <extra>…`.
/// The explicit `run` avoids the shadowing traps of the bare form.
pub fn run_args(script: &str, extra: &[String]) -> (r: Vec<String>)
    ensures
        str_views(r@) == seq!["run"@, script@] + str_views(extra@),
{
    let mut out: Vec<String> = Vec::new();
    out.push(String::from_str("run"));
    out.push(String::from_str(script));
    let ghost head = str_views(out@);
    assert(head =~= seq!["run"@, script@]);
    let mut i: usize = 0;
    while i < extra.len()
        invariant
            i <= extra.len(),
            head == seq!["run"@, script@],
            str_views(out@) == head + str_views(extra@).take(i as int),
        decreases extra.len() - i,
    {
        let ghost before = str_views(out@);
        out.push(copy_string(&extra[i]));
        assert(str_views(out@) =~= before.push(extra@[i as int]@));
        i = i + 1;
        assert(str_views(out@) =~= head + str_views(extra@).take(i as int));
    }
    assert(str_views(extra@).take(extra.len() as int) =~= str_views(extra@));
    out
}

// --------------------------------------------------------------- invocation

/// A command to spawn: the program and its arguments.
#[derive(Debug, Clone, PartialEq, Eq)]
pub struct Invocation {
    pub program: String,
    pub args: Vec<String>,
}

/// One character as it stands inside single quotes: a `'` closes the quote,
/// escapes itself and reopens.
pub open spec fn quote_char(c: char) -> Seq<char> {
    if c == '\'' {
        "'\\''"@
    } else {
        seq![c]
    }
}

/// The body of a single-quoted word.
pub open spec fn quote_body(w: Seq<char>) -> Seq<char>
    decreases w.len(),
{
    if w.len() == 0 {
        Seq::empty()
    } else {
        quote_body(w.drop_last()) + quote_char(w.last())
    }
}

/// `w` single-quoted for `sh`, so spaces, `$` and quotes survive.
pub open spec fn shell_quoted(w: Seq<char>) -> Seq<char> {
    seq!['\''] + quote_body(w) + seq!['\'']
}

/// Each argument, quoted, after a space.
pub open spec fn quoted_args(args: Seq<Seq<char>>) -> Seq<char>
    decreases args.len(),
{
    if args.len() == 0 {
        Seq::empty()
    } else {
        quoted_args(args.drop_last()) + seq![' '] + shell_quoted(args.last())
    }
}

/// How the manager is asked to switch for a pin: `None` when it can't be
/// (nothing pinned, or a package.json range with no version in it),
/// `Some(None)` to read the project's version file, `Some(Some(v))` to use
/// the version resolved from package.json.
pub open spec fn switch_for(pin: Option<(Seq<char>, PinSource)>) -> Option<Option<Seq<char>>> {
    match pin {
        None => None,
        Some((v, PinSource::PackageJson)) => match normalized_range(v) {
            Some(n) => Some(Some(n)),
            None => None,
        },
        Some(_) => Some(None),
    }
}

/// The `nvm use` step for a switch, its narration sent to stderr.
pub open spec fn nvm_use(sw: Option<Seq<char>>) -> Seq<char> {
    match sw {
        None => "nvm use --silent 1>&2"@,
        Some(v) => "nvm use --silent "@ + shell_quoted(v) + " 1>&2"@,
    }
}

/// The program and arguments that run `command args…` under a project's
/// pinned Node version. With no manager, nothing pinned, a pin no manager can
/// act on, or nvm without its script, the command runs as `PATH` finds it.
pub open spec fn invocation_for(
    manager: Option<Manager>,
    nvm_script: Option<Seq<char>>,
    pin: Option<(Seq<char>, PinSource)>,
    command: Seq<char>,
    args: Seq<Seq<char>>,
) -> (Seq<char>, Seq<Seq<char>>) {
    let direct = (command, args);
    match manager {
        None => direct,
        Some(m) => match switch_for(pin) {
            None => direct,
            Some(sw) => match m {
                Manager::Fnm => (
                    "fnm"@,
                    seq!["exec"@] + match sw {
                        None => seq!["--using-file"@],
                        Some(v) => seq!["--using"@, v],
                    } + seq!["--"@, command] + args,
                ),
                Manager::Nvm => match nvm_script {
                    None => direct,
                    Some(s) => (
                        "bash"@,
                        seq![
                            "-lc"@,
                            ". "@ + shell_quoted(s) + " && "@ + nvm_use(sw) + " && exec "@
                                + shell_quoted(command) + quoted_args(args),
                        ],
                    ),
                },
            },
        },
    }
}

/// An invocation as plain values.
pub open spec fn invocation_view(i: Invocation) -> (Seq<char>, Seq<Seq<char>>) {
    (i.program@, str_views(i.args@))
}

/// Single-quote a word for `sh`.
fn shell_quote(word: &str) -> (r: String)
    ensures
        r@ == shell_quoted(word@),
{
    let cs = to_chars(word);
    let mut out = String::new();
    out.push('\'');
    let mut i: usize = 0;
    while i < cs.len()
        invariant
            i <= cs.len(),
            cs@ == word@,
            out@ == seq!['\''] + quote_body(word@.take(i as int)),
        decreases cs.len() - i,
    {
        let ghost before = out@;
        if cs[i] == '\'' {
            push_str(&mut out, "'\\''");
        } else {
            out.push(cs[i]);
        }
        proof {
            let t = word@.take(i + 1);
            assert(t.drop_last() =~= word@.take(i as int));
            assert(t.last() == cs@[i as int]);
            assert(out@ =~= seq!['\''] + quote_body(t));
        }
        i = i + 1;
    }
    assert(word@.take(cs.len() as int) =~= word@);
    out.push('\'');
    out
}

/// The invocation that runs `command args…` directly.
fn direct(command: &str, args: &[String]) -> (r: Invocation)
    ensures
        invocation_view(r) == (command@, str_views(args@)),
{
    Invocation { program: String::from_str(command), args: copy_strings(args) }
}

/// Wrap `command args…` so it runs under a project's pinned Node version,
/// borrowing whichever manager the user already has. fnm can exec a command
/// against a version file directly; nvm is a shell function, so it is sourced
/// in a shell first, and `exec` hands the process over so exit codes and
/// signals are the command's own.
pub fn pinned_invocation(
    manager: Option<Manager>,
    nvm_script: Option<&str>,
    pin: Option<&Pin>,
    command: &str,
    args: &[String],
) -> (r: Invocation)
    ensures
        invocation_view(r) == invocation_for(
            manager,
            opt_str(nvm_script),
            match pin {
                Some(p) => Some(pin_view(*p)),
                None => None,
            },
            command@,
            str_views(args@),
        ),
{
    let m = match manager {
        Some(m) => m,
        None => return direct(command, args),
    };
    // Some(None): the version file; Some(Some(v)): a version resolved here.
    let switch: Option<String> = match pin {
        None => return direct(command, args),
        Some(p) => match p.source {
            PinSource::PackageJson => match normalize_range(p.version.as_str()) {
                Some(v) => Some(v),
                None => return direct(command, args),
            },
            _ => None,
        },
    };
    match m {
        Manager::Fnm => {
            let mut fnm: Vec<String> = Vec::new();
            fnm.push(String::from_str("exec"));
            match &switch {
                None => {
                    fnm.push(String::from_str("--using-file"));
                },
                Some(v) => {
                    fnm.push(String::from_str("--using"));
                    fnm.push(copy_string(v));
                },
            }
            fnm.push(String::from_str("--"));
            fnm.push(String::from_str(command));
            let ghost head = str_views(fnm@);
            let mut i: usize = 0;
            while i < args.len()
                invariant
                    i <= args.len(),
                    str_views(fnm@) == head + str_views(args@).take(i as int),
                decreases args.len() - i,
            {
                let ghost before = str_views(fnm@);
                fnm.push(copy_string(&args[i]));
                assert(str_views(fnm@) =~= before.push(args@[i as int]@));
                i = i + 1;
                assert(str_views(fnm@) =~= head + str_views(args@).take(i as int));
            }
            assert(str_views(args@).take(args.len() as int) =~= str_views(args@));
            proof {
                let sw = switch_for(
                    match pin {
                        Some(p) => Some(pin_view(*p)),
                        None => None,
                    },
                );
                assert(sw == Some(
                    match switch {
                        Some(v) => Some(v@),
                        None => None,
                    },
                ));
                assert(head =~= seq!["exec"@] + match sw->0 {
                    None => seq!["--using-file"@],
                    Some(v) => seq!["--using"@, v],
                } + seq!["--"@, command@]);
            }
            Invocation { program: String::from_str("fnm"), args: fnm }
        },
        Manager::Nvm => {
            let script = match nvm_script {
                Some(s) => s,
                None => return direct(command, args),
            };
            let use_version = match &switch {
                None => String::from_str("nvm use --silent 1>&2"),
                Some(v) => {
                    let mut u = String::from_str("nvm use --silent ");
                    let q = shell_quote(v.as_str());
                    push_str(&mut u, q.as_str());
                    push_str(&mut u, " 1>&2");
                    u
                },
            };
            let mut line = String::from_str(". ");
            push_str(&mut line, shell_quote(script).as_str());
            push_str(&mut line, " && ");
            push_str(&mut line, use_version.as_str());
            push_str(&mut line, " && exec ");
            push_str(&mut line, shell_quote(command).as_str());
            let ghost head = line@;
            let mut i: usize = 0;
            while i < args.len()
                invariant
                    i <= args.len(),
                    line@ == head + quoted_args(str_views(args@).take(i as int)),
                decreases args.len() - i,
            {
                line.push(' ');
                push_str(&mut line, shell_quote(args[i].as_str()).as_str());
                proof {
                    let t = str_views(args@).take(i + 1);
                    assert(t.drop_last() =~= str_views(args@).take(i as int));
                    assert(t.last() == args@[i as int]@);
                }
                i = i + 1;
            }
            assert(str_views(args@).take(args.len() as int) =~= str_views(args@));
            proof {
                let sw = switch_for(
                    match pin {
                        Some(p) => Some(pin_view(*p)),
                        None => None,
                    },
                );
                assert(sw == Some(
                    match switch {
                        Some(v) => Some(v@),
                        None => None,
                    },
                ));
                assert(use_version@ == nvm_use(sw->0));
            }
            let mut out: Vec<String> = Vec::new();
            out.push(String::from_str("-lc"));
            out.push(line);
            proof {
                assert(str_views(out@) =~= seq!["-lc"@, out@[1]@]);
            }
            Invocation { program: String::from_str("bash"), args: out }
        },
    }
}


/// The non-blank first line of a pin file, when the file exists.
pub open spec fn pin_line(file: Option<Seq<char>>) -> Option<Seq<char>> {
    match file {
        Some(t) => first_line(t),
        None => None,
    }
}

/// package.json's `engines.node`, when the file exists.
pub open spec fn engines_pin(file: Option<Seq<char>>) -> Option<Seq<char>> {
    match file {
        Some(t) => engines_node(t),
        None => None,
    }
}

/// Which pin wins: a non-blank first line of `.nvmrc`; else a non-blank
/// first line of `.node-version`, whatever package.json says; else
/// package.json's `engines.node`; else nothing.
pub proof fn lemma_pin_precedence(nvmrc: Option<Seq<char>>, node_version: Option<Seq<char>>, package_json: Option<Seq<char>>)
    ensures
        pin_line(nvmrc) matches Some(v) ==> pin_from(nvmrc, node_version, package_json) == Some((v, PinSource::Nvmrc)),
        pin_line(nvmrc) is None ==> (pin_line(node_version) matches Some(v) ==> pin_from(nvmrc, node_version, package_json)
            == Some((v, PinSource::NodeVersion))),
        pin_line(nvmrc) is None && pin_line(node_version) is None ==> (engines_pin(package_json) matches Some(v)
            ==> pin_from(nvmrc, node_version, package_json) == Some((v, PinSource::PackageJson))),
        pin_line(nvmrc) is None && pin_line(node_version) is None && engines_pin(package_json) is None ==> pin_from(
            nvmrc,
            node_version,
            package_json,
        ) is None,
{
}

} // verus!
