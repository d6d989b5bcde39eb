//! Running one package-manager job across every linked site with a
//! `package.json`: which job, which agent each site gets, and what the run
//! says before, during and after. Spawning the processes is the caller's
//! part.

use vstd::prelude::*;

use crate::node::{
    agent_name, agent_parsed, install_args, install_words, pin_source_name, run_args, Agent, AgentChoice, Pin,
};
use crate::text::{copy_string, dec, dec_string, join, join_strings, push_str, str_views, to_chars};

verus! {

/// Which sites a fan-out touches and how it handles failure.
#[derive(Debug, Clone)]
pub struct Fan {
    /// Limit to one linked site; `None` fans out across all of them.
    pub site: Option<String>,
    /// Force a package manager instead of detecting one per site.
    pub agent: Option<String>,
    /// Stop at the first site that fails.
    pub fail_fast: bool,
}

/// What to run in each site; the words differ per agent.
#[derive(Debug, Clone)]
pub enum Job {
    /// Install dependencies from the lockfile (`frozen`: refuse to update it).
    Install { frozen: bool },
    /// Run a package.json script, plus arguments for the script itself.
    Script { name: String, extra: Vec<String> },
    /// Hand these words to the agent verbatim.
    Verbatim(Vec<String>),
}

/// The agent's arguments for a job.
pub open spec fn job_words(job: Job, choice: AgentChoice) -> Seq<Seq<char>> {
    match job {
        Job::Install { frozen } => install_words(choice.agent, choice.berry, frozen),
        Job::Script { name, extra } => seq!["run"@, name@] + str_views(extra@),
        Job::Verbatim(args) => str_views(args@),
    }
}

/// How a job reads in the run's header.
pub open spec fn job_label(job: Job) -> Seq<char> {
    match job {
        Job::Install { frozen } => if frozen {
            "install (frozen lockfile)"@
        } else {
            "install"@
        },
        Job::Script { name, extra } => if extra@.len() == 0 {
            "run "@ + name@
        } else {
            "run "@ + name@ + " "@ + join(str_views(extra@), " "@)
        },
        Job::Verbatim(args) => join(str_views(args@), " "@),
    }
}


impl Job {
    /// The agent's arguments for this job (see [`job_words`]).
    pub fn args(&self, choice: &AgentChoice) -> (r: Vec<String>)
        ensures
            str_views(r@) == job_words(*self, *choice),
    {
        match self {
            Job::Install { frozen } => install_args(choice, *frozen),
            Job::Script { name, extra } => run_args(name.as_str(), extra.as_slice()),
            Job::Verbatim(args) => crate::text::copy_strings(args.as_slice()),
        }
    }

    /// How the job reads in the header (see [`job_label`]).
    pub fn label(&self) -> (r: String)
        ensures
            r@ == job_label(*self),
    {
        match self {
            Job::Install { frozen } => if *frozen {
                String::from_str("install (frozen lockfile)")
            } else {
                String::from_str("install")
            },
            Job::Script { name, extra } => {
                let mut s = String::from_str("run ");
                push_str(&mut s, name.as_str());
                if extra.len() > 0 {
                    push_str(&mut s, " ");
                    push_str(&mut s, join_strings(extra, " ").as_str());
                }
                s
            },
            Job::Verbatim(args) => join_strings(args, " "),
        }
    }
}

/// What an `--agent` flag forces: no agent without the flag, the agent it
/// names, or the message for a name that is no agent.
pub open spec fn forced_agent_of(flag: Option<Seq<char>>) -> Result<Option<Agent>, Seq<char>> {
    match flag {
        None => Ok(None),
        Some(name) => match agent_parsed(name) {
            Some(a) => Ok(Some(a)),
            None => Err("unknown package manager `"@ + name + "` \u{2014} expected one of npm, pnpm, yarn, bun."@),
        },
    }
}

/// The agent an `--agent` flag forces (see [`forced_agent_of`]).
pub fn forced_agent(flag: Option<&str>) -> (r: Result<Option<Agent>, String>)
    ensures
        match r {
            Ok(a) => forced_agent_of(crate::node::opt_str(flag)) == Ok::<Option<Agent>, Seq<char>>(a),
            Err(e) => forced_agent_of(crate::node::opt_str(flag)) == Err::<Option<Agent>, Seq<char>>(e@),
        },
{
    match flag {
        None => Ok(None),
        Some(name) => match Agent::parse(name) {
            Some(a) => Ok(Some(a)),
            None => {
                let mut e = String::from_str("unknown package manager `");
                push_str(&mut e, name);
                push_str(&mut e, "` \u{2014} expected one of npm, pnpm, yarn, bun.");
                Err(e)
            },
        },
    }
}

/// The message when no site has a `package.json`.
pub open spec fn no_targets_message(named: Option<Seq<char>>, skipped: nat) -> Seq<char> {
    match named {
        Some(name) => name + " has no package.json \u{2014} nothing to run."@,
        None => "no linked site has a package.json ("@ + dec(skipped) + " site"@ + (if skipped == 1 {
            ""@
        } else {
            "s"@
        }) + " checked)."@,
    }
}

/// The message when no site has a `package.json` (see
/// [`no_targets_message`]).
pub fn no_targets(named: Option<&str>, skipped: usize) -> (r: String)
    ensures
        r@ == no_targets_message(crate::node::opt_str(named), skipped as nat),
{
    match named {
        Some(name) => {
            let mut s = String::from_str(name);
            push_str(&mut s, " has no package.json \u{2014} nothing to run.");
            s
        },
        None => {
            let mut s = String::from_str("no linked site has a package.json (");
            push_str(&mut s, dec_string(skipped as u64).as_str());
            push_str(&mut s, " site");
            if skipped != 1 {
                push_str(&mut s, "s");
            } else {
                proof {
                    reveal_strlit("");
                }
                assert(s@ =~= s@ + ""@);
            }
            push_str(&mut s, " checked).");
            s
        },
    }
}

// -------------------------------------------------------------------- tally

/// How many sites each agent has, in order of first appearance.
pub open spec fn tally(agents: Seq<Agent>) -> Seq<(Agent, nat)>
    decreases agents.len(),
{
    if agents.len() == 0 {
        Seq::empty()
    } else {
        let t = tally(agents.drop_last());
        let a = agents.last();
        match tally_index(t, a) {
            Some(i) => t.update(i, (a, t[i].1 + 1)),
            None => t.push((a, 1)),
        }
    }
}

/// Where agent `a` stands in a tally.
pub open spec fn tally_index(t: Seq<(Agent, nat)>, a: Agent) -> Option<int> {
    if exists|i: int| 0 <= i < t.len() && (#[trigger] t[i]).0 == a {
        Some(choose|i: int| 0 <= i < t.len() && (#[trigger] t[i]).0 == a)
    } else {
        None
    }
}

/// Tally order: more sites first, then by name.
pub open spec fn tally_before(x: (Agent, nat), y: (Agent, nat)) -> bool {
    x.1 > y.1 || (x.1 == y.1 && crate::text::lex_lt(agent_name(x.0), agent_name(y.0)))
}

/// `x` placed into `l` before the first entry it sorts before.
pub open spec fn tally_insert(l: Seq<(Agent, nat)>, x: (Agent, nat)) -> Seq<(Agent, nat)>
    decreases l.len(),
{
    if l.len() == 0 {
        seq![x]
    } else if tally_before(x, l[0]) {
        seq![x] + l
    } else {
        seq![l[0]] + tally_insert(l.drop_first(), x)
    }
}

/// A tally in tally order.
pub open spec fn tally_sorted(t: Seq<(Agent, nat)>) -> Seq<(Agent, nat)>
    decreases t.len(),
{
    if t.len() == 0 {
        Seq::empty()
    } else {
        tally_insert(tally_sorted(t.drop_last()), t.last())
    }
}

/// One tally entry as text: `pnpm 3`.
pub open spec fn tally_entry(e: (Agent, nat)) -> Seq<char> {
    agent_name(e.0) + " "@ + dec(e.1)
}

/// A count per agent (`, npm 8 · pnpm 3`), or just `, <agent>` when every
/// site agrees, or nothing for no sites.
pub open spec fn tally_text(agents: Seq<Agent>) -> Seq<char> {
    let t = tally(agents);
    if t.len() == 0 {
        Seq::empty()
    } else if t.len() == 1 {
        ", "@ + agent_name(t[0].0)
    } else {
        ", "@ + join(tally_sorted(t).map_values(|e: (Agent, nat)| tally_entry(e)), " \u{b7} "@)
    }
}

proof fn lemma_tally_insert_at(l: Seq<(Agent, nat)>, x: (Agent, nat), p: int)
    requires
        0 <= p <= l.len(),
        forall|k: int| 0 <= k < p ==> !tally_before(x, #[trigger] l[k]),
        p < l.len() ==> tally_before(x, l[p]),
    ensures
        tally_insert(l, x) == l.insert(p, x),
    decreases l.len(),
{
    if l.len() == 0 {
        assert(l.insert(p, x) =~= seq![x]);
    } else if p == 0 {
        assert(l.insert(0, x) =~= seq![x] + l);
    } else {
        let t = l.drop_first();
        assert forall|k: int| 0 <= k < p - 1 implies !tally_before(x, #[trigger] t[k]) by {
            assert(t[k] == l[k + 1]);
        }
        if p < l.len() {
            assert(t[p - 1] == l[p]);
        }
        assert(!tally_before(x, l[0]));
        lemma_tally_insert_at(t, x, p - 1);
        assert(seq![l[0]] + t.insert(p - 1, x) =~= l.insert(p, x));
    }
}

fn before_exec(x: (Agent, u64), y: (Agent, u64)) -> (r: bool)
    ensures
        r == tally_before((x.0, x.1 as nat), (y.0, y.1 as nat)),
{
    x.1 > y.1 || (x.1 == y.1 && crate::text::lex_less(to_chars(x.0.as_str()).as_slice(), to_chars(y.0.as_str()).as_slice()))
}

/// Counts as plain values.
pub open spec fn counts_view(v: Seq<(Agent, u64)>) -> Seq<(Agent, nat)> {
    v.map_values(|e: (Agent, u64)| (e.0, e.1 as nat))
}

/// The per-agent tally of a plan's agents (see [`tally_text`]).
pub fn agent_tally(agents: &[Agent]) -> (r: String)
    ensures
        r@ == tally_text(agents@),
{
    let mut counts: Vec<(Agent, u64)> = Vec::new();
    let mut i: usize = 0;
    assert(agents@.take(0) =~= Seq::<Agent>::empty());
    assert(counts_view(counts@) =~= Seq::<(Agent, nat)>::empty());
    while i < agents.len()
        invariant
            i <= agents.len(),
            counts_view(counts@) == tally(agents@.take(i as int)),
            forall|k: int| 0 <= k < counts@.len() ==> (#[trigger] counts@[k]).1 <= i,
            forall|k: int, m: int| 0 <= k < m < counts@.len() ==> (#[trigger] counts@[k]).0 != (#[trigger] counts@[m]).0,
        decreases agents.len() - i,
    {
        let a = agents[i];
        let ghost cv = counts_view(counts@);
        assert(agents@.take(i + 1).drop_last() =~= agents@.take(i as int));
        assert(agents@.take(i + 1).last() == a);
        let mut j: usize = 0;
        while j < counts.len() && counts[j].0 != a
            invariant
                j <= counts.len(),
                forall|k: int| 0 <= k < j ==> (#[trigger] counts@[k]).0 != a,
            decreases counts.len() - j,
        {
            j = j + 1;
        }
        if j < counts.len() {
            let n = counts[j].1;
            counts.set(j, (a, n + 1));
            proof {
                assert(cv[j as int].0 == a);
                let idx = tally_index(cv, a);
                assert(idx is Some);
                let w = idx->0;
                assert(cv[w].0 == a);
                if w != j {
                    if w < j {
                        assert(counts@[w].0 != a);
                    } else {
                        assert(counts@[j as int].0 != counts@[w].0);
                    }
                }
                assert(counts_view(counts@) =~= cv.update(j as int, (a, cv[j as int].1 + 1)));
            }
        } else {
            counts.push((a, 1));
            proof {
                assert(tally_index(cv, a) is None) by {
                    if exists|k: int| 0 <= k < cv.len() && (#[trigger] cv[k]).0 == a {
                        let k = choose|k: int| 0 <= k < cv.len() && (#[trigger] cv[k]).0 == a;
                        assert(counts@[k].0 != a);
                    }
                }
                assert(counts_view(counts@) =~= cv.push((a, 1)));
            }
        }
        i = i + 1;
    }
    assert(agents@.take(agents.len() as int) =~= agents@);
    let ghost t = counts_view(counts@);
    if counts.len() == 0 {
        let r = String::new();
        assert(r@ =~= Seq::<char>::empty());
        return r;
    }
    if counts.len() == 1 {
        let mut r = String::from_str(", ");
        push_str(&mut r, counts[0].0.as_str());
        return r;
    }
    // Sort by count, most first, then by name.
    let mut sorted: Vec<(Agent, u64)> = Vec::new();
    let mut k: usize = 0;
    assert(t.take(0) =~= Seq::<(Agent, nat)>::empty());
    assert(counts_view(sorted@) =~= Seq::<(Agent, nat)>::empty());
    while k < counts.len()
        invariant
            k <= counts.len(),
            t == counts_view(counts@),
            counts_view(sorted@) == tally_sorted(t.take(k as int)),
        decreases counts.len() - k,
    {
        let x = counts[k];
        let ghost sv = counts_view(sorted@);
        let mut p: usize = 0;
        while p < sorted.len() && !before_exec(x, sorted[p])
            invariant
                p <= sorted.len(),
                sv == counts_view(sorted@),
                forall|m: int| 0 <= m < p ==> !tally_before((x.0, x.1 as nat), #[trigger] sv[m]),
            decreases sorted.len() - p,
        {
            p = p + 1;
        }
        proof {
            lemma_tally_insert_at(sv, (x.0, x.1 as nat), p as int);
            assert(t.take(k + 1).drop_last() =~= t.take(k as int));
            assert(t.take(k + 1).last() == (x.0, x.1 as nat));
        }
        sorted.insert(p, x);
        assert(counts_view(sorted@) =~= sv.insert(p as int, (x.0, x.1 as nat)));
        k = k + 1;
    }
    assert(t.take(counts.len() as int) =~= t);
    let mut parts: Vec<String> = Vec::new();
    let mut q: usize = 0;
    let ghost ts = tally_sorted(t);
    while q < sorted.len()
        invariant
            q <= sorted.len(),
            counts_view(sorted@) == ts,
            str_views(parts@) == ts.map_values(|e: (Agent, nat)| tally_entry(e)).take(q as int),
        decreases sorted.len() - q,
    {
        let ghost before = str_views(parts@);
        let mut e = String::from_str(sorted[q].0.as_str());
        push_str(&mut e, " ");
        push_str(&mut e, dec_string(sorted[q].1).as_str());
        let ghost ev = e@;
        parts.push(e);
        assert(str_views(parts@) =~= before.push(ev));
        assert(ts.map_values(|e: (Agent, nat)| tally_entry(e)).take(q + 1) =~= ts.map_values(
            |e: (Agent, nat)| tally_entry(e),
        ).take(q as int).push(tally_entry(ts[q as int])));
        q = q + 1;
    }
    assert(ts.map_values(|e: (Agent, nat)| tally_entry(e)).take(sorted.len() as int) =~= ts.map_values(
        |e: (Agent, nat)| tally_entry(e),
    ));
    let mut r = String::from_str(", ");
    push_str(&mut r, join_strings(&parts, " \u{b7} ").as_str());
    r
}

// ------------------------------------------------------------------ the run

/// How a site's Node pin reads in its line: `Node 20 (.nvmrc)` or
/// `Node (unpinned)`.
pub open spec fn pin_text(pin: Option<Pin>) -> Seq<char> {
    match pin {
        Some(p) => "Node "@ + p.version@ + " ("@ + pin_source_name(p.source) + ")"@,
        None => "Node (unpinned)"@,
    }
}

/// How a site's Node pin reads (see [`pin_text`]).
pub fn pin_label(pin: Option<&Pin>) -> (r: String)
    ensures
        r@ == pin_text(
            match pin {
                Some(p) => Some(*p),
                None => None,
            },
        ),
{
    match pin {
        Some(p) => {
            let mut s = String::from_str("Node ");
            push_str(&mut s, p.version.as_str());
            push_str(&mut s, " (");
            push_str(&mut s, p.source.as_str());
            push_str(&mut s, ")");
            s
        },
        None => String::from_str("Node (unpinned)"),
    }
}

/// The header of a run: the job, how many sites, the agent tally, and how
/// many sites were skipped for having no `package.json`.
pub open spec fn fan_header_text(label: Seq<char>, agents: Seq<Agent>, skipped: nat) -> Seq<char> {
    label + " \u{2014} "@ + dec(agents.len()) + " site"@ + (if agents.len() == 1 {
        Seq::empty()
    } else {
        "s"@
    }) + tally_text(agents) + (if skipped > 0 {
        ", "@ + dec(skipped) + " without a package.json skipped"@
    } else {
        Seq::empty()
    })
}

/// The header of a run (see [`fan_header_text`]).
pub fn fan_header(label: &str, agents: &[Agent], skipped: usize) -> (r: String)
    ensures
        r@ == fan_header_text(label@, agents@, skipped as nat),
{
    let mut s = String::from_str(label);
    push_str(&mut s, " \u{2014} ");
    push_str(&mut s, dec_string(agents.len() as u64).as_str());
    push_str(&mut s, " site");
    let ghost a = s@;
    if agents.len() != 1 {
        push_str(&mut s, "s");
    } else {
        assert(s@ =~= a + Seq::<char>::empty());
    }
    push_str(&mut s, agent_tally(agents).as_str());
    let ghost b = s@;
    if skipped > 0 {
        push_str(&mut s, ", ");
        push_str(&mut s, dec_string(skipped as u64).as_str());
        push_str(&mut s, " without a package.json skipped");
    } else {
        assert(s@ =~= b + Seq::<char>::empty());
    }
    s
}

/// How a run ends: success in the one site or all of them, or which sites
/// failed.
pub open spec fn fan_outcome(label: Seq<char>, names: Seq<Seq<char>>, failed: Seq<Seq<char>>) -> Result<Seq<char>, Seq<char>> {
    if failed.len() == 0 {
        if names.len() == 1 {
            Ok("\u{2713} "@ + label + " succeeded in "@ + names[0] + "."@)
        } else {
            Ok("\u{2713} "@ + label + " succeeded in all "@ + dec(names.len()) + " sites."@)
        }
    } else {
        Err(dec(failed.len()) + " of "@ + dec(names.len()) + " sites failed: "@ + join(failed, ", "@))
    }
}

/// How a run ends (see [`fan_outcome`]).
pub fn fan_summary(label: &str, names: &Vec<String>, failed: &Vec<String>) -> (r: Result<String, String>)
    ensures
        match r {
            Ok(m) => fan_outcome(label@, str_views(names@), str_views(failed@)) == Ok::<Seq<char>, Seq<char>>(m@),
            Err(m) => fan_outcome(label@, str_views(names@), str_views(failed@)) == Err::<Seq<char>, Seq<char>>(m@),
        },
{
    if failed.len() == 0 {
        let mut s = String::from_str("\u{2713} ");
        push_str(&mut s, label);
        if names.len() == 1 {
            push_str(&mut s, " succeeded in ");
            push_str(&mut s, names[0].as_str());
            push_str(&mut s, ".");
        } else {
            push_str(&mut s, " succeeded in all ");
            push_str(&mut s, dec_string(names.len() as u64).as_str());
            push_str(&mut s, " sites.");
        }
        Ok(s)
    } else {
        let mut s = dec_string(failed.len() as u64);
        push_str(&mut s, " of ");
        push_str(&mut s, dec_string(names.len() as u64).as_str());
        push_str(&mut s, " sites failed: ");
        push_str(&mut s, join_strings(failed, ", ").as_str());
        Err(s)
    }
}


// ---------------------------------------------------------------- targets

/// The positions of the sites a fan-out considers: the one named (compared
/// lowercased), or every site that is not a reverse proxy; the message when
/// no site has that name.
pub open spec fn fan_candidates(sites: Seq<crate::ipc::SiteInfo>, site: Option<Seq<char>>) -> Result<Seq<int>, Seq<char>> {
    match site {
        Some(n) => {
            let name = crate::text::to_lowercase(n);
            match first_named(sites, name, 0) {
                Some(i) => Ok(seq![i]),
                None => Err("no local site named "@ + name + ". See `dpl node`."@),
            }
        },
        None => Ok(non_proxies(sites, sites.len() as int)),
    }
}

/// The position of the first site, from `i` on, named `name`.
pub open spec fn first_named(sites: Seq<crate::ipc::SiteInfo>, name: Seq<char>, i: int) -> Option<int>
    decreases sites.len() - i,
{
    if i < 0 || i >= sites.len() {
        None
    } else if sites[i].name@ == name {
        Some(i)
    } else {
        first_named(sites, name, i + 1)
    }
}

/// The positions, below `n`, of the sites that are not reverse proxies.
pub open spec fn non_proxies(sites: Seq<crate::ipc::SiteInfo>, n: int) -> Seq<int>
    decreases n,
{
    if n <= 0 {
        Seq::empty()
    } else {
        let rest = non_proxies(sites, n - 1);
        if sites[n - 1].source@ != "proxy"@ {
            rest.push(n - 1)
        } else {
            rest
        }
    }
}

/// The sites a fan-out considers (see [`fan_candidates`]), by position.
pub fn candidates(sites: &[crate::ipc::SiteInfo], site: Option<&str>) -> (r: Result<Vec<usize>, String>)
    ensures
        match r {
            Ok(v) => fan_candidates(sites@, crate::node::opt_str(site)) == Ok::<Seq<int>, Seq<char>>(
                v@.map_values(|i: usize| i as int),
            ),
            Err(e) => fan_candidates(sites@, crate::node::opt_str(site)) == Err::<Seq<int>, Seq<char>>(e@),
        },
{
    match site {
        Some(n) => {
            let name = crate::text::to_lower(n);
            let mut i: usize = 0;
            while i < sites.len()
                invariant
                    i <= sites.len(),
                    name@ == crate::text::to_lowercase(n@),
                    site == Some(n),
                    first_named(sites@, name@, 0) == first_named(sites@, name@, i as int),
                decreases sites.len() - i,
            {
                if crate::text::str_eq(sites[i].name.as_str(), name.as_str()) {
                    let mut v: Vec<usize> = Vec::new();
                    v.push(i);
                    assert(v@.map_values(|i: usize| i as int) =~= seq![i as int]);
                    return Ok(v);
                }
                i = i + 1;
            }
            let mut e = String::from_str("no local site named ");
            push_str(&mut e, name.as_str());
            push_str(&mut e, ". See `dpl node`.");
            Err(e)
        },
        None => {
            let mut out: Vec<usize> = Vec::new();
            let mut i: usize = 0;
            assert(out@.map_values(|i: usize| i as int) =~= Seq::<int>::empty());
            while i < sites.len()
                invariant
                    i <= sites.len(),
                    out@.map_values(|i: usize| i as int) == non_proxies(sites@, i as int),
                decreases sites.len() - i,
            {
                if !crate::text::str_eq(sites[i].source.as_str(), "proxy") {
                    let ghost before = out@.map_values(|i: usize| i as int);
                    out.push(i);
                    assert(out@.map_values(|i: usize| i as int) =~= before.push(i as int));
                }
                i = i + 1;
            }
            Ok(out)
        },
    }
}

} // verus!
