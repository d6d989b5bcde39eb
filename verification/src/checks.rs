//! The shared vocabulary of the report-style commands (`doctor`, `parity`):
//! a list of checks, each with a stable id, a severity, a detail, and where
//! one is known the command that fixes it, summarised into a report.

use vstd::prelude::*;

use crate::text::{contains_seq, has_prefix, str_contains, str_eq, str_starts_with, str_views};

verus! {

/// How bad a check's result is. `Info` is a fact worth showing, not a
/// problem.
#[derive(Debug, Clone, Copy, PartialEq, Eq)]
pub enum Status {
    Pass,
    Warn,
    Fail,
    Info,
}

/// The mark a status is shown with.
pub open spec fn status_mark(s: Status) -> Seq<char> {
    match s {
        Status::Pass => "\u{2713}"@,
        Status::Fail => "\u{2717}"@,
        Status::Warn => "\u{26a0}"@,
        Status::Info => "\u{b7}"@,
    }
}

impl Status {
    /// The mark this status is shown with.
    pub fn mark(self) -> (r: &'static str)
        ensures
            r@ == status_mark(self),
    {
        match self {
            Status::Pass => "\u{2713}",
            Status::Fail => "\u{2717}",
            Status::Warn => "\u{26a0}",
            Status::Info => "\u{b7}",
        }
    }
}

/// A command that resolves a check. `sudo` means it must run in a terminal;
/// `placeholder` means it has a `<placeholder>` to fill in and must never be
/// run as-is.
#[derive(Debug, Clone)]
pub struct Fix {
    pub label: String,
    pub command: String,
    pub sudo: bool,
    pub placeholder: bool,
}

impl Fix {
    /// A fix running `command`: it needs a terminal when it starts with
    /// `sudo `, and holds a placeholder when it contains `<`.
    pub fn new(label: &str, command: &str) -> (r: Fix)
        ensures
            r.label@ == label@,
            r.command@ == command@,
            r.sudo == has_prefix(command@, "sudo "@),
            r.placeholder == contains_seq(command@, seq!['<']),
    {
        let placeholder = str_contains(command, "<");
        proof {
            reveal_strlit("<");
            assert("<"@ =~= seq!['<']);
        }
        Fix {
            label: String::from_str(label),
            command: String::from_str(command),
            sudo: str_starts_with(command, "sudo "),
            placeholder,
        }
    }
}

/// One probe and its outcome.
#[derive(Debug, Clone)]
pub struct Check {
    /// Stable identifier (`net.port_80`).
    pub id: String,
    pub category: String,
    pub title: String,
    pub status: Status,
    pub detail: String,
    /// Why it matters, shown under the detail.
    pub hint: Option<String>,
    pub fix: Option<Fix>,
}

/// How many checks had each status.
#[derive(Debug, Clone)]
pub struct Summary {
    pub pass: usize,
    pub warn: usize,
    pub fail: usize,
    pub info: usize,
}

/// A titled, summarised list of checks.
#[derive(Debug, Clone)]
pub struct Report {
    /// What produced this report.
    pub title: String,
    /// One line of context under the title.
    pub subtitle: Option<String>,
    /// True when nothing failed (warnings are tolerable).
    pub ok: bool,
    pub summary: Summary,
    /// Category names in display order.
    pub categories: Vec<String>,
    pub checks: Vec<Check>,
}

/// How many of `cs` have status `s`.
pub open spec fn status_count(cs: Seq<Check>, s: Status) -> nat
    decreases cs.len(),
{
    if cs.len() == 0 {
        0
    } else {
        status_count(cs.drop_last(), s) + if cs.last().status == s {
            1nat
        } else {
            0nat
        }
    }
}

/// Whether some check of `cs` is in category `c`.
pub open spec fn has_category(cs: Seq<Check>, c: Seq<char>) -> bool {
    exists|i: int| 0 <= i < cs.len() && (#[trigger] cs[i]).category@ == c
}

/// The categories of `cats`, in order, that some check is in.
pub open spec fn used_categories(cats: Seq<Seq<char>>, cs: Seq<Check>) -> Seq<Seq<char>>
    decreases cats.len(),
{
    if cats.len() == 0 {
        Seq::empty()
    } else if has_category(cs, cats.last()) {
        used_categories(cats.drop_last(), cs).push(cats.last())
    } else {
        used_categories(cats.drop_last(), cs)
    }
}

/// Each check has exactly one status, so the four counts add up to the
/// number of checks.
pub proof fn lemma_counts_add_up(cs: Seq<Check>)
    ensures
        status_count(cs, Status::Pass) + status_count(cs, Status::Warn) + status_count(cs, Status::Fail)
            + status_count(cs, Status::Info) == cs.len(),
    decreases cs.len(),
{
    if cs.len() > 0 {
        lemma_counts_add_up(cs.drop_last());
    }
}

/// No check failed exactly when the failure count is zero.
pub proof fn lemma_no_fail_count(cs: Seq<Check>)
    ensures
        status_count(cs, Status::Fail) == 0 <==> forall|i: int| 0 <= i < cs.len() ==> (#[trigger] cs[i]).status != Status::Fail,
    decreases cs.len(),
{
    if cs.len() > 0 {
        lemma_no_fail_count(cs.drop_last());
        assert forall|i: int| 0 <= i < cs.len() - 1 implies (#[trigger] cs.drop_last()[i]) == cs[i] by {
        }
        if status_count(cs, Status::Fail) == 0 {
            assert forall|i: int| 0 <= i < cs.len() implies (#[trigger] cs[i]).status != Status::Fail by {
                if i < cs.len() - 1 {
                    assert(cs.drop_last()[i] == cs[i]);
                }
            }
        }
        if forall|i: int| 0 <= i < cs.len() ==> (#[trigger] cs[i]).status != Status::Fail {
            assert forall|i: int| 0 <= i < cs.drop_last().len() implies (#[trigger] cs.drop_last()[i]).status != Status::Fail by {
                assert(cs.drop_last()[i] == cs[i]);
            }
            assert(cs[cs.len() - 1].status != Status::Fail);
        }
    }
}

fn same_status(a: Status, b: Status) -> (r: bool)
    ensures
        r == (a == b),
{
    match (a, b) {
        (Status::Pass, Status::Pass) => true,
        (Status::Warn, Status::Warn) => true,
        (Status::Fail, Status::Fail) => true,
        (Status::Info, Status::Info) => true,
        _ => false,
    }
}

fn count_status(checks: &Vec<Check>, s: Status) -> (r: usize)
    ensures
        r == status_count(checks@, s),
{
    let mut n: usize = 0;
    let mut i: usize = 0;
    while i < checks.len()
        invariant
            i <= checks.len(),
            n <= i,
            n == status_count(checks@.take(i as int), s),
        decreases checks.len() - i,
    {
        assert(checks@.take(i + 1).drop_last() =~= checks@.take(i as int));
        if same_status(checks[i].status, s) {
            n = n + 1;
        }
        i = i + 1;
    }
    assert(checks@.take(checks.len() as int) =~= checks@);
    n
}

impl Report {
    /// Summarise checks into a report: the count of each status, `ok` when
    /// nothing failed, and only the categories that produced a check, in the
    /// order given.
    pub fn new(title: &str, subtitle: Option<String>, categories: &[&str], checks: Vec<Check>) -> (r: Report)
        ensures
            r.title@ == title@,
            r.subtitle == subtitle,
            r.checks == checks,
            r.summary.pass == status_count(checks@, Status::Pass),
            r.summary.warn == status_count(checks@, Status::Warn),
            r.summary.fail == status_count(checks@, Status::Fail),
            r.summary.info == status_count(checks@, Status::Info),
            r.ok == (r.summary.fail == 0),
            str_views(r.categories@) == used_categories(categories@.map_values(|c: &str| c@), checks@),
    {
        let summary = Summary {
            pass: count_status(&checks, Status::Pass),
            warn: count_status(&checks, Status::Warn),
            fail: count_status(&checks, Status::Fail),
            info: count_status(&checks, Status::Info),
        };
        let ghost cv = categories@.map_values(|c: &str| c@);
        let mut cats: Vec<String> = Vec::new();
        let mut i: usize = 0;
        while i < categories.len()
            invariant
                i <= categories.len(),
                cv == categories@.map_values(|c: &str| c@),
                str_views(cats@) == used_categories(cv.take(i as int), checks@),
            decreases categories.len() - i,
        {
            let c = categories[i];
            let mut found = false;
            let mut k: usize = 0;
            while k < checks.len()
                invariant
                    k <= checks.len(),
                    found == exists|j: int| 0 <= j < k && (#[trigger] checks@[j]).category@ == c@,
                decreases checks.len() - k,
            {
                if str_eq(checks[k].category.as_str(), c) {
                    found = true;
                }
                k = k + 1;
            }
            let ghost before = str_views(cats@);
            assert(cv.take(i + 1).drop_last() =~= cv.take(i as int));
            assert(cv.take(i + 1).last() == c@);
            if found {
                cats.push(String::from_str(c));
                assert(str_views(cats@) =~= before.push(c@));
            }
            i = i + 1;
        }
        assert(cv.take(categories.len() as int) =~= cv);
        let ok = summary.fail == 0;
        Report { title: String::from_str(title), subtitle, ok, summary, categories: cats, checks }
    }
}

/// Accumulates checks as each probe runs.
pub struct Checks(pub Vec<Check>);

impl Checks {
    /// Add a check with no hint and no fix.
    pub fn add(&mut self, id: &str, category: &str, title: &str, status: Status, detail: String)
        ensures
            final(self).0@.len() == old(self).0@.len() + 1,
            final(self).0@.drop_last() == old(self).0@,
            final(self).0@.last().id@ == id@,
            final(self).0@.last().category@ == category@,
            final(self).0@.last().title@ == title@,
            final(self).0@.last().status == status,
            final(self).0@.last().detail == detail,
            final(self).0@.last().hint is None,
            final(self).0@.last().fix is None,
    {
        self.0.push(
            Check {
                id: String::from_str(id),
                category: String::from_str(category),
                title: String::from_str(title),
                status,
                detail,
                hint: None,
                fix: None,
            },
        );
        assert(self.0@.drop_last() =~= old(self).0@);
    }

    /// Attach a hint to the check added last (nothing when there is none).
    pub fn hint(&mut self, text: &str)
        ensures
            final(self).0@.len() == old(self).0@.len(),
            old(self).0@.len() == 0 ==> final(self).0@ == old(self).0@,
            old(self).0@.len() > 0 ==> {
                let n = old(self).0@.len() - 1;
                let c = final(self).0@[n];
                &&& final(self).0@.drop_last() == old(self).0@.drop_last()
                &&& c.hint matches Some(h) && h@ == text@
                &&& c.id == old(self).0@[n].id && c.category == old(self).0@[n].category
                &&& c.title == old(self).0@[n].title && c.status == old(self).0@[n].status
                &&& c.detail == old(self).0@[n].detail && c.fix == old(self).0@[n].fix
            },
    {
        let n = self.0.len();
        if n > 0 {
            let mut last = self.0.pop().unwrap();
            last.hint = Some(String::from_str(text));
            self.0.push(last);
            assert(self.0@.drop_last() =~= old(self).0@.drop_last());
        }
    }

    /// Attach a fix command to the check added last (nothing when there is
    /// none).
    pub fn fix(&mut self, label: &str, command: &str)
        ensures
            final(self).0@.len() == old(self).0@.len(),
            old(self).0@.len() == 0 ==> final(self).0@ == old(self).0@,
            old(self).0@.len() > 0 ==> {
                let n = old(self).0@.len() - 1;
                let c = final(self).0@[n];
                &&& final(self).0@.drop_last() == old(self).0@.drop_last()
                &&& c.fix matches Some(f) && f.label@ == label@ && f.command@ == command@ && f.sudo
                    == has_prefix(command@, "sudo "@) && f.placeholder == contains_seq(command@, seq!['<'])
                &&& c.id == old(self).0@[n].id && c.category == old(self).0@[n].category
                &&& c.title == old(self).0@[n].title && c.status == old(self).0@[n].status
                &&& c.detail == old(self).0@[n].detail && c.hint == old(self).0@[n].hint
            },
    {
        let n = self.0.len();
        if n > 0 {
            let mut last = self.0.pop().unwrap();
            last.fix = Some(Fix::new(label, command));
            self.0.push(last);
            assert(self.0@.drop_last() =~= old(self).0@.drop_last());
        }
    }
}


/// A fix as plain values: label, command, and the two flags the command
/// decides.
pub type FixView = (Seq<char>, Seq<char>, bool, bool);

/// A check as plain values: id, category, title, status, detail, hint, fix.
pub type CheckView = (Seq<char>, Seq<char>, Seq<char>, Status, Seq<char>, Option<Seq<char>>, Option<FixView>);

/// The fix that runs `command`, as [`Fix::new`] builds it.
pub open spec fn fix_of(label: Seq<char>, command: Seq<char>) -> FixView {
    (label, command, has_prefix(command, "sudo "@), contains_seq(command, seq!['<']))
}

/// A fix as plain values.
pub open spec fn fix_view(f: Fix) -> FixView {
    (f.label@, f.command@, f.sudo, f.placeholder)
}

/// A check as plain values.
pub open spec fn check_view(c: Check) -> CheckView {
    (
        c.id@,
        c.category@,
        c.title@,
        c.status,
        c.detail@,
        match c.hint {
            Some(h) => Some(h@),
            None => None,
        },
        match c.fix {
            Some(f) => Some(fix_view(f)),
            None => None,
        },
    )
}

/// Checks as plain values.
pub open spec fn checks_view(cs: Seq<Check>) -> Seq<CheckView> {
    cs.map_values(|c: Check| check_view(c))
}

/// A check with neither hint nor fix.
pub open spec fn plain(id: Seq<char>, category: Seq<char>, title: Seq<char>, status: Status, detail: Seq<char>) -> CheckView {
    (id, category, title, status, detail, None, None)
}

/// `v` with a hint.
pub open spec fn hinted(v: CheckView, hint: Seq<char>) -> CheckView {
    (v.0, v.1, v.2, v.3, v.4, Some(hint), v.6)
}

/// `v` with a fix running `command`.
pub open spec fn fixed(v: CheckView, label: Seq<char>, command: Seq<char>) -> CheckView {
    (v.0, v.1, v.2, v.3, v.4, v.5, Some(fix_of(label, command)))
}

/// Append a check with an optional hint and an optional fix (label and
/// command).
pub fn push_check(
    c: &mut Checks,
    id: &str,
    category: &str,
    title: &str,
    status: Status,
    detail: String,
    hint: Option<&str>,
    fix: Option<(&str, &str)>,
)
    ensures
        checks_view(final(c).0@) == checks_view(old(c).0@).push(
            (
                id@,
                category@,
                title@,
                status,
                detail@,
                match hint {
                    Some(h) => Some(h@),
                    None => None,
                },
                match fix {
                    Some((l, cmd)) => Some(fix_of(l@, cmd@)),
                    None => None,
                },
            ),
        ),
{
    let ghost d = detail@;
    let check = Check {
        id: String::from_str(id),
        category: String::from_str(category),
        title: String::from_str(title),
        status,
        detail,
        hint: match hint {
            Some(h) => Some(String::from_str(h)),
            None => None,
        },
        fix: match fix {
            Some((l, cmd)) => Some(Fix::new(l, cmd)),
            None => None,
        },
    };
    c.0.push(check);
    assert(checks_view(c.0@) =~= checks_view(old(c).0@).push(check_view(check)));
}

// ------------------------------------------------------------------ render

/// One check's lines in a rendered report: its mark, title and detail; its
/// hint; and the command that fixes it, when there is one.
pub open spec fn check_lines(c: Check) -> Seq<Seq<char>> {
    seq!["  "@ + status_mark(c.status) + " "@ + c.title@ + ": "@ + c.detail@] + match c.hint {
        Some(h) => seq!["      "@ + h@],
        None => Seq::empty(),
    } + match c.fix {
        Some(f) => if f.command@.len() > 0 {
            seq!["      \u{2192} "@ + f.command@]
        } else {
            Seq::empty()
        },
        None => Seq::empty(),
    }
}

/// The lines of the checks in category `cat`, in order.
pub open spec fn category_checks(cs: Seq<Check>, cat: Seq<char>) -> Seq<Seq<char>>
    decreases cs.len(),
{
    if cs.len() == 0 {
        Seq::empty()
    } else {
        category_checks(cs.drop_last(), cat) + if cs.last().category@ == cat {
            check_lines(cs.last())
        } else {
            Seq::empty()
        }
    }
}

/// The section of each category that has checks: its name, its checks'
/// lines, and a blank line.
pub open spec fn category_sections(cats: Seq<Seq<char>>, cs: Seq<Check>) -> Seq<Seq<char>>
    decreases cats.len(),
{
    if cats.len() == 0 {
        Seq::empty()
    } else {
        category_sections(cats.drop_last(), cs) + if has_category(cs, cats.last()) {
            seq![cats.last()] + category_checks(cs, cats.last()) + seq![Seq::empty()]
        } else {
            Seq::empty()
        }
    }
}

/// A report as printed: its title, its subtitle, a blank line, the section
/// of each category with checks, and the summary counts.
pub open spec fn report_lines(r: Report) -> Seq<Seq<char>> {
    seq![r.title@] + match r.subtitle {
        Some(s) => seq![s@],
        None => Seq::empty(),
    } + seq![Seq::empty()] + category_sections(str_views(r.categories@), r.checks@) + seq![
        crate::text::dec(r.summary.pass as nat) + " passed, "@ + crate::text::dec(r.summary.warn as nat) + " warning(s), "@
            + crate::text::dec(r.summary.fail as nat) + " problem(s)"@
    ]
}

fn push_line(out: &mut Vec<String>, l: String)
    ensures
        str_views(final(out)@) == str_views(old(out)@).push(l@),
{
    let ghost before = str_views(out@);
    let ghost lv = l@;
    out.push(l);
    assert(str_views(out@) =~= before.push(lv));
}

fn push_check_lines(out: &mut Vec<String>, c: &Check)
    ensures
        str_views(final(out)@) == str_views(old(out)@) + check_lines(*c),
{
    let ghost start = str_views(out@);
    let mut l = String::from_str("  ");
    crate::text::push_str(&mut l, c.status.mark());
    crate::text::push_str(&mut l, " ");
    crate::text::push_str(&mut l, c.title.as_str());
    crate::text::push_str(&mut l, ": ");
    crate::text::push_str(&mut l, c.detail.as_str());
    push_line(out, l);
    let ghost one = str_views(out@);
    if let Some(h) = &c.hint {
        let mut l = String::from_str("      ");
        crate::text::push_str(&mut l, h.as_str());
        push_line(out, l);
    }
    let ghost two = str_views(out@);
    if let Some(f) = &c.fix {
        if !crate::text::str_is_empty(f.command.as_str()) {
            let mut l = String::from_str("      \u{2192} ");
            crate::text::push_str(&mut l, f.command.as_str());
            push_line(out, l);
        }
    }
    assert(str_views(out@) =~= start + check_lines(*c));
}

impl Report {
    /// The report as printed, line by line (see [`report_lines`]).
    pub fn render(&self) -> (r: Vec<String>)
        ensures
            str_views(r@) == report_lines(*self),
    {
        let mut out: Vec<String> = Vec::new();
        push_line(&mut out, String::from_str(self.title.as_str()));
        if let Some(s) = &self.subtitle {
            push_line(&mut out, String::from_str(s.as_str()));
        }
        push_line(&mut out, String::new());
        let ghost head = str_views(out@);
        let ghost cv = str_views(self.categories@);
        let ghost cs = self.checks@;
        let mut i: usize = 0;
        while i < self.categories.len()
            invariant
                i <= self.categories.len(),
                cv == str_views(self.categories@),
                cs == self.checks@,
                str_views(out@) == head + category_sections(cv.take(i as int), cs),
            decreases self.categories.len() - i,
        {
            assert(cv.take(i + 1).drop_last() =~= cv.take(i as int));
            assert(cv.take(i + 1).last() == self.categories@[i as int]@);
            let cat = self.categories[i].as_str();
            let ghost before = str_views(out@);
            let mut any = false;
            let mut k: usize = 0;
            while k < self.checks.len()
                invariant
                    k <= self.checks.len(),
                    cs == self.checks@,
                    any == exists|j: int| 0 <= j < k && (#[trigger] cs[j]).category@ == cat@,
                decreases self.checks.len() - k,
            {
                if str_eq(self.checks[k].category.as_str(), cat) {
                    any = true;
                }
                k = k + 1;
            }
            if any {
                push_line(&mut out, String::from_str(cat));
                let ghost mid = str_views(out@);
                let mut k: usize = 0;
                while k < self.checks.len()
                    invariant
                        k <= self.checks.len(),
                        cs == self.checks@,
                        str_views(out@) == mid + category_checks(cs.take(k as int), cat@),
                    decreases self.checks.len() - k,
                {
                    assert(cs.take(k + 1).drop_last() =~= cs.take(k as int));
                    assert(cs.take(k + 1).last() == cs[k as int]);
                    if str_eq(self.checks[k].category.as_str(), cat) {
                        push_check_lines(&mut out, &self.checks[k]);
                    }
                    assert(str_views(out@) =~= mid + category_checks(cs.take(k + 1), cat@));
                    k = k + 1;
                }
                assert(cs.take(self.checks.len() as int) =~= cs);
                push_line(&mut out, String::new());
                assert(str_views(out@) =~= before + (seq![cat@] + category_checks(cs, cat@) + seq![Seq::<char>::empty()]));
            }
            assert(str_views(out@) =~= head + category_sections(cv.take(i + 1), cs));
            i = i + 1;
        }
        assert(cv.take(self.categories.len() as int) =~= cv);
        let mut l = crate::text::dec_string(self.summary.pass as u64);
        crate::text::push_str(&mut l, " passed, ");
        crate::text::push_str(&mut l, crate::text::dec_string(self.summary.warn as u64).as_str());
        crate::text::push_str(&mut l, " warning(s), ");
        crate::text::push_str(&mut l, crate::text::dec_string(self.summary.fail as u64).as_str());
        crate::text::push_str(&mut l, " problem(s)");
        push_line(&mut out, l);
        assert(str_views(out@) =~= report_lines(*self));
        out
    }
}

} // verus!
