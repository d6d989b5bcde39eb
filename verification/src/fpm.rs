//! `dpl fpm status`: the php-fpm pools behind every non-Octane site, one row
//! per pool, with php-fpm's own counters and the notices worth acting on.
//! A pool is keyed by PHP version, Xdebug mode, profiler and preload, so many
//! sites share one.

use vstd::prelude::*;

use crate::dply::pad_left;
use crate::output::{pad_right, pad_to, repeated};
use crate::text::{dec, dec_string, push_str, str_views, to_chars};

verus! {

/// php-fpm's counters for one pool.
#[derive(Debug, Clone)]
pub struct FpmStats {
    pub total: u64,
    pub active: u64,
    pub listen_queue: u64,
    pub slow_requests: u64,
    pub max_children_reached: u64,
}

/// One php-fpm pool as the daemon reports it.
#[derive(Debug, Clone)]
pub struct FpmPoolInfo {
    pub php: String,
    pub mode: String,
    pub profile: bool,
    pub sites: u64,
    pub running: bool,
    /// Why a stopped or struggling pool is in its state.
    pub detail: Option<String>,
    pub stats: Option<FpmStats>,
}

/// The header and rows share one layout.
pub open spec fn fpm_row(c: Seq<Seq<char>>) -> Seq<char> {
    pad_right(c[0], 8) + " "@ + pad_right(c[1], 10) + " "@ + pad_left(c[2], 6) + " "@ + pad_left(c[3], 7) + " "@
        + pad_left(c[4], 6) + " "@ + pad_left(c[5], 6) + " "@ + pad_left(c[6], 5) + "  "@ + c[7]
}

/// The listing's header.
pub open spec fn fpm_header() -> Seq<char> {
    fpm_row(seq!["PHP"@, "XDEBUG"@, "SITES"@, "WORKERS"@, "BUSY"@, "QUEUE"@, "SLOW"@, "STATE"@])
}

/// A pool's state: its detail, else `ok` while running, else `stopped`.
pub open spec fn pool_state(p: FpmPoolInfo) -> Seq<char> {
    match p.detail {
        Some(d) => d@,
        None => if p.running {
            "ok"@
        } else {
            "stopped"@
        },
    }
}

/// A counter, or `-` without counters.
pub open spec fn counter(p: FpmPoolInfo, pick: spec_fn(FpmStats) -> u64) -> Seq<char> {
    match p.stats {
        Some(s) => dec(pick(s) as nat),
        None => "-"@,
    }
}

/// One pool's row.
pub open spec fn pool_line(p: FpmPoolInfo) -> Seq<char> {
    fpm_row(
        seq![
            p.php@,
            if p.profile {
                p.mode@ + "+spx"@
            } else {
                p.mode@
            },
            dec(p.sites as nat),
            counter(p, |s: FpmStats| s.total),
            counter(p, |s: FpmStats| s.active),
            counter(p, |s: FpmStats| s.listen_queue),
            counter(p, |s: FpmStats| s.slow_requests),
            pool_state(p),
        ],
    )
}

/// A pool has had requests queue for want of a worker.
pub open spec fn hit_ceiling(p: FpmPoolInfo) -> bool {
    match p.stats {
        Some(s) => s.max_children_reached > 0,
        None => false,
    }
}

/// A pool has recorded slow requests.
pub open spec fn had_slow(p: FpmPoolInfo) -> bool {
    match p.stats {
        Some(s) => s.slow_requests > 0,
        None => false,
    }
}

/// Some pool has had requests queue for want of a worker.
pub open spec fn any_ceiling(ps: Seq<FpmPoolInfo>) -> bool {
    exists|i: int| 0 <= i < ps.len() && #[trigger] hit_ceiling(ps[i])
}

/// Some pool has recorded slow requests.
pub open spec fn any_slow(ps: Seq<FpmPoolInfo>) -> bool {
    exists|i: int| 0 <= i < ps.len() && #[trigger] had_slow(ps[i])
}

/// The notice for a pool at its worker ceiling.
pub open spec fn ceiling_notice() -> Seq<char> {
    "A pool has hit its worker ceiling: requests queued for want of a worker. Raise `fpm_max_children` in ~/.dpl/config.toml, then `dpl fpm restart`."@
}

/// The notice for slow requests.
pub open spec fn slow_notice() -> Seq<char> {
    "Slow requests were recorded \u{2014} `dpl fpm slow` to see which endpoints."@
}

/// `dpl fpm status` as printed: two lines when no pool runs; else the header,
/// a row per pool, and each notice that applies after a blank line.
pub open spec fn fpm_status_text(ps: Seq<FpmPoolInfo>) -> Seq<Seq<char>> {
    if ps.len() == 0 {
        seq!["No php-fpm pools are running."@, "A pool starts with the first request to a site that uses one."@]
    } else {
        seq![fpm_header()] + ps.map_values(|p: FpmPoolInfo| pool_line(p)) + (if any_ceiling(ps) {
            seq![Seq::empty(), ceiling_notice()]
        } else {
            Seq::empty()
        }) + (if any_slow(ps) {
            seq![Seq::empty(), slow_notice()]
        } else {
            Seq::empty()
        })
    }
}

fn pad_front(s: &str, w: usize) -> (r: String)
    ensures
        r@ == pad_left(s@, w as nat),
{
    let n = to_chars(s).len();
    let mut out = String::new();
    let mut k: usize = n;
    while k < w
        invariant
            n == s@.len(),
            n <= k <= w || (k == n && n >= w),
            out@ == repeated(' ', (k - n) as nat),
        decreases w - k,
    {
        out.push(' ');
        k = k + 1;
        assert(out@ =~= repeated(' ', (k - n) as nat));
    }
    push_str(&mut out, s);
    assert(out@ =~= pad_left(s@, w as nat));
    out
}

fn row_of(c: &[String; 8]) -> (r: String)
    ensures
        r@ == fpm_row(seq![c[0]@, c[1]@, c[2]@, c[3]@, c[4]@, c[5]@, c[6]@, c[7]@]),
{
    let mut l = pad_to(c[0].as_str(), 8);
    push_str(&mut l, " ");
    push_str(&mut l, pad_to(c[1].as_str(), 10).as_str());
    push_str(&mut l, " ");
    push_str(&mut l, pad_front(c[2].as_str(), 6).as_str());
    push_str(&mut l, " ");
    push_str(&mut l, pad_front(c[3].as_str(), 7).as_str());
    push_str(&mut l, " ");
    push_str(&mut l, pad_front(c[4].as_str(), 6).as_str());
    push_str(&mut l, " ");
    push_str(&mut l, pad_front(c[5].as_str(), 6).as_str());
    push_str(&mut l, " ");
    push_str(&mut l, pad_front(c[6].as_str(), 5).as_str());
    push_str(&mut l, "  ");
    push_str(&mut l, c[7].as_str());
    l
}

fn count_cell(p: &FpmPoolInfo, which: u8) -> (r: String)
    requires
        which < 4,
    ensures
        r@ == match p.stats {
            Some(s) => dec(
                (if which == 0 {
                    s.total
                } else if which == 1 {
                    s.active
                } else if which == 2 {
                    s.listen_queue
                } else {
                    s.slow_requests
                }) as nat,
            ),
            None => "-"@,
        },
{
    match &p.stats {
        Some(s) => dec_string(
            if which == 0 {
                s.total
            } else if which == 1 {
                s.active
            } else if which == 2 {
                s.listen_queue
            } else {
                s.slow_requests
            },
        ),
        None => String::from_str("-"),
    }
}

/// One pool's row (see [`pool_line`]).
pub fn pool_row(p: &FpmPoolInfo) -> (r: String)
    ensures
        r@ == pool_line(*p),
{
    let mut mode = String::from_str(p.mode.as_str());
    if p.profile {
        push_str(&mut mode, "+spx");
    }
    let state = match &p.detail {
        Some(d) => String::from_str(d.as_str()),
        None => if p.running {
            String::from_str("ok")
        } else {
            String::from_str("stopped")
        },
    };
    let cells: [String; 8] = [
        String::from_str(p.php.as_str()),
        mode,
        dec_string(p.sites),
        count_cell(p, 0),
        count_cell(p, 1),
        count_cell(p, 2),
        count_cell(p, 3),
        state,
    ];
    let r = row_of(&cells);
    assert(seq![cells[0]@, cells[1]@, cells[2]@, cells[3]@, cells[4]@, cells[5]@, cells[6]@, cells[7]@] =~= seq![
        p.php@,
        if p.profile {
            p.mode@ + "+spx"@
        } else {
            p.mode@
        },
        dec(p.sites as nat),
        counter(*p, |s: FpmStats| s.total),
        counter(*p, |s: FpmStats| s.active),
        counter(*p, |s: FpmStats| s.listen_queue),
        counter(*p, |s: FpmStats| s.slow_requests),
        pool_state(*p),
    ]);
    r
}

/// `dpl fpm status` as printed (see [`fpm_status_text`]).
pub fn fpm_status_lines(pools: &[FpmPoolInfo]) -> (r: Vec<String>)
    ensures
        str_views(r@) == fpm_status_text(pools@),
{
    let mut out: Vec<String> = Vec::new();
    if pools.len() == 0 {
        out.push(String::from_str("No php-fpm pools are running."));
        out.push(String::from_str("A pool starts with the first request to a site that uses one."));
        assert(str_views(out@) =~= fpm_status_text(pools@));
        return out;
    }
    let h: [String; 8] = [
        String::from_str("PHP"),
        String::from_str("XDEBUG"),
        String::from_str("SITES"),
        String::from_str("WORKERS"),
        String::from_str("BUSY"),
        String::from_str("QUEUE"),
        String::from_str("SLOW"),
        String::from_str("STATE"),
    ];
    let head = row_of(&h);
    assert(seq![h[0]@, h[1]@, h[2]@, h[3]@, h[4]@, h[5]@, h[6]@, h[7]@] =~= seq![
        "PHP"@,
        "XDEBUG"@,
        "SITES"@,
        "WORKERS"@,
        "BUSY"@,
        "QUEUE"@,
        "SLOW"@,
        "STATE"@,
    ]);
    out.push(head);
    let ghost ps = pools@;
    let mut ceiling = false;
    let mut slow = false;
    let mut i: usize = 0;
    while i < pools.len()
        invariant
            i <= pools@.len(),
            ps == pools@,
            str_views(out@) == seq![fpm_header()] + ps.take(i as int).map_values(|p: FpmPoolInfo| pool_line(p)),
            ceiling == any_ceiling(ps.take(i as int)),
            slow == any_slow(ps.take(i as int)),
        decreases pools@.len() - i,
    {
        let ghost o0 = str_views(out@);
        let l = pool_row(&pools[i]);
        let ghost lv = l@;
        out.push(l);
        assert(str_views(out@) =~= o0.push(lv));
        assert(ps.take(i + 1).map_values(|p: FpmPoolInfo| pool_line(p)) =~= ps.take(i as int).map_values(
            |p: FpmPoolInfo| pool_line(p),
        ).push(pool_line(ps[i as int])));
        let ghost c0 = ceiling;
        let ghost s0 = slow;
        if let Some(s) = &pools[i].stats {
            if s.max_children_reached > 0 {
                ceiling = true;
            }
            if s.slow_requests > 0 {
                slow = true;
            }
        }
        assert(ps.take(i + 1)[i as int] == ps[i as int]);
        let ghost t0 = ps.take(i as int);
        let ghost t1 = ps.take(i + 1);
        assert(forall|j: int| 0 <= j < i ==> t1[j] == t0[j]);
        assert(t1[i as int] == ps[i as int]);
        assert(ceiling == (c0 || hit_ceiling(ps[i as int])));
        assert(slow == (s0 || had_slow(ps[i as int])));
        assert(ceiling == any_ceiling(t1)) by {
            if any_ceiling(t0) {
                let j = choose|j: int| 0 <= j < i && #[trigger] hit_ceiling(t0[j]);
                assert(hit_ceiling(t1[j]));
            }
            if any_ceiling(t1) {
                let j = choose|j: int| 0 <= j < i + 1 && #[trigger] hit_ceiling(t1[j]);
                if j < i {
                    assert(hit_ceiling(t0[j]));
                }
            }
        }
        assert(slow == any_slow(t1)) by {
            if any_slow(t0) {
                let j = choose|j: int| 0 <= j < i && #[trigger] had_slow(t0[j]);
                assert(had_slow(t1[j]));
            }
            if any_slow(t1) {
                let j = choose|j: int| 0 <= j < i + 1 && #[trigger] had_slow(t1[j]);
                if j < i {
                    assert(had_slow(t0[j]));
                }
            }
        }
        i = i + 1;
    }
    assert(ps.take(pools@.len() as int) =~= ps);
    let ghost body = str_views(out@);
    if ceiling {
        out.push(String::new());
        out.push(String::from_str(
            "A pool has hit its worker ceiling: requests queued for want of a worker. Raise `fpm_max_children` in ~/.dpl/config.toml, then `dpl fpm restart`.",
        ));
    }
    let ghost mid = str_views(out@);
    assert(mid =~= body + if ceiling {
        seq![Seq::<char>::empty(), ceiling_notice()]
    } else {
        Seq::<Seq<char>>::empty()
    });
    if slow {
        out.push(String::new());
        out.push(String::from_str("Slow requests were recorded \u{2014} `dpl fpm slow` to see which endpoints."));
    }
    assert(str_views(out@) =~= mid + if slow {
        seq![Seq::<char>::empty(), slow_notice()]
    } else {
        Seq::<Seq<char>>::empty()
    });
    out
}

} // verus!
