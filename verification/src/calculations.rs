use vstd::prelude::*;
use crate::text::{decimal, i64_to_string, push_decimal_u64, push_str, signed_decimal};

verus! {

// ─────────────────────────────── win/loss streaks ───────────────────────────────

/// Streak statistics after the outcomes `wins` (true = winning trade), in
/// order: the current streak (positive for wins, negative for losses, 0 when
/// there is no outcome), and the longest win and loss streaks seen.
pub open spec fn streak_stats(wins: Seq<bool>) -> (int, nat, nat)
    decreases wins.len(),
{
    if wins.len() == 0 {
        (0, 0, 0)
    } else {
        let (cur, max_win, max_loss) = streak_stats(wins.drop_last());
        let w = wins.last();
        let run: nat = if cur != 0 && (cur > 0) == w {
            (if cur > 0 { cur } else { -cur }) as nat + 1
        } else {
            1
        };
        (
            if w { run as int } else { -(run as int) },
            if w && run > max_win { run } else { max_win },
            if !w && run > max_loss { run } else { max_loss },
        )
    }
}

/// Streak analysis over the outcomes of completed trades in order:
/// `(current_streak, max_win_streak, max_loss_streak)`, the current streak
/// positive for a run of wins and negative for a run of losses.
pub fn get_streak_analysis(wins: &[bool]) -> (r: (i64, usize, usize))
    requires
        wins@.len() < i64::MAX,
    ensures
        r.0 as int == streak_stats(wins@).0,
        r.1 as nat == streak_stats(wins@).1,
        r.2 as nat == streak_stats(wins@).2,
{
    let mut max_win: usize = 0;
    let mut max_loss: usize = 0;
    let mut cur_type: Option<bool> = None;
    let mut cur_len: usize = 0;
    let mut i: usize = 0;
    while i < wins.len()
        invariant
            i <= wins@.len(),
            wins@.len() < i64::MAX,
            cur_len <= i,
            cur_type is None <==> i == 0,
            cur_type is None ==> cur_len == 0,
            cur_type is Some ==> cur_len >= 1,
            streak_stats(wins@.take(i as int)).0 == (match cur_type {
                Some(true) => cur_len as int,
                Some(false) => -(cur_len as int),
                None => 0,
            }),
            streak_stats(wins@.take(i as int)).1 == (if cur_type == Some(true) && cur_len > max_win { cur_len as nat } else { max_win as nat }),
            streak_stats(wins@.take(i as int)).2 == (if cur_type == Some(false) && cur_len > max_loss { cur_len as nat } else { max_loss as nat }),
        decreases wins@.len() - i,
    {
        let w = wins[i];
        proof {
            let t = wins@.take(i + 1);
            assert(t.drop_last() =~= wins@.take(i as int));
            assert(t.last() == w);
        }
        if cur_type == Some(w) {
            cur_len = cur_len + 1;
        } else {
            match cur_type {
                Some(true) => {
                    if cur_len > max_win {
                        max_win = cur_len;
                    }
                },
                Some(false) => {
                    if cur_len > max_loss {
                        max_loss = cur_len;
                    }
                },
                None => {},
            }
            cur_type = Some(w);
            cur_len = 1;
        }
        i = i + 1;
    }
    proof {
        assert(wins@.take(i as int) =~= wins@);
    }
    match cur_type {
        Some(true) => {
            if cur_len > max_win {
                max_win = cur_len;
            }
            (cur_len as i64, max_win, max_loss)
        },
        Some(false) => {
            if cur_len > max_loss {
                max_loss = cur_len;
            }
            (-(cur_len as i64), max_win, max_loss)
        },
        None => (0, max_win, max_loss),
    }
}

/// The current streak follows the last outcome and is never longer than the
/// longest streak of its kind, which is never longer than the history.
pub proof fn lemma_streak_bounds(wins: Seq<bool>)
    ensures
        wins.len() == 0 ==> streak_stats(wins) == (0int, 0nat, 0nat),
        wins.len() > 0 ==> (streak_stats(wins).0 > 0 <==> wins.last()),
        wins.len() > 0 ==> streak_stats(wins).0 != 0,
        streak_stats(wins).0 > 0 ==> streak_stats(wins).0 <= streak_stats(wins).1,
        streak_stats(wins).0 < 0 ==> -streak_stats(wins).0 <= streak_stats(wins).2,
        streak_stats(wins).1 <= wins.len(),
        streak_stats(wins).2 <= wins.len(),
        -(wins.len() as int) <= streak_stats(wins).0 <= wins.len(),
    decreases wins.len(),
{
    if wins.len() > 0 {
        lemma_streak_bounds(wins.drop_last());
    }
}

/// Whether the outcomes `wins[i..j]` are all `v`.
pub open spec fn same_run(wins: Seq<bool>, i: int, j: int, v: bool) -> bool {
    &&& 0 <= i <= j <= wins.len()
    &&& forall|k: int| i <= k < j ==> wins[k] == v
}

/// The longest streak of outcome `v` that `streak_stats` reports.
pub open spec fn longest_streak(wins: Seq<bool>, v: bool) -> nat {
    if v { streak_stats(wins).1 } else { streak_stats(wins).2 }
}

/// The length of the current streak that `streak_stats` reports.
pub open spec fn current_len(wins: Seq<bool>) -> int {
    let c = streak_stats(wins).0;
    if c >= 0 { c } else { -c }
}

proof fn lemma_current_streak_run(wins: Seq<bool>)
    requires
        wins.len() > 0,
    ensures
        current_len(wins) >= 1,
        same_run(wins, wins.len() - current_len(wins), wins.len() as int, wins.last()),
        wins.len() - current_len(wins) == 0 || wins[wins.len() - current_len(wins) - 1] != wins.last(),
    decreases wins.len(),
{
    let p = wins.drop_last();
    let n = wins.len() as int;
    let x = wins.last();
    lemma_streak_bounds(wins);
    lemma_streak_bounds(p);
    if p.len() > 0 {
        lemma_current_streak_run(p);
        let c = streak_stats(p).0;
        if (c > 0) == x {
            let r = current_len(p);
            assert(current_len(wins) == r + 1);
            assert forall|k: int| n - (r + 1) <= k < n implies wins[k] == x by {
                if k < n - 1 {
                    assert(wins[k] == p[k]);
                }
            }
            if n - (r + 1) > 0 {
                assert(wins[n - (r + 1) - 1] == p[p.len() - r - 1]);
            }
        } else {
            assert(current_len(wins) == 1);
            assert(wins[n - 2] == p.last());
        }
    }
}

proof fn lemma_longest_streak_step(wins: Seq<bool>, v: bool)
    requires
        wins.len() > 0,
        exists|i: int| #[trigger] same_run(wins.drop_last(), i, i + longest_streak(wins.drop_last(), v), v),
        forall|i: int, j: int| #[trigger] same_run(wins.drop_last(), i, j, v) ==> j - i <= longest_streak(wins.drop_last(), v),
    ensures
        exists|i: int| #[trigger] same_run(wins, i, i + longest_streak(wins, v), v),
        forall|i: int, j: int| #[trigger] same_run(wins, i, j, v) ==> j - i <= longest_streak(wins, v),
{
    let p = wins.drop_last();
    let n = wins.len() as int;
    let x = wins.last();
    lemma_current_streak_run(wins);
    let r = current_len(wins);
    let mp = longest_streak(p, v);
    let m = longest_streak(wins, v);
    lemma_streak_bounds(p);
    lemma_streak_bounds(wins);
    // The longest streak of `v` grows to the current run when it ends in `v`.
    assert(m == (if x == v && r > mp { r } else { mp as int })) by {
        if p.len() > 0 {
            let c = streak_stats(p).0;
            assert(r == (if c != 0 && (c > 0) == x { (if c > 0 { c } else { -c }) + 1 } else { 1 }));
        }
    }
    let i0 = choose|i: int| #[trigger] same_run(p, i, i + mp, v);
    assert(same_run(wins, i0, i0 + mp, v)) by {
        assert forall|k: int| i0 <= k < i0 + mp implies wins[k] == v by {
            assert(wins[k] == p[k]);
        }
    }
    if x == v && r > mp {
        assert(same_run(wins, n - r, n - r + m, v));
    } else {
        assert(same_run(wins, i0, i0 + m, v));
    }
    assert forall|i: int, j: int| #[trigger] same_run(wins, i, j, v) implies j - i <= m by {
        if j < n {
            assert(same_run(p, i, j, v)) by {
                assert forall|k: int| i <= k < j implies p[k] == v by {
                    assert(wins[k] == p[k]);
                }
            }
        } else if i < j {
            assert(wins[n - 1] == v);
            assert(x == v);
            if i < n - r {
                assert(wins[n - r - 1] == v);
            }
        }
    }
}

/// The streak statistics read as runs of outcomes: the longest streak of
/// outcome `v` (wins for `true`, losses for `false`) is the length of a run
/// of consecutive `v` outcomes and no such run is longer, and the current
/// streak is the run of the last outcome, preceded by the other outcome or
/// by nothing.
pub proof fn lemma_streaks_are_longest_runs(wins: Seq<bool>, v: bool)
    ensures
        exists|i: int| #[trigger] same_run(wins, i, i + longest_streak(wins, v), v),
        forall|i: int, j: int| #[trigger] same_run(wins, i, j, v) ==> j - i <= longest_streak(wins, v),
        wins.len() > 0 ==> {
            &&& same_run(wins, wins.len() - current_len(wins), wins.len() as int, wins.last())
            &&& (wins.len() - current_len(wins) == 0 || wins[wins.len() - current_len(wins) - 1] != wins.last())
            &&& (streak_stats(wins).0 > 0 <==> wins.last())
        },
    decreases wins.len(),
{
    lemma_streak_bounds(wins);
    if wins.len() == 0 {
        assert(longest_streak(wins, v) == 0);
        assert(same_run(wins, 0int, 0int + longest_streak(wins, v), v));
    } else {
        lemma_streaks_are_longest_runs(wins.drop_last(), v);
        lemma_current_streak_run(wins);
        lemma_longest_streak_step(wins, v);
    }
}

// ─────────────────────────────── durations ───────────────────────────────

/// Milliseconds in a minute.
pub const MILLIS_PER_MINUTE: i64 = 60_000;

/// Held duration between two instants (milliseconds since the epoch) as
/// whole `(days, hours, minutes)`; a negative span counts as zero.
pub open spec fn held_parts(entry_ms: int, exit_ms: int) -> (int, int, int) {
    let diff = if exit_ms - entry_ms > 0 { exit_ms - entry_ms } else { 0 };
    let total_minutes = diff / 60_000;
    (total_minutes / 1440, (total_minutes % 1440) / 60, total_minutes % 60)
}

/// Held duration in whole `(days, hours, minutes)` between entry and exit
/// (milliseconds since the epoch); an exit before the entry gives zeros.
pub fn calculate_held_duration(entry_ms: i64, exit_ms: i64) -> (r: (i64, i64, i64))
    requires
        i64::MIN <= exit_ms - entry_ms <= i64::MAX,
    ensures
        r.0 as int == held_parts(entry_ms as int, exit_ms as int).0,
        r.1 as int == held_parts(entry_ms as int, exit_ms as int).1,
        r.2 as int == held_parts(entry_ms as int, exit_ms as int).2,
{
    let d = exit_ms - entry_ms;
    let diff: i64 = if d > 0 { d } else { 0 };
    let total_minutes = diff / MILLIS_PER_MINUTE;
    let days = total_minutes / (60 * 24);
    let hours = (total_minutes % (60 * 24)) / 60;
    let minutes = total_minutes % 60;
    (days, hours, minutes)
}

/// The parts add back up to the whole minutes held, with hours below a day
/// and minutes below an hour.
pub proof fn lemma_held_parts_recompose(entry_ms: int, exit_ms: int)
    ensures
        ({
            let (d, h, m) = held_parts(entry_ms, exit_ms);
            let diff = if exit_ms - entry_ms > 0 { exit_ms - entry_ms } else { 0 };
            &&& d * 1440 + h * 60 + m == diff / 60_000
            &&& 0 <= h < 24
            &&& 0 <= m < 60
            &&& d >= 0
        }),
{
    let diff = if exit_ms - entry_ms > 0 { exit_ms - entry_ms } else { 0 };
    let t = diff / 60_000;
    assert(t >= 0);
    assert(t == (t / 1440) * 1440 + t % 1440);
    let r = t % 1440;
    assert(r == (r / 60) * 60 + r % 60);
    assert(t % 60 == r % 60) by (nonlinear_arith)
        requires t == (t / 1440) * 1440 + r, 0 <= r < 1440, t >= 0, r == (r / 60) * 60 + r % 60;
}

/// How a held duration is shown: whole days when at least a day, else hours
/// and minutes when at least an hour, else minutes.
pub open spec fn held_duration_text(days: int, hours: int, minutes: int) -> Seq<char> {
    if days > 0 {
        decimal(days as nat) + "d"@
    } else if hours > 0 {
        decimal(hours as nat) + "h "@ + decimal(minutes as nat) + "m"@
    } else {
        decimal(minutes as nat) + "m"@
    }
}

/// Formats the held duration between entry and exit (milliseconds since the epoch).
pub fn format_held_duration(entry_ms: i64, exit_ms: i64) -> (s: String)
    requires
        i64::MIN <= exit_ms - entry_ms <= i64::MAX,
    ensures
        ({
            let (d, h, m) = held_parts(entry_ms as int, exit_ms as int);
            s@ == held_duration_text(d, h, m)
        }),
{
    let (days, hours, minutes) = calculate_held_duration(entry_ms, exit_ms);
    proof {
        lemma_held_parts_recompose(entry_ms as int, exit_ms as int);
    }
    let mut s = String::new();
    if days > 0 {
        push_decimal_u64(&mut s, days as u64);
        push_str(&mut s, "d");
    } else if hours > 0 {
        push_decimal_u64(&mut s, hours as u64);
        push_str(&mut s, "h ");
        push_decimal_u64(&mut s, minutes as u64);
        push_str(&mut s, "m");
    } else {
        push_decimal_u64(&mut s, minutes as u64);
        push_str(&mut s, "m");
    }
    proof {
        assert(Seq::<char>::empty() + decimal(days as nat) =~= decimal(days as nat));
        assert(Seq::<char>::empty() + decimal(hours as nat) =~= decimal(hours as nat));
        assert(Seq::<char>::empty() + decimal(minutes as nat) =~= decimal(minutes as nat));
    }
    s
}

// ─────────────────────────────── ranking ───────────────────────────────

/// Lexicographic order on (key, tie-breaker) pairs.
pub open spec fn pair_before(a: (i64, u64), b: (i64, u64)) -> bool {
    a.0 < b.0 || (a.0 == b.0 && a.1 < b.1)
}

/// Whether `s` is strictly ascending (so holds each pair once).
pub open spec fn pairs_ascending(s: Seq<(i64, u64)>) -> bool {
    forall|i: int, j: int| #![trigger s[i], s[j]] 0 <= i < j < s.len() ==> pair_before(s[i], s[j])
}

/// The pairs of `v`, each once, in ascending order.
pub fn sorted_pairs(v: &[(i64, u64)]) -> (r: Vec<(i64, u64)>)
    ensures
        pairs_ascending(r@),
        forall|k: (i64, u64)| r@.contains(k) <==> v@.contains(k),
{
    let mut r: Vec<(i64, u64)> = Vec::new();
    let mut i: usize = 0;
    while i < v.len()
        invariant
            i <= v@.len(),
            pairs_ascending(r@),
            forall|k: (i64, u64)| r@.contains(k) <==> v@.take(i as int).contains(k),
        decreases v@.len() - i,
    {
        let k = v[i];
        let mut pos: usize = 0;
        while pos < r.len() && (r[pos].0 < k.0 || (r[pos].0 == k.0 && r[pos].1 < k.1))
            invariant
                pos <= r@.len(),
                forall|t: int| 0 <= t < pos ==> pair_before(#[trigger] r@[t], k),
            decreases r@.len() - pos,
        {
            pos = pos + 1;
        }
        let ghost before = r@;
        let ghost pre = v@.take(i as int);
        proof {
            assert(v@.take(i + 1) =~= pre.push(k));
        }
        let found = pos < r.len() && r[pos].0 == k.0 && r[pos].1 == k.1;
        if !found {
            r.insert(pos, k);
            proof {
                assert(r@ =~= before.take(pos as int).push(k) + before.skip(pos as int));
                assert forall|a: int, b: int| #![trigger r@[a], r@[b]] 0 <= a < b < r@.len() implies pair_before(r@[a], r@[b]) by {
                    if b < pos {
                        assert(r@[a] == before[a] && r@[b] == before[b]);
                    } else if b == pos {
                        assert(r@[a] == before[a]);
                    } else if a < pos {
                        assert(r@[a] == before[a] && r@[b] == before[b - 1]);
                        assert(pair_before(before[a], before[pos as int]));
                    } else if a == pos {
                        assert(r@[b] == before[b - 1]);
                        assert(!pair_before(before[pos as int], k) && before[pos as int] != k);
                        if b - 1 > pos {
                            assert(pair_before(before[pos as int], before[b - 1]));
                        }
                    } else {
                        assert(r@[a] == before[a - 1] && r@[b] == before[b - 1]);
                    }
                }
            }
        }
        proof {
            assert forall|q: (i64, u64)| r@.contains(q) <==> v@.take(i + 1).contains(q) by {
                if pre.push(k).contains(q) {
                    let t = choose|t: int| 0 <= t < pre.len() + 1 && pre.push(k)[t] == q;
                    if t < pre.len() {
                        assert(pre[t] == q);
                    }
                }
                if pre.contains(q) {
                    let t = choose|t: int| 0 <= t < pre.len() && pre[t] == q;
                    assert(pre.push(k)[t] == q);
                }
                if q == k {
                    assert(pre.push(k)[pre.len() as int] == k);
                }
                if found {
                    if q == k {
                        assert(r@[pos as int] == k);
                    }
                } else {
                    if r@.contains(q) {
                        let t = choose|t: int| 0 <= t < r@.len() && r@[t] == q;
                        if t < pos {
                            assert(before[t] == q);
                        } else if t > pos {
                            assert(before[t - 1] == q);
                        }
                    }
                    if before.contains(q) {
                        let t = choose|t: int| 0 <= t < before.len() && before[t] == q;
                        if t < pos {
                            assert(r@[t] == q);
                        } else {
                            assert(r@[t + 1] == q);
                        }
                    }
                    if q == k {
                        assert(r@[pos as int] == k);
                    }
                }
            }
        }
        i = i + 1;
    }
    proof {
        assert(v@.take(i as int) =~= v@);
    }
    r
}

// ───────────────────────────── critical positions ─────────────────────────────

/// Open positions at or below this many days to expiration need attention.
pub const CRITICAL_DTE: i64 = 21;

/// Whether position `a` is listed before position `b`: fewer days left
/// first, ties in list order.
pub open spec fn dte_first(dtes: Seq<i64>, a: usize, b: usize) -> bool {
    dtes[a as int] < dtes[b as int] || (dtes[a as int] == dtes[b as int] && a < b)
}

/// The open positions (by their place in `dtes`, the days each has left)
/// with at most `CRITICAL_DTE` days left, fewest days first; positions with
/// the same days keep their order.
pub fn critical_positions(dtes: &[i64]) -> (r: Vec<usize>)
    ensures
        forall|p: usize| r@.contains(p) <==> (p < dtes@.len() && dtes@[p as int] <= CRITICAL_DTE),
        forall|i: int, j: int| #![trigger r@[i], r@[j]] 0 <= i < j < r@.len() ==> dte_first(dtes@, r@[i], r@[j]),
{
    let mut pairs: Vec<(i64, u64)> = Vec::new();
    let mut p: usize = 0;
    while p < dtes.len()
        invariant
            p <= dtes@.len(),
            forall|k: (i64, u64)| pairs@.contains(k) <==> (k.1 < p && k.0 == dtes@[k.1 as int] && k.0 <= CRITICAL_DTE),
        decreases dtes@.len() - p,
    {
        let ghost before = pairs@;
        if dtes[p] <= CRITICAL_DTE {
            pairs.push((dtes[p], p as u64));
        }
        proof {
            assert forall|k: (i64, u64)| pairs@.contains(k) <==> (k.1 < p + 1 && k.0 == dtes@[k.1 as int] && k.0 <= CRITICAL_DTE) by {
                if pairs@.contains(k) && !before.contains(k) {
                    let t = choose|t: int| 0 <= t < pairs@.len() && pairs@[t] == k;
                    assert(t == before.len());
                }
                if before.contains(k) {
                    let t = choose|t: int| 0 <= t < before.len() && before[t] == k;
                    assert(pairs@[t] == k);
                }
                if k.1 == p && k.0 == dtes@[p as int] && k.0 <= CRITICAL_DTE {
                    assert(pairs@[before.len() as int] == k);
                }
            }
        }
        p = p + 1;
    }
    let sorted = sorted_pairs(pairs.as_slice());
    let n: usize = dtes.len();
    let mut r: Vec<usize> = Vec::new();
    let mut i: usize = 0;
    while i < sorted.len()
        invariant
            n == dtes@.len(),
            i <= sorted@.len(),
            pairs_ascending(sorted@),
            forall|k: (i64, u64)| sorted@.contains(k) <==> (k.1 < dtes@.len() && k.0 == dtes@[k.1 as int] && k.0 <= CRITICAL_DTE),
            r@.len() == i,
            forall|t: int| 0 <= t < i ==> r@[t] as u64 == sorted@[t].1,
        decreases sorted@.len() - i,
    {
        let e = sorted[i];
        proof {
            assert(sorted@.contains(e));
            assert(e.1 < n);
        }
        r.push(e.1 as usize);
        i = i + 1;
    }
    proof {
        assert forall|t: int| 0 <= t < r@.len() implies (#[trigger] sorted@[t]).0 == dtes@[r@[t] as int] && (sorted@[t].1 as usize) == r@[t] by {
            assert(sorted@.contains(sorted@[t]));
        }
        assert forall|q: usize| r@.contains(q) <==> (q < dtes@.len() && dtes@[q as int] <= CRITICAL_DTE) by {
            if r@.contains(q) {
                let t = choose|t: int| 0 <= t < r@.len() && r@[t] == q;
                assert(sorted@.contains(sorted@[t]));
            }
            if q < dtes@.len() && dtes@[q as int] <= CRITICAL_DTE {
                let k = (dtes@[q as int], q as u64);
                assert(sorted@.contains(k));
                let t = choose|t: int| 0 <= t < sorted@.len() && sorted@[t] == k;
                assert(r@[t] == q);
            }
        }
        assert forall|a: int, b: int| #![trigger r@[a], r@[b]] 0 <= a < b < r@.len() implies dte_first(dtes@, r@[a], r@[b]) by {
            assert(sorted@.contains(sorted@[a]));
            assert(sorted@.contains(sorted@[b]));
            assert(pair_before(sorted@[a], sorted@[b]));
        }
    }
    r
}

// ───────────────────────────── strategy mix ─────────────────────────────

/// How many times `b` occurs in `s`.
pub open spec fn occurrences(s: Seq<Seq<char>>, b: Seq<char>) -> nat
    decreases s.len(),
{
    if s.len() == 0 {
        0
    } else {
        occurrences(s.drop_last(), b) + if s.last() == b { 1nat } else { 0nat }
    }
}

/// The distinct values of `s`, in the order they first appear.
pub open spec fn first_appearances(s: Seq<Seq<char>>) -> Seq<Seq<char>>
    decreases s.len(),
{
    if s.len() == 0 {
        Seq::empty()
    } else {
        let p = first_appearances(s.drop_last());
        if p.contains(s.last()) { p } else { p.push(s.last()) }
    }
}

/// Index of the first `b` in `s` (its length when `b` is absent).
pub open spec fn position_in(s: Seq<Seq<char>>, b: Seq<char>) -> int
    decreases s.len(),
{
    if s.len() == 0 {
        0
    } else if s[0] == b {
        0
    } else {
        1 + position_in(s.drop_first(), b)
    }
}

proof fn lemma_first_appearances(s: Seq<Seq<char>>)
    ensures
        forall|b: Seq<char>| first_appearances(s).contains(b) <==> s.contains(b),
        forall|a: int, b: int| #![trigger first_appearances(s)[a], first_appearances(s)[b]]
            0 <= a < b < first_appearances(s).len() ==> first_appearances(s)[a] != first_appearances(s)[b],
    decreases s.len(),
{
    if s.len() > 0 {
        let q = s.drop_last();
        lemma_first_appearances(q);
        let p = first_appearances(q);
        assert forall|b: Seq<char>| first_appearances(s).contains(b) <==> s.contains(b) by {
            assert(s =~= q.push(s.last()));
            if s.contains(b) {
                let t = choose|t: int| 0 <= t < s.len() && s[t] == b;
                if t < q.len() {
                    assert(q[t] == b);
                }
            }
            if q.contains(b) {
                let t = choose|t: int| 0 <= t < q.len() && q[t] == b;
                assert(s[t] == b);
            }
            if !p.contains(s.last()) {
                if p.push(s.last()).contains(b) {
                    let t = choose|t: int| 0 <= t < p.len() + 1 && p.push(s.last())[t] == b;
                    if t < p.len() {
                        assert(p[t] == b);
                    }
                }
                if p.contains(b) {
                    let t = choose|t: int| 0 <= t < p.len() && p[t] == b;
                    assert(p.push(s.last())[t] == b);
                }
                assert(p.push(s.last())[p.len() as int] == s.last());
            }
            assert(s[s.len() - 1] == s.last());
        }
        if !p.contains(s.last()) {
            let d = p.push(s.last());
            assert forall|a: int, b: int| #![trigger d[a], d[b]] 0 <= a < b < d.len() implies d[a] != d[b] by {
                if b == p.len() {
                    assert(d[a] == p[a]);
                } else {
                    assert(d[a] == p[a] && d[b] == p[b]);
                }
            }
        }
    }
}

proof fn lemma_occurrences_absent(s: Seq<Seq<char>>, b: Seq<char>)
    requires
        !s.contains(b),
    ensures
        occurrences(s, b) == 0,
    decreases s.len(),
{
    if s.len() > 0 {
        let q = s.drop_last();
        assert(!q.contains(b)) by {
            if q.contains(b) {
                let t = choose|t: int| 0 <= t < q.len() && q[t] == b;
                assert(s[t] == b);
            }
        }
        assert(s[s.len() - 1] == s.last());
        lemma_occurrences_absent(q, b);
    }
}

proof fn lemma_position_of_distinct(d: Seq<Seq<char>>, k: int)
    requires
        0 <= k < d.len(),
        forall|a: int, b: int| #![trigger d[a], d[b]] 0 <= a < b < d.len() ==> d[a] != d[b],
    ensures
        position_in(d, d[k]) == k,
    decreases k,
{
    if k > 0 {
        let t = d.drop_first();
        assert(d[0] != d[k]);
        assert(t[k - 1] == d[k]);
        assert forall|a: int, b: int| #![trigger t[a], t[b]] 0 <= a < b < t.len() implies t[a] != t[b] by {
            assert(t[a] == d[a + 1] && t[b] == d[b + 1]);
        }
        lemma_position_of_distinct(t, k - 1);
    }
}

/// How many open trades use one strategy badge.
#[derive(Clone, Debug)]
pub struct StrategyCount {
    pub badge: String,
    pub count: usize,
}

/// Whether badge `a` (with `ca` trades) is listed before badge `b` (with
/// `cb` trades): more trades first, ties in order of first appearance.
pub open spec fn count_first(badges: Seq<Seq<char>>, a: Seq<char>, ca: nat, b: Seq<char>, cb: nat) -> bool {
    ca > cb || (ca == cb && position_in(first_appearances(badges), a) < position_in(first_appearances(badges), b))
}

fn find_string(list: &[String], s: &str) -> (r: Option<usize>)
    ensures
        match r {
            Some(j) => j < list@.len() && list@[j as int]@ == s@,
            None => !list@.map_values(|t: String| t@).contains(s@),
        },
{
    let mut i: usize = 0;
    while i < list.len()
        invariant
            i <= list@.len(),
            forall|k: int| 0 <= k < i ==> list@[k]@ != s@,
        decreases list@.len() - i,
    {
        if crate::text::str_eq(list[i].as_str(), s) {
            return Some(i);
        }
        i = i + 1;
    }
    proof {
        let ghost lv = list@.map_values(|t: String| t@);
        assert forall|k: int| 0 <= k < lv.len() implies #[trigger] lv[k] != s@ by {
            assert(lv[k] == list@[k]@);
        }
    }
    None
}

/// The strategy mix of the open trades, given each trade's badge: every
/// badge once with its number of trades, most trades first, ties in order
/// of first appearance.
pub fn open_strategy_counts(badges: &[String]) -> (r: Vec<StrategyCount>)
    requires
        badges@.len() <= i64::MAX,
    ensures
        ({
            let bv = badges@.map_values(|t: String| t@);
            &&& forall|i: int| 0 <= i < r@.len() ==> bv.contains((#[trigger] r@[i]).badge@)
                && r@[i].count == occurrences(bv, r@[i].badge@)
            &&& forall|b: Seq<char>| bv.contains(b) ==> exists|i: int| 0 <= i < r@.len() && (#[trigger] r@[i]).badge@ == b
            &&& forall|i: int, j: int| #![trigger r@[i], r@[j]] 0 <= i < j < r@.len()
                ==> count_first(bv, r@[i].badge@, r@[i].count as nat, r@[j].badge@, r@[j].count as nat)
        }),
{
    let ghost bv = badges@.map_values(|t: String| t@);
    let mut names: Vec<String> = Vec::new();
    let mut counts: Vec<usize> = Vec::new();
    let mut i: usize = 0;
    while i < badges.len()
        invariant
            i <= badges@.len(),
            badges@.len() <= i64::MAX,
            bv == badges@.map_values(|t: String| t@),
            names@.len() == counts@.len(),
            names@.map_values(|t: String| t@) == first_appearances(bv.take(i as int)),
            forall|j: int| 0 <= j < counts@.len() ==> (#[trigger] counts@[j]) as nat == occurrences(bv.take(i as int), names@[j]@),
            forall|j: int| 0 <= j < counts@.len() ==> (#[trigger] counts@[j]) <= i,
        decreases badges@.len() - i,
    {
        let b = &badges[i];
        let ghost pre = bv.take(i as int);
        let ghost nv = names@.map_values(|t: String| t@);
        proof {
            assert(bv.take(i + 1) =~= pre.push(b@));
            assert(bv.take(i + 1).drop_last() =~= pre);
            assert(bv.take(i + 1).last() == b@);
            lemma_first_appearances(pre);
        }
        match find_string(names.as_slice(), b.as_str()) {
            Some(j) => {
                let c = counts[j];
                counts.set(j, c + 1);
                proof {
                    assert(nv[j as int] == b@);
                    assert(nv.contains(b@));
                    assert forall|q: int| 0 <= q < counts@.len() implies (#[trigger] counts@[q]) as nat == occurrences(bv.take(i + 1), names@[q]@) by {
                        if q != j {
                            assert(nv[q] == names@[q]@);
                            assert(nv[q] != nv[j as int]);
                        }
                    }
                }
            },
            None => {
                names.push(b.clone());
                counts.push(1);
                proof {
                    assert(!pre.contains(b@));
                    lemma_occurrences_absent(pre, b@);
                    assert(names@.map_values(|t: String| t@) =~= nv.push(b@));
                    assert forall|q: int| 0 <= q < counts@.len() implies (#[trigger] counts@[q]) as nat == occurrences(bv.take(i + 1), names@[q]@) by {
                        if q < nv.len() {
                            assert(nv[q] == names@[q]@);
                            assert(pre.contains(nv[q]));
                        }
                    }
                }
            },
        }
        i = i + 1;
    }
    proof {
        assert(bv.take(i as int) =~= bv);
        lemma_first_appearances(bv);
    }
    let ghost nv = names@.map_values(|t: String| t@);
    let mut pairs: Vec<(i64, u64)> = Vec::new();
    let mut j: usize = 0;
    while j < names.len()
        invariant
            j <= names@.len(),
            names@.len() == counts@.len(),
            forall|q: int| 0 <= q < counts@.len() ==> (#[trigger] counts@[q]) <= badges@.len(),
            badges@.len() <= i64::MAX,
            pairs@.len() == j,
            forall|q: int| 0 <= q < j ==> (#[trigger] pairs@[q]) == (-(counts@[q] as int) as i64, q as u64),
        decreases names@.len() - j,
    {
        let c = counts[j];
        pairs.push((-(c as i64), j as u64));
        j = j + 1;
    }
    let sorted = sorted_pairs(pairs.as_slice());
    let nn: usize = names.len();
    let mut r: Vec<StrategyCount> = Vec::new();
    let mut k: usize = 0;
    while k < sorted.len()
        invariant
            nn == names@.len(),
            k <= sorted@.len(),
            pairs_ascending(sorted@),
            forall|x: (i64, u64)| sorted@.contains(x) <==> pairs@.contains(x),
            pairs@.len() == names@.len(),
            names@.len() == counts@.len(),
            forall|q: int| 0 <= q < pairs@.len() ==> (#[trigger] pairs@[q]) == (-(counts@[q] as int) as i64, q as u64),
            r@.len() == k,
            forall|t: int| 0 <= t < k ==> (#[trigger] r@[t]).badge@ == names@[sorted@[t].1 as int]@
                && r@[t].count == counts@[sorted@[t].1 as int] && sorted@[t].1 < names@.len(),
        decreases sorted@.len() - k,
    {
        let e = sorted[k];
        proof {
            assert(sorted@.contains(e));
            assert(pairs@.contains(e));
            let q = choose|q: int| 0 <= q < pairs@.len() && pairs@[q] == e;
            assert(pairs@[q] == (-(counts@[q] as int) as i64, q as u64));
            assert(q < nn);
            assert(e.1 == q);
        }
        let idx = e.1 as usize;
        r.push(StrategyCount { badge: names[idx].clone(), count: counts[idx] });
        k = k + 1;
    }
    proof {
        assert(r@.len() == sorted@.len());
        assert(forall|t: int| 0 <= t < r@.len() ==> (#[trigger] r@[t]).badge@ == names@[sorted@[t].1 as int]@);
        assert(forall|t: int| 0 <= t < r@.len() ==> (#[trigger] r@[t]).count == counts@[sorted@[t].1 as int]);
        assert forall|t: int| #![trigger r@[t]] 0 <= t < r@.len() implies
            0 <= sorted@[t].1 < nv.len()
            && r@[t].badge@ == nv[sorted@[t].1 as int]
            && r@[t].count == counts@[sorted@[t].1 as int]
            && sorted@[t] == pairs@[sorted@[t].1 as int] by {
            let q = sorted@[t].1 as int;
            assert(sorted@.contains(sorted@[t]));
            assert(pairs@.contains(sorted@[t]));
            let q2 = choose|q2: int| 0 <= q2 < pairs@.len() && pairs@[q2] == sorted@[t];
            assert(pairs@[q2] == (-(counts@[q2] as int) as i64, q2 as u64));
            assert(q == q2);
            assert(r@[t].badge@ == names@[q]@);
            assert(nv[q] == names@[q]@);
        }
        assert forall|t: int| 0 <= t < r@.len() implies bv.contains((#[trigger] r@[t]).badge@)
            && r@[t].count == occurrences(bv, r@[t].badge@) by {
            let q = sorted@[t].1 as int;
            let rt = r@[t];
            assert(0 <= q < nv.len() && rt.badge@ == nv[q] && rt.count == counts@[q]);
            assert(first_appearances(bv).contains(nv[q]));
        }
        assert forall|b: Seq<char>| bv.contains(b) implies exists|t: int| 0 <= t < r@.len() && (#[trigger] r@[t]).badge@ == b by {
            assert(first_appearances(bv).contains(b));
            let q = choose|q: int| 0 <= q < nv.len() && nv[q] == b;
            assert(pairs@[q] == (-(counts@[q] as int) as i64, q as u64));
            assert(pairs@.contains(pairs@[q]));
            assert(sorted@.contains(pairs@[q]));
            let t = choose|t: int| 0 <= t < sorted@.len() && sorted@[t] == pairs@[q];
            assert(r@[t].badge@ == b);
        }
        assert forall|a: int, b: int| #![trigger r@[a], r@[b]] 0 <= a < b < r@.len()
            implies count_first(bv, r@[a].badge@, r@[a].count as nat, r@[b].badge@, r@[b].count as nat) by {
            let qa = sorted@[a].1 as int;
            let qb = sorted@[b].1 as int;
            let ra = r@[a];
            let rb = r@[b];
            assert(0 <= qa < nv.len() && ra.badge@ == nv[qa] && ra.count == counts@[qa]);
            assert(0 <= qb < nv.len() && rb.badge@ == nv[qb] && rb.count == counts@[qb]);
            assert(pair_before(sorted@[a], sorted@[b]));
            assert(pairs@[qa] == (-(counts@[qa] as int) as i64, qa as u64));
            assert(pairs@[qb] == (-(counts@[qb] as int) as i64, qb as u64));
            lemma_position_of_distinct(nv, qa);
            lemma_position_of_distinct(nv, qb);
        }
    }
    r
}

// ───────────────────────────── performance buckets ─────────────────────────────

/// The days-to-expiration-at-close bucket of a closed trade: 0–7, 7–14,
/// 14–21, 21–30 and 30 or more days (lower bound included); a value that
/// fits none of them falls in the last.
pub open spec fn dte_bucket_spec(dte: int) -> int {
    if 0 <= dte < 7 {
        0
    } else if 7 <= dte < 14 {
        1
    } else if 14 <= dte < 21 {
        2
    } else if 21 <= dte < 30 {
        3
    } else {
        4
    }
}

/// The days-to-expiration-at-close bucket of a closed trade.
pub fn dte_bucket(dte: i32) -> (r: usize)
    ensures
        r as int == dte_bucket_spec(dte as int),
{
    if 0 <= dte && dte < 7 {
        0
    } else if 7 <= dte && dte < 14 {
        1
    } else if 14 <= dte && dte < 21 {
        2
    } else if 21 <= dte && dte < 30 {
        3
    } else {
        4
    }
}

/// The time-in-trade bucket for a trade held `days` calendar days:
/// 0–7, 7–14, 14–21, 21–30 and 30 days or more (lower bound included, the
/// last bucket ending below `i64::MAX`); none for other values.
pub fn held_bucket(days: i64) -> (r: Option<usize>)
    ensures
        r == (if 0 <= days < 7 {
            Some(0usize)
        } else if 7 <= days < 14 {
            Some(1usize)
        } else if 14 <= days < 21 {
            Some(2usize)
        } else if 21 <= days < 30 {
            Some(3usize)
        } else if 30 <= days < i64::MAX {
            Some(4usize)
        } else {
            None
        }),
{
    if 0 <= days && days < 7 {
        Some(0)
    } else if 7 <= days && days < 14 {
        Some(1)
    } else if 14 <= days && days < 21 {
        Some(2)
    } else if 21 <= days && days < 30 {
        Some(3)
    } else if 30 <= days && days < i64::MAX {
        Some(4)
    } else {
        None
    }
}

/// Where the rolling window that ends at trade `i` starts: `window` trades
/// wide (at least one), cut at the first trade.
pub open spec fn window_start(i: int, window: int) -> int {
    let w = if window > 0 { window - 1 } else { 0 };
    if i > w { i - w } else { 0 }
}

/// How many of `wins` are true.
pub open spec fn count_true(wins: Seq<bool>) -> nat
    decreases wins.len(),
{
    if wins.len() == 0 {
        0
    } else {
        count_true(wins.drop_last()) + if wins.last() { 1nat } else { 0nat }
    }
}

/// Start of the rolling window ending at trade `i`.
pub fn rolling_window_start(i: usize, window: usize) -> (r: usize)
    ensures
        r as int == window_start(i as int, window as int),
{
    i.saturating_sub(window.saturating_sub(1))
}

/// For each closed trade in order, the wins and the trades in the rolling
/// window of `window` trades that ends there.
pub fn rolling_win_counts(wins: &[bool], window: usize) -> (r: Vec<(usize, usize)>)
    ensures
        r@.len() == wins@.len(),
        forall|i: int| 0 <= i < r@.len() ==> {
            let s = window_start(i, window as int);
            &&& (#[trigger] r@[i]).0 as nat == count_true(wins@.subrange(s, i + 1))
            &&& r@[i].1 as int == i + 1 - s
        },
{
    let mut r: Vec<(usize, usize)> = Vec::new();
    let mut i: usize = 0;
    while i < wins.len()
        invariant
            i <= wins@.len(),
            r@.len() == i,
            forall|k: int| 0 <= k < i ==> {
                let s = window_start(k, window as int);
                &&& (#[trigger] r@[k]).0 as nat == count_true(wins@.subrange(s, k + 1))
                &&& r@[k].1 as int == k + 1 - s
            },
        decreases wins@.len() - i,
    {
        let start = rolling_window_start(i, window);
        let mut n: usize = 0;
        let mut j: usize = start;
        proof {
            assert(wins@.subrange(start as int, start as int) =~= Seq::<bool>::empty());
        }
        while j <= i
            invariant
                start <= j <= i + 1,
                i < wins@.len(),
                n as nat == count_true(wins@.subrange(start as int, j as int)),
                n <= j - start,
            decreases i + 1 - j,
        {
            proof {
                assert(wins@.subrange(start as int, j + 1).drop_last() =~= wins@.subrange(start as int, j as int));
                assert(wins@.subrange(start as int, j + 1).last() == wins@[j as int]);
            }
            if wins[j] {
                n = n + 1;
            }
            j = j + 1;
        }
        r.push((n, i + 1 - start));
        i = i + 1;
    }
    r
}

// ───────────────────────────── playbook compliance ─────────────────────────────

/// One way a trade breaks its playbook's entry criteria: the field, the
/// rule it breaks and the value the trade has.
#[derive(Clone, Debug)]
pub struct ComplianceViolation {
    pub field: String,
    pub rule: String,
    pub actual: String,
}

/// A violation as plain text: (field, rule, actual).
pub open spec fn violation_view(v: ComplianceViolation) -> (Seq<char>, Seq<char>, Seq<char>) {
    (v.field@, v.rule@, v.actual@)
}

/// The days-to-expiration violations of a trade entered `entry_dte` days
/// out, against the playbook's bounds: below the minimum, then above the
/// maximum. A trade without an entry DTE breaks neither.
pub open spec fn dte_violations_spec(entry_dte: Option<i32>, min_dte: Option<i32>, max_dte: Option<i32>)
    -> Seq<(Seq<char>, Seq<char>, Seq<char>)>
{
    match entry_dte {
        None => Seq::empty(),
        Some(d) => {
            let low = match min_dte {
                Some(m) if d < m => seq![("DTE"@, "≥ "@ + signed_decimal(m as int), signed_decimal(d as int))],
                _ => Seq::empty(),
            };
            let high = match max_dte {
                Some(m) if d > m => seq![("DTE"@, "≤ "@ + signed_decimal(m as int), signed_decimal(d as int))],
                _ => Seq::empty(),
            };
            low + high
        },
    }
}

fn dte_violation(sign: &str, bound: i32, dte: i32) -> (v: ComplianceViolation)
    ensures
        violation_view(v) == ("DTE"@, sign@ + signed_decimal(bound as int), signed_decimal(dte as int)),
{
    let mut rule = sign.to_string();
    crate::text::push_decimal_i64(&mut rule, bound as i64);
    ComplianceViolation { field: "DTE".to_string(), rule, actual: i64_to_string(dte as i64) }
}

/// The days-to-expiration part of the playbook compliance check.
pub fn dte_violations(entry_dte: Option<i32>, min_dte: Option<i32>, max_dte: Option<i32>) -> (r: Vec<ComplianceViolation>)
    ensures
        r@.map_values(|v: ComplianceViolation| violation_view(v)) == dte_violations_spec(entry_dte, min_dte, max_dte),
{
    let mut r: Vec<ComplianceViolation> = Vec::new();
    if let Some(d) = entry_dte {
        if let Some(m) = min_dte {
            if d < m {
                r.push(dte_violation("≥ ", m, d));
            }
        }
        let ghost low = r@.map_values(|v: ComplianceViolation| violation_view(v));
        if let Some(m) = max_dte {
            if d > m {
                r.push(dte_violation("≤ ", m, d));
            }
        }
        proof {
            reveal_strlit("≥ ");
            reveal_strlit("≤ ");
            assert(r@.map_values(|v: ComplianceViolation| violation_view(v)) =~= dte_violations_spec(entry_dte, min_dte, max_dte));
        }
    } else {
        proof {
            assert(r@.map_values(|v: ComplianceViolation| violation_view(v)) =~= Seq::<(Seq<char>, Seq<char>, Seq<char>)>::empty());
        }
    }
    r
}

/// Whether a trade entered `entry_dte` days out fits a playbook's DTE
/// bounds (a trade without an entry DTE always does).
pub open spec fn dte_fits_spec(entry_dte: Option<i32>, min_dte: Option<i32>, max_dte: Option<i32>) -> bool {
    match entry_dte {
        None => true,
        Some(d) => (match min_dte { Some(m) => d >= m, None => true })
            && (match max_dte { Some(m) => d <= m, None => true }),
    }
}

/// The days-to-expiration part of matching a trade to playbooks.
pub fn dte_fits(entry_dte: Option<i32>, min_dte: Option<i32>, max_dte: Option<i32>) -> (r: bool)
    ensures
        r == dte_fits_spec(entry_dte, min_dte, max_dte),
{
    match entry_dte {
        None => true,
        Some(d) => {
            let low_ok = match min_dte {
                Some(m) => d >= m,
                None => true,
            };
            let high_ok = match max_dte {
                Some(m) => d <= m,
                None => true,
            };
            low_ok && high_ok
        },
    }
}

/// A trade fits the DTE bounds exactly when the compliance check finds no
/// DTE violation.
pub proof fn lemma_dte_fit_iff_no_violation(entry_dte: Option<i32>, min_dte: Option<i32>, max_dte: Option<i32>)
    ensures
        dte_fits_spec(entry_dte, min_dte, max_dte) <==> dte_violations_spec(entry_dte, min_dte, max_dte).len() == 0,
{
}

/// Whether a playbook with spread type `spread_type` can hold a trade of
/// `strategy`: it names no spread type, or one whose strategy has the same
/// badge.
pub open spec fn playbook_strategy_fits_spec(strategy: crate::models::StrategyType, spread_type: Option<Seq<char>>) -> bool {
    match spread_type {
        Some(st) => crate::models::strategy_badge(crate::models::strategy_from_key(st)) == crate::models::strategy_badge(strategy),
        None => true,
    }
}

/// The strategy part of matching a trade to playbooks.
pub fn playbook_strategy_fits(strategy: &crate::models::StrategyType, spread_type: Option<&str>) -> (r: bool)
    ensures
        r == playbook_strategy_fits_spec(*strategy, match spread_type { Some(s) => Some(s@), None => None }),
{
    match spread_type {
        Some(st) => {
            let pb = crate::models::StrategyType::from_str(st);
            crate::text::str_eq(pb.badge(), strategy.badge())
        },
        None => true,
    }
}

} // verus!
