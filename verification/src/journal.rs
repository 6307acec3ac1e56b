//! The journal table: which trades the filter keeps, and how the kept trades
//! are grouped under year and month headers, newest month first.
use vstd::prelude::*;
use crate::app::FilterStatus;
use crate::dates::day_of;
use crate::text::{contains_sub, str_contains_str, str_eq, uppercase, uppercase_of};

verus! {

/// What the journal reads of a trade to filter and group it. Instants are
/// milliseconds since the Unix epoch.
#[derive(Clone, Debug)]
pub struct TradeStamp {
    pub ticker: String,
    pub trade_ms: i64,
    pub expiration_ms: i64,
    pub exit_ms: Option<i64>,
    pub has_pnl: bool,
    pub entry_dte: Option<i32>,
    pub exit_reason: Option<String>,
}

/// Whether the trade is still open: it has neither an exit nor a P&L.
pub open spec fn stamp_is_open(t: TradeStamp) -> bool {
    t.exit_ms is None && !t.has_pnl
}

/// Whether the trade's exit reason is `expired`.
pub open spec fn stamp_expired(t: TradeStamp) -> bool {
    match t.exit_reason {
        Some(r) => r@ == "expired"@,
        None => false,
    }
}

/// Whether a trade passes the status filter.
pub open spec fn status_ok(filter: FilterStatus, t: TradeStamp) -> bool {
    match filter {
        FilterStatus::All => true,
        FilterStatus::Open => stamp_is_open(t),
        FilterStatus::Closed => !stamp_is_open(t) && !stamp_expired(t),
        FilterStatus::Expired => stamp_expired(t),
    }
}

/// Whether a trade passes the ticker filter: the filter is empty, or its
/// upper-cased text occurs in the upper-cased ticker.
pub open spec fn ticker_ok(t: TradeStamp, filter_ticker: Seq<char>) -> bool {
    filter_ticker.len() == 0 || contains_sub(uppercase_of(t.ticker@), uppercase_of(filter_ticker))
}

impl TradeStamp {
    /// Whether the trade is still open.
    pub fn is_open(&self) -> (r: bool)
        ensures
            r == stamp_is_open(*self),
    {
        self.exit_ms.is_none() && !self.has_pnl
    }

    /// Whether the trade was entered on its expiration day (or recorded
    /// with zero days to expiration).
    pub fn is_0dte(&self) -> (r: bool)
        ensures
            r == (self.entry_dte == Some(0i32)
                || day_of(self.trade_ms as int) == day_of(self.expiration_ms as int)),
    {
        let zero_dte = match self.entry_dte {
            Some(d) => d == 0,
            None => false,
        };
        zero_dte || crate::dates::epoch_day(self.trade_ms) == crate::dates::epoch_day(self.expiration_ms)
    }

    /// Whether the trade's exit reason is `expired`.
    pub fn is_expired(&self) -> (r: bool)
        ensures
            r == stamp_expired(*self),
    {
        match &self.exit_reason {
            Some(r) => str_eq(r.as_str(), "expired"),
            None => false,
        }
    }
}

/// Whether a trade passes the status filter.
pub fn status_matches(filter: FilterStatus, t: &TradeStamp) -> (r: bool)
    ensures
        r == status_ok(filter, *t),
{
    match filter {
        FilterStatus::All => true,
        FilterStatus::Open => t.is_open(),
        FilterStatus::Closed => !t.is_open() && !t.is_expired(),
        FilterStatus::Expired => t.is_expired(),
    }
}

/// Positions, in order, of the trades that pass both filters.
pub open spec fn kept_positions(trades: Seq<TradeStamp>, filter: FilterStatus, filter_ticker: Seq<char>) -> Seq<usize>
    decreases trades.len(),
{
    if trades.len() == 0 {
        Seq::empty()
    } else {
        let prev = kept_positions(trades.drop_last(), filter, filter_ticker);
        let t = trades.last();
        if status_ok(filter, t) && ticker_ok(t, filter_ticker) {
            prev.push((trades.len() - 1) as usize)
        } else {
            prev
        }
    }
}

/// The kept positions are positions of `trades`, in increasing order.
pub proof fn lemma_kept_positions_increase(trades: Seq<TradeStamp>, filter: FilterStatus, filter_ticker: Seq<char>)
    requires
        trades.len() <= usize::MAX,
    ensures
        forall|i: int| 0 <= i < kept_positions(trades, filter, filter_ticker).len()
            ==> #[trigger] kept_positions(trades, filter, filter_ticker)[i] < trades.len(),
        forall|i: int, j: int| 0 <= i < j < kept_positions(trades, filter, filter_ticker).len()
            ==> #[trigger] kept_positions(trades, filter, filter_ticker)[i] < #[trigger] kept_positions(trades, filter, filter_ticker)[j],
    decreases trades.len(),
{
    if trades.len() > 0 {
        let prev = kept_positions(trades.drop_last(), filter, filter_ticker);
        let k = kept_positions(trades, filter, filter_ticker);
        lemma_kept_positions_increase(trades.drop_last(), filter, filter_ticker);
        assert forall|i: int| 0 <= i < prev.len() implies #[trigger] prev[i] < trades.len() - 1 by {
        }
        if k.len() > prev.len() {
            assert(k == prev.push((trades.len() - 1) as usize));
            assert forall|i: int| 0 <= i < k.len() implies #[trigger] k[i] < trades.len() by {
                if i < prev.len() {
                    assert(k[i] == prev[i]);
                }
            }
            assert forall|i: int, j: int| 0 <= i < j < k.len() implies #[trigger] k[i] < #[trigger] k[j] by {
                assert(k[i] == prev[i]);
                if j < prev.len() {
                    assert(k[j] == prev[j]);
                    assert(prev[i] < prev[j]);
                } else {
                    assert(prev[i] < trades.len() - 1);
                    assert(k[j] == trades.len() - 1);
                }
            }
        } else {
            assert(k == prev);
        }
    }
}

/// The trades the journal shows for a status filter and a ticker filter,
/// as positions in `trades`, in order.
pub fn filter_trades(trades: &[TradeStamp], filter: FilterStatus, filter_ticker: &str) -> (r: Vec<usize>)
    ensures
        r@ == kept_positions(trades@, filter, filter_ticker@),
        forall|i: int| 0 <= i < r@.len() ==> #[trigger] r@[i] < trades@.len(),
        forall|i: int, j: int| 0 <= i < j < r@.len() ==> #[trigger] r@[i] < #[trigger] r@[j],
{
    let wanted = uppercase(filter_ticker);
    let no_ticker_filter = crate::text::chars_of(filter_ticker).len() == 0;
    let ghost ft = filter_ticker@;
    let mut r: Vec<usize> = Vec::new();
    let mut i: usize = 0;
    proof {
        assert(trades@.take(0) =~= Seq::<TradeStamp>::empty());
    }
    while i < trades.len()
        invariant
            i <= trades@.len(),
            wanted@ == uppercase_of(ft),
            ft == filter_ticker@,
            no_ticker_filter == (ft.len() == 0),
            r@ == kept_positions(trades@.take(i as int), filter, ft),
        decreases trades@.len() - i,
    {
        let t = &trades[i];
        let keep_status = status_matches(filter, t);
        let keep_ticker = if no_ticker_filter {
            true
        } else {
            let up = uppercase(t.ticker.as_str());
            str_contains_str(up.as_str(), wanted.as_str())
        };
        proof {
            assert(trades@.take(i + 1).drop_last() =~= trades@.take(i as int));
            assert(trades@.take(i + 1).last() == *t);
        }
        if keep_status && keep_ticker {
            r.push(i);
        }
        i = i + 1;
    }
    proof {
        assert(trades@.take(i as int) =~= trades@);
        lemma_kept_positions_increase(trades@, filter, filter_ticker@);
    }
    r
}

// ───────────────────────────── sorting ─────────────────────────────

/// Whether key `a` sorts before key `b`, looking from position `i` on:
/// the first position where they differ decides, and a key that ends there
/// sorts first (the order of `Ord` on slices).
pub open spec fn key_less_from(a: Seq<i64>, b: Seq<i64>, i: int) -> bool
    decreases b.len() - i,
{
    if i < 0 || i >= b.len() {
        false
    } else if i >= a.len() {
        true
    } else if a[i] < b[i] {
        true
    } else if a[i] > b[i] {
        false
    } else {
        key_less_from(a, b, i + 1)
    }
}

/// Whether key `a` sorts strictly before key `b`.
pub open spec fn key_less(a: Seq<i64>, b: Seq<i64>) -> bool {
    key_less_from(a, b, 0)
}

/// Whether the trade at position `a` is listed before the one at `b` when
/// the journal is sorted by `keys` (descending where `desc`): by key, and
/// between equal keys by position, as a stable sort of positions given in
/// increasing order leaves them.
pub open spec fn listed_before(keys: Seq<Vec<i64>>, desc: bool, a: usize, b: usize) -> bool {
    let ka = keys[a as int]@;
    let kb = keys[b as int]@;
    if desc {
        key_less(kb, ka) || (ka == kb && a < b)
    } else {
        key_less(ka, kb) || (ka == kb && a < b)
    }
}

proof fn lemma_key_less_asym(a: Seq<i64>, b: Seq<i64>, i: int)
    requires
        0 <= i,
        key_less_from(a, b, i),
    ensures
        !key_less_from(b, a, i),
    decreases b.len() - i,
{
    if i < a.len() && i < b.len() && a[i] == b[i] {
        lemma_key_less_asym(a, b, i + 1);
    }
}

proof fn lemma_key_less_trans(a: Seq<i64>, b: Seq<i64>, c: Seq<i64>, i: int)
    requires
        0 <= i,
        key_less_from(a, b, i),
        key_less_from(b, c, i),
    ensures
        key_less_from(a, c, i),
    decreases b.len() - i,
{
    if i < a.len() && a[i] == b[i] && b[i] == c[i] {
        lemma_key_less_trans(a, b, c, i + 1);
    }
}

proof fn lemma_key_less_total(a: Seq<i64>, b: Seq<i64>, i: int)
    requires
        0 <= i <= a.len(),
        0 <= i <= b.len(),
    ensures
        key_less_from(a, b, i) || key_less_from(b, a, i) || a.skip(i) == b.skip(i),
    decreases a.len() + b.len() - 2 * i,
{
    if i < a.len() && i < b.len() && a[i] == b[i] {
        lemma_key_less_total(a, b, i + 1);
        if a.skip(i + 1) == b.skip(i + 1) {
            assert(a.skip(i) =~= seq![a[i]] + a.skip(i + 1));
            assert(b.skip(i) =~= seq![b[i]] + b.skip(i + 1));
        }
    } else if i == a.len() && i == b.len() {
        assert(a.skip(i) =~= b.skip(i));
    }
}

proof fn lemma_listed_before_order(keys: Seq<Vec<i64>>, desc: bool, a: usize, b: usize, c: usize)
    requires
        a < keys.len(),
        b < keys.len(),
        c < keys.len(),
    ensures
        !listed_before(keys, desc, a, a),
        listed_before(keys, desc, a, b) ==> !listed_before(keys, desc, b, a),
        listed_before(keys, desc, a, b) && listed_before(keys, desc, b, c) ==> listed_before(keys, desc, a, c),
        a != b ==> listed_before(keys, desc, a, b) || listed_before(keys, desc, b, a),
{
    let ka = keys[a as int]@;
    let kb = keys[b as int]@;
    let kc = keys[c as int]@;
    lemma_key_less_total(ka, kb, 0);
    assert(ka.skip(0) =~= ka);
    assert(kb.skip(0) =~= kb);
    if key_less(ka, ka) {
        lemma_key_less_asym(ka, ka, 0);
    }
    if key_less(ka, kb) {
        lemma_key_less_asym(ka, kb, 0);
    }
    if key_less(kb, ka) {
        lemma_key_less_asym(kb, ka, 0);
    }
    if key_less(ka, kb) && key_less(kb, kc) {
        lemma_key_less_trans(ka, kb, kc, 0);
    }
    if key_less(kc, kb) && key_less(kb, ka) {
        lemma_key_less_trans(kc, kb, ka, 0);
    }
}

/// Whether key `a` sorts strictly before key `b` (the order of `Ord` on
/// slices of integers).
pub fn key_is_less(a: &[i64], b: &[i64]) -> (r: bool)
    ensures
        r == key_less(a@, b@),
{
    let mut i: usize = 0;
    while i < a.len() && i < b.len() && a[i] == b[i]
        invariant
            i <= a@.len(),
            i <= b@.len(),
            key_less_from(a@, b@, 0) == key_less_from(a@, b@, i as int),
        decreases a@.len() - i,
    {
        i = i + 1;
    }
    if i >= b.len() {
        false
    } else if i >= a.len() {
        true
    } else {
        a[i] < b[i]
    }
}

fn is_listed_before(keys: &[Vec<i64>], desc: bool, a: usize, b: usize) -> (r: bool)
    requires
        a < keys@.len(),
        b < keys@.len(),
    ensures
        r == listed_before(keys@, desc, a, b),
{
    let ka = keys[a].as_slice();
    let kb = keys[b].as_slice();
    let strict = if desc { key_is_less(kb, ka) } else { key_is_less(ka, kb) };
    if strict {
        return true;
    }
    if a < b {
        let same = !key_is_less(ka, kb) && !key_is_less(kb, ka);
        proof {
            lemma_key_less_total(ka@, kb@, 0);
            assert(ka@.skip(0) =~= ka@);
            assert(kb@.skip(0) =~= kb@);
            if ka@ == kb@ {
                if key_less(ka@, kb@) {
                    lemma_key_less_asym(ka@, kb@, 0);
                }
            }
        }
        same
    } else {
        false
    }
}

/// The journal's trades sorted by `keys` (descending where `desc`): the
/// positions in `positions`, each kept as often as it occurs, listed so
/// that none comes after one it is listed before.
pub fn sort_positions(positions: &[usize], keys: &[Vec<i64>], desc: bool) -> (r: Vec<usize>)
    requires
        forall|i: int| 0 <= i < positions@.len() ==> positions@[i] < keys@.len(),
    ensures
        r@.to_multiset() == positions@.to_multiset(),
        forall|i: int| 0 <= i < r@.len() ==> r@[i] < keys@.len(),
        forall|i: int, j: int| 0 <= i < j < r@.len() ==> !listed_before(keys@, desc, #[trigger] r@[j], #[trigger] r@[i]),
{
    let mut r: Vec<usize> = Vec::new();
    let mut n: usize = 0;
    proof {
        assert(positions@.take(0) =~= Seq::<usize>::empty());
    }
    while n < positions.len()
        invariant
            n <= positions@.len(),
            forall|i: int| 0 <= i < positions@.len() ==> positions@[i] < keys@.len(),
            r@.to_multiset() == positions@.take(n as int).to_multiset(),
            forall|i: int| 0 <= i < r@.len() ==> r@[i] < keys@.len(),
            forall|i: int, j: int| 0 <= i < j < r@.len() ==> !listed_before(keys@, desc, #[trigger] r@[j], #[trigger] r@[i]),
        decreases positions@.len() - n,
    {
        let x = positions[n];
        let mut p: usize = 0;
        while p < r.len() && !is_listed_before(keys, desc, x, r[p])
            invariant
                p <= r@.len(),
                x < keys@.len(),
                forall|i: int| 0 <= i < r@.len() ==> r@[i] < keys@.len(),
                forall|i: int| 0 <= i < p ==> !listed_before(keys@, desc, x, #[trigger] r@[i]),
            decreases r@.len() - p,
        {
            p = p + 1;
        }
        let ghost old_r = r@;
        proof {
            assert forall|j: int| p <= j < old_r.len() implies !listed_before(keys@, desc, #[trigger] old_r[j], x) by {
                lemma_listed_before_order(keys@, desc, x, old_r[p as int], old_r[j]);
                lemma_listed_before_order(keys@, desc, old_r[j], x, old_r[p as int]);
                if j > p {
                    assert(!listed_before(keys@, desc, old_r[j], old_r[p as int]));
                }
            }
        }
        r.insert(p, x);
        proof {
            assert(positions@.take(n + 1) =~= positions@.take(n as int).push(x));
            assert(r@ == old_r.insert(p as int, x));
            vstd::seq_lib::to_multiset_insert(old_r, p as int, x);
            vstd::seq_lib::to_multiset_build(positions@.take(n as int), x);
            assert forall|i: int, j: int| 0 <= i < j < r@.len() implies !listed_before(keys@, desc, #[trigger] r@[j], #[trigger] r@[i]) by {
                if i < p && j == p {
                } else if i < p && j > p {
                    assert(r@[j] == old_r[j - 1]);
                    assert(r@[i] == old_r[i]);
                } else if i == p {
                    assert(r@[j] == old_r[j - 1]);
                } else if j < p {
                    assert(r@[j] == old_r[j]);
                    assert(r@[i] == old_r[i]);
                } else {
                    assert(r@[j] == old_r[j - 1]);
                    assert(r@[i] == old_r[i - 1]);
                }
            }
        }
        n = n + 1;
    }
    proof {
        assert(positions@.take(positions@.len() as int) =~= positions@);
    }
    r
}

// ───────────────────────────── month groups ─────────────────────────────

/// Whether month `a` (year, month) comes before month `b`.
pub open spec fn month_before(a: (i32, u32), b: (i32, u32)) -> bool {
    a.0 < b.0 || (a.0 == b.0 && a.1 < b.1)
}

/// Whether `ms` lists months strictly oldest first (so each at most once).
pub open spec fn ascending_months(ms: Seq<(i32, u32)>) -> bool {
    forall|i: int, j: int| #![trigger ms[i], ms[j]] 0 <= i < j < ms.len() ==> month_before(ms[i], ms[j])
}

/// The month of each trade of `order`, in order.
pub open spec fn months_of(order: Seq<usize>, keys: Seq<(i32, u32)>) -> Seq<(i32, u32)> {
    order.map_values(|p: usize| keys[p as int])
}

/// The trades of `order` that fall in month `m`, in order.
pub open spec fn members_of(order: Seq<usize>, keys: Seq<(i32, u32)>, m: (i32, u32)) -> Seq<usize>
    decreases order.len(),
{
    if order.len() == 0 {
        Seq::empty()
    } else {
        let prev = members_of(order.drop_last(), keys, m);
        if keys[order.last() as int] == m { prev.push(order.last()) } else { prev }
    }
}

fn same_month(a: (i32, u32), b: (i32, u32)) -> (r: bool)
    ensures
        r == (a == b),
{
    a.0 == b.0 && a.1 == b.1
}

fn earlier_month(a: (i32, u32), b: (i32, u32)) -> (r: bool)
    ensures
        r == month_before(a, b),
{
    a.0 < b.0 || (a.0 == b.0 && a.1 < b.1)
}

/// The months of `present`, each once, oldest first.
pub fn distinct_months(present: &[(i32, u32)]) -> (ms: Vec<(i32, u32)>)
    ensures
        ascending_months(ms@),
        forall|k: (i32, u32)| ms@.contains(k) <==> present@.contains(k),
{
    let mut ms: Vec<(i32, u32)> = Vec::new();
    let mut i: usize = 0;
    while i < present.len()
        invariant
            i <= present@.len(),
            ascending_months(ms@),
            forall|k: (i32, u32)| ms@.contains(k) <==> present@.take(i as int).contains(k),
        decreases present@.len() - i,
    {
        let k = present[i];
        let mut pos: usize = 0;
        while pos < ms.len() && earlier_month(ms[pos], k)
            invariant
                pos <= ms@.len(),
                forall|t: int| 0 <= t < pos ==> month_before(#[trigger] ms@[t], k),
            decreases ms@.len() - pos,
        {
            pos = pos + 1;
        }
        let ghost before = ms@;
        proof {
            assert(present@.take(i + 1) =~= present@.take(i as int).push(k));
        }
        if pos < ms.len() && same_month(ms[pos], k) {
            proof {
                assert forall|q: (i32, u32)| ms@.contains(q) <==> present@.take(i + 1).contains(q) by {
                    if q == k {
                        assert(ms@[pos as int] == k);
                    }
                }
            }
        } else {
            ms.insert(pos, k);
            proof {
                assert(ms@ =~= before.take(pos as int).push(k) + before.skip(pos as int));
                assert forall|a: int, b: int| #![trigger ms@[a], ms@[b]] 0 <= a < b < ms@.len() implies month_before(ms@[a], ms@[b]) by {
                    if b < pos {
                        assert(ms@[a] == before[a] && ms@[b] == before[b]);
                    } else if b == pos {
                        assert(ms@[a] == before[a]);
                    } else if a < pos {
                        assert(ms@[a] == before[a] && ms@[b] == before[b - 1]);
                        assert(month_before(before[a], before[pos as int]));
                    } else if a == pos {
                        assert(ms@[b] == before[b - 1]);
                        assert(!month_before(before[pos as int], k) && before[pos as int] != k);
                        if b - 1 > pos {
                            assert(month_before(before[pos as int], before[b - 1]));
                        }
                    } else {
                        assert(ms@[a] == before[a - 1] && ms@[b] == before[b - 1]);
                    }
                }
                let pre = present@.take(i as int);
                assert forall|q: (i32, u32)| ms@.contains(q) <==> present@.take(i + 1).contains(q) by {
                    assert(present@.take(i + 1) == pre.push(k));
                    if pre.push(k).contains(q) {
                        let t = choose|t: int| 0 <= t < pre.len() + 1 && pre.push(k)[t] == q;
                        if t < pre.len() {
                            assert(pre[t] == q);
                        }
                    }
                    if pre.contains(q) {
                        let t = choose|t: int| 0 <= t < pre.len() && pre[t] == q;
                        assert(pre.push(k)[t] == q);
                    }
                    if q == k {
                        assert(pre.push(k)[pre.len() as int] == k);
                    }
                    if ms@.contains(q) {
                        let t = choose|t: int| 0 <= t < ms@.len() && ms@[t] == q;
                        if t < pos {
                            assert(before[t] == q);
                        } else if t > pos {
                            assert(before[t - 1] == q);
                        }
                    }
                    if before.contains(q) {
                        let t = choose|t: int| 0 <= t < before.len() && before[t] == q;
                        if t < pos {
                            assert(ms@[t] == q);
                        } else {
                            assert(ms@[t + 1] == q);
                        }
                    }
                    if q == k {
                        assert(ms@[pos as int] == k);
                    }
                }
            }
        }
        i = i + 1;
    }
    proof {
        assert(present@.take(i as int) =~= present@);
    }
    ms
}

/// The trades of one month, in the order they were given.
#[derive(Clone, Debug)]
pub struct MonthGroup {
    pub year: i32,
    pub month: u32,
    pub members: Vec<usize>,
}

/// The (year, month) of a group.
pub open spec fn group_month(g: MonthGroup) -> (i32, u32) {
    (g.year, g.month)
}

/// The trades of `order` that fall in month `m`, in order.
pub fn month_members(order: &[usize], keys: &[(i32, u32)], m: (i32, u32)) -> (r: Vec<usize>)
    requires
        forall|p: int| 0 <= p < order@.len() ==> order@[p] < keys@.len(),
    ensures
        r@ == members_of(order@, keys@, m),
{
    let mut r: Vec<usize> = Vec::new();
    let mut p: usize = 0;
    while p < order.len()
        invariant
            p <= order@.len(),
            forall|q: int| 0 <= q < order@.len() ==> order@[q] < keys@.len(),
            r@ == members_of(order@.take(p as int), keys@, m),
        decreases order@.len() - p,
    {
        let t = order[p];
        proof {
            assert(order@.take(p + 1).drop_last() =~= order@.take(p as int));
            assert(order@.take(p + 1).last() == t);
        }
        if same_month(keys[t], m) {
            r.push(t);
        }
        p = p + 1;
    }
    proof {
        assert(order@.take(p as int) =~= order@);
    }
    r
}

/// The trades of `order` grouped by month, months oldest first, each group
/// keeping the order of `order` (`keys` gives each trade's month).
pub fn group_by_month(order: &[usize], keys: &[(i32, u32)]) -> (g: Vec<MonthGroup>)
    requires
        forall|p: int| 0 <= p < order@.len() ==> order@[p] < keys@.len(),
    ensures
        ascending_months(g@.map_values(|x: MonthGroup| group_month(x))),
        forall|k: (i32, u32)|
            g@.map_values(|x: MonthGroup| group_month(x)).contains(k) <==> months_of(order@, keys@).contains(k),
        forall|i: int| 0 <= i < g@.len() ==> (#[trigger] g@[i]).members@ == members_of(order@, keys@, group_month(g@[i])),
{
    let mut present: Vec<(i32, u32)> = Vec::new();
    let mut p: usize = 0;
    while p < order.len()
        invariant
            p <= order@.len(),
            forall|q: int| 0 <= q < order@.len() ==> order@[q] < keys@.len(),
            present@ == months_of(order@.take(p as int), keys@),
        decreases order@.len() - p,
    {
        present.push(keys[order[p]]);
        proof {
            assert(months_of(order@.take(p + 1), keys@) =~= months_of(order@.take(p as int), keys@).push(keys@[order@[p as int] as int]));
        }
        p = p + 1;
    }
    proof {
        assert(order@.take(p as int) =~= order@);
    }
    let ms = distinct_months(present.as_slice());
    let mut g: Vec<MonthGroup> = Vec::new();
    let mut i: usize = 0;
    while i < ms.len()
        invariant
            i <= ms@.len(),
            forall|q: int| 0 <= q < order@.len() ==> order@[q] < keys@.len(),
            g@.map_values(|x: MonthGroup| group_month(x)) == ms@.take(i as int),
            forall|j: int| 0 <= j < g@.len() ==> (#[trigger] g@[j]).members@ == members_of(order@, keys@, group_month(g@[j])),
        decreases ms@.len() - i,
    {
        let m = ms[i];
        let members = month_members(order, keys, m);
        let ghost old_g = g@;
        let grp = MonthGroup { year: m.0, month: m.1, members };
        proof {
            assert(group_month(grp) == m);
        }
        g.push(grp);
        proof {
            assert(g@ == old_g.push(grp));
            assert(old_g.push(grp).map_values(|x: MonthGroup| group_month(x))
                =~= old_g.map_values(|x: MonthGroup| group_month(x)).push(group_month(grp)));
            assert(ms@.take(i + 1) =~= ms@.take(i as int).push(m));
        }
        i = i + 1;
    }
    proof {
        assert(ms@.take(i as int) =~= ms@);
    }
    g
}

// ───────────────────────────── journal rows ─────────────────────────────

/// One row of the journal table.
#[derive(Clone, Copy, Debug, PartialEq, Eq, Structural)]
pub enum JournalRow {
    /// A collapsible year header.
    YearHeader { year: i32 },
    /// A collapsible month header, under its year.
    MonthHeader { year: i32, month: u32 },
    /// A trade, by its position in the trade list.
    Trade(usize),
}

/// The rows one month contributes below its year header: none when the
/// year is collapsed, else its header and, unless the month is collapsed,
/// its trades.
pub open spec fn month_block(g: MonthGroup, collapsed_years: Seq<i32>, collapsed_months: Seq<(i32, u32)>) -> Seq<JournalRow> {
    if collapsed_years.contains(g.year) {
        Seq::empty()
    } else if collapsed_months.contains((g.year, g.month)) {
        seq![JournalRow::MonthHeader { year: g.year, month: g.month }]
    } else {
        seq![JournalRow::MonthHeader { year: g.year, month: g.month }]
            + g.members@.map_values(|t: usize| JournalRow::Trade(t))
    }
}

/// The journal rows for month groups `gs` (oldest first), emitted newest
/// first; `last_year` is the year of the month emitted just before.
pub open spec fn rows_newest_first(
    gs: Seq<MonthGroup>,
    last_year: Option<i32>,
    collapsed_years: Seq<i32>,
    collapsed_months: Seq<(i32, u32)>,
) -> Seq<JournalRow>
    decreases gs.len(),
{
    if gs.len() == 0 {
        Seq::empty()
    } else {
        let g = gs.last();
        let header = if last_year == Some(g.year) {
            Seq::empty()
        } else {
            seq![JournalRow::YearHeader { year: g.year }]
        };
        header + month_block(g, collapsed_years, collapsed_months)
            + rows_newest_first(gs.drop_last(), Some(g.year), collapsed_years, collapsed_months)
    }
}

fn year_in(list: &[i32], y: i32) -> (r: bool)
    ensures
        r == list@.contains(y),
{
    let mut i: usize = 0;
    while i < list.len()
        invariant
            i <= list@.len(),
            forall|k: int| 0 <= k < i ==> list@[k] != y,
        decreases list@.len() - i,
    {
        if list[i] == y {
            return true;
        }
        i = i + 1;
    }
    false
}

fn month_in(list: &[(i32, u32)], m: (i32, u32)) -> (r: bool)
    ensures
        r == list@.contains(m),
{
    let mut i: usize = 0;
    while i < list.len()
        invariant
            i <= list@.len(),
            forall|k: int| 0 <= k < i ==> list@[k] != m,
        decreases list@.len() - i,
    {
        if same_month(list[i], m) {
            return true;
        }
        i = i + 1;
    }
    false
}

/// The journal table for month groups given oldest first: newest month
/// first, a year header once per year, the months of a collapsed year
/// hidden, the trades of a collapsed month hidden.
pub fn journal_rows(groups: &[MonthGroup], collapsed_years: &[i32], collapsed_months: &[(i32, u32)]) -> (r: Vec<JournalRow>)
    ensures
        r@ == rows_newest_first(groups@, None, collapsed_years@, collapsed_months@),
{
    let ghost cy = collapsed_years@;
    let ghost cm = collapsed_months@;
    let mut out: Vec<JournalRow> = Vec::new();
    let mut last_year: Option<i32> = None;
    let mut k: usize = groups.len();
    proof {
        assert(groups@.take(k as int) =~= groups@);
        assert(out@ + rows_newest_first(groups@.take(k as int), last_year, cy, cm) =~= rows_newest_first(groups@, None, cy, cm));
    }
    while k > 0
        invariant
            k <= groups@.len(),
            cy == collapsed_years@,
            cm == collapsed_months@,
            out@ + rows_newest_first(groups@.take(k as int), last_year, cy, cm) == rows_newest_first(groups@, None, cy, cm),
        decreases k,
    {
        let ghost before = out@;
        let ghost prefix = groups@.take(k as int);
        let g = &groups[k - 1];
        proof {
            assert(prefix.last() == *g);
            assert(prefix.drop_last() =~= groups@.take(k - 1));
        }
        let new_year = match last_year {
            Some(y) => y != g.year,
            None => true,
        };
        if new_year {
            out.push(JournalRow::YearHeader { year: g.year });
        }
        if !year_in(collapsed_years, g.year) {
            out.push(JournalRow::MonthHeader { year: g.year, month: g.month });
            if !month_in(collapsed_months, (g.year, g.month)) {
                let mut t: usize = 0;
                let ghost start = out@;
                while t < g.members.len()
                    invariant
                        t <= g.members@.len(),
                        out@ == start + g.members@.take(t as int).map_values(|x: usize| JournalRow::Trade(x)),
                    decreases g.members@.len() - t,
                {
                    out.push(JournalRow::Trade(g.members[t]));
                    proof {
                        assert(g.members@.take(t + 1).map_values(|x: usize| JournalRow::Trade(x))
                            =~= g.members@.take(t as int).map_values(|x: usize| JournalRow::Trade(x)).push(JournalRow::Trade(g.members@[t as int])));
                    }
                    t = t + 1;
                }
                proof {
                    assert(g.members@.take(t as int) =~= g.members@);
                }
            }
        }
        let ghost header = if last_year == Some(g.year) { Seq::<JournalRow>::empty() } else { seq![JournalRow::YearHeader { year: g.year }] };
        proof {
            assert(out@ =~= before + header + month_block(*g, cy, cm));
            assert(rows_newest_first(prefix, last_year, cy, cm)
                == header + month_block(*g, cy, cm) + rows_newest_first(groups@.take(k - 1), Some(g.year), cy, cm));
            assert(out@ + rows_newest_first(groups@.take(k - 1), Some(g.year), cy, cm)
                =~= before + rows_newest_first(prefix, last_year, cy, cm));
        }
        last_year = Some(g.year);
        k = k - 1;
    }
    proof {
        assert(groups@.take(0) =~= Seq::<MonthGroup>::empty());
        assert(out@ + Seq::<JournalRow>::empty() =~= out@);
    }
    out
}

/// The trades that journal rows list, in row order.
pub open spec fn trade_rows(rows: Seq<JournalRow>) -> Seq<usize>
    decreases rows.len(),
{
    if rows.len() == 0 {
        Seq::empty()
    } else {
        let prev = trade_rows(rows.drop_last());
        match rows.last() {
            JournalRow::Trade(t) => prev.push(t),
            _ => prev,
        }
    }
}

proof fn lemma_trade_rows_concat(a: Seq<JournalRow>, b: Seq<JournalRow>)
    ensures
        trade_rows(a + b) == trade_rows(a) + trade_rows(b),
    decreases b.len(),
{
    if b.len() == 0 {
        assert(a + b =~= a);
        assert(trade_rows(a) + trade_rows(b) =~= trade_rows(a));
    } else {
        lemma_trade_rows_concat(a, b.drop_last());
        assert((a + b).drop_last() =~= a + b.drop_last());
        assert((a + b).last() == b.last());
        if let JournalRow::Trade(t) = b.last() {
            assert(trade_rows(a) + trade_rows(b.drop_last()).push(t) =~= (trade_rows(a) + trade_rows(b.drop_last())).push(t));
        }
    }
}

proof fn lemma_trade_rows_of_trades(m: Seq<usize>)
    ensures
        trade_rows(m.map_values(|t: usize| JournalRow::Trade(t))) == m,
    decreases m.len(),
{
    if m.len() > 0 {
        lemma_trade_rows_of_trades(m.drop_last());
        assert(m.map_values(|t: usize| JournalRow::Trade(t)).drop_last() =~= m.drop_last().map_values(|t: usize| JournalRow::Trade(t)));
        assert(m.drop_last().push(m.last()) =~= m);
    }
}

/// The members of month groups `gs` (oldest first), newest month first.
pub open spec fn members_newest_first(gs: Seq<MonthGroup>) -> Seq<usize>
    decreases gs.len(),
{
    if gs.len() == 0 {
        Seq::empty()
    } else {
        gs.last().members@ + members_newest_first(gs.drop_last())
    }
}

proof fn lemma_open_rows_list_members(gs: Seq<MonthGroup>, last_year: Option<i32>)
    ensures
        trade_rows(rows_newest_first(gs, last_year, Seq::empty(), Seq::empty())) == members_newest_first(gs),
    decreases gs.len(),
{
    if gs.len() > 0 {
        let g = gs.last();
        let none_y = Seq::<i32>::empty();
        let none_m = Seq::<(i32, u32)>::empty();
        lemma_open_rows_list_members(gs.drop_last(), Some(g.year));
        let header = if last_year == Some(g.year) { Seq::<JournalRow>::empty() } else { seq![JournalRow::YearHeader { year: g.year }] };
        let month_header = seq![JournalRow::MonthHeader { year: g.year, month: g.month }];
        let trades = g.members@.map_values(|t: usize| JournalRow::Trade(t));
        let rest = rows_newest_first(gs.drop_last(), Some(g.year), none_y, none_m);
        assert(!none_y.contains(g.year));
        assert(!none_m.contains((g.year, g.month)));
        assert(month_block(g, none_y, none_m) == month_header + trades);
        lemma_trade_rows_concat(header + (month_header + trades), rest);
        lemma_trade_rows_concat(header, month_header + trades);
        lemma_trade_rows_concat(month_header, trades);
        lemma_trade_rows_of_trades(g.members@);
        assert(trade_rows(Seq::<JournalRow>::empty()) =~= Seq::<usize>::empty());
        assert(month_header.drop_last() =~= Seq::<JournalRow>::empty());
        assert(trade_rows(month_header) =~= Seq::<usize>::empty());
        if header.len() > 0 {
            assert(header.drop_last() =~= Seq::<JournalRow>::empty());
        }
        assert(trade_rows(header) =~= Seq::<usize>::empty());
        assert(header + month_block(g, none_y, none_m) + rest =~= header + (month_header + trades) + rest);
    }
}

proof fn lemma_members_count(order: Seq<usize>, keys: Seq<(i32, u32)>, m: (i32, u32), t: usize)
    ensures
        members_of(order, keys, m).to_multiset().count(t)
            == (if keys[t as int] == m { order.to_multiset().count(t) } else { 0 }),
    decreases order.len(),
{
    broadcast use vstd::seq_lib::group_to_multiset_ensures;
    if order.len() > 0 {
        lemma_members_count(order.drop_last(), keys, m, t);
        assert(order =~= order.drop_last().push(order.last()));
    }
}

proof fn lemma_newest_first_count(gs: Seq<MonthGroup>, order: Seq<usize>, keys: Seq<(i32, u32)>, t: usize)
    requires
        ascending_months(gs.map_values(|x: MonthGroup| group_month(x))),
        forall|i: int| 0 <= i < gs.len() ==> (#[trigger] gs[i]).members@ == members_of(order, keys, group_month(gs[i])),
    ensures
        members_newest_first(gs).to_multiset().count(t) == (if gs.map_values(|x: MonthGroup| group_month(x)).contains(keys[t as int]) {
            order.to_multiset().count(t)
        } else {
            0
        }),
    decreases gs.len(),
{
    broadcast use vstd::seq_lib::group_to_multiset_ensures;
    let ms = gs.map_values(|x: MonthGroup| group_month(x));
    if gs.len() > 0 {
        let p = gs.drop_last();
        let pms = p.map_values(|x: MonthGroup| group_month(x));
        assert(pms =~= ms.drop_last());
        assert forall|i: int, j: int| #![trigger pms[i], pms[j]] 0 <= i < j < pms.len() implies month_before(pms[i], pms[j]) by {
            assert(pms[i] == ms[i] && pms[j] == ms[j]);
        }
        assert forall|i: int| 0 <= i < p.len() implies (#[trigger] p[i]).members@ == members_of(order, keys, group_month(p[i])) by {
            assert(p[i] == gs[i]);
        }
        lemma_newest_first_count(p, order, keys, t);
        let g = gs.last();
        assert(gs[gs.len() - 1] == g);
        lemma_members_count(order, keys, group_month(g), t);
        vstd::seq_lib::lemma_multiset_commutative(g.members@, members_newest_first(p));
        assert(ms[ms.len() - 1] == group_month(g));
        if keys[t as int] == group_month(g) {
            if pms.contains(keys[t as int]) {
                let i = choose|i: int| 0 <= i < pms.len() && pms[i] == keys[t as int];
                assert(ms[i] == pms[i]);
                assert(month_before(ms[i], ms[ms.len() - 1]));
            }
            assert(ms.contains(keys[t as int]));
        } else {
            if ms.contains(keys[t as int]) {
                let i = choose|i: int| 0 <= i < ms.len() && ms[i] == keys[t as int];
                assert(i < ms.len() - 1);
                assert(pms[i] == ms[i]);
            }
            if pms.contains(keys[t as int]) {
                let i = choose|i: int| 0 <= i < pms.len() && pms[i] == keys[t as int];
                assert(ms[i] == pms[i]);
            }
        }
    }
}

/// With no year or month collapsed, the journal rows built from month
/// groups of `order` (as `rebuild_visual_rows` builds them) list every
/// trade of `order` exactly as often as `order` does: no trade is lost or
/// shown twice.
pub proof fn lemma_open_journal_lists_every_trade(gs: Seq<MonthGroup>, order: Seq<usize>, keys: Seq<(i32, u32)>)
    requires
        ascending_months(gs.map_values(|x: MonthGroup| group_month(x))),
        forall|k: (i32, u32)| gs.map_values(|x: MonthGroup| group_month(x)).contains(k) <==> months_of(order, keys).contains(k),
        forall|i: int| 0 <= i < gs.len() ==> (#[trigger] gs[i]).members@ == members_of(order, keys, group_month(gs[i])),
    ensures
        trade_rows(rows_newest_first(gs, None, Seq::empty(), Seq::empty())).to_multiset() =~= order.to_multiset(),
{
    broadcast use vstd::seq_lib::group_to_multiset_ensures;
    lemma_open_rows_list_members(gs, None);
    assert forall|t: usize| members_newest_first(gs).to_multiset().count(t) == order.to_multiset().count(t) by {
        lemma_newest_first_count(gs, order, keys, t);
        if order.to_multiset().count(t) > 0 {
            assert(order.contains(t));
            let p = choose|p: int| 0 <= p < order.len() && order[p] == t;
            assert(months_of(order, keys)[p] == keys[t as int]);
            assert(months_of(order, keys).contains(keys[t as int]));
        }
    }
}

/// The journal table for the trades `order` (filtered and sorted), each
/// trade's month given by `keys`.
pub fn rebuild_visual_rows(
    order: &[usize],
    keys: &[(i32, u32)],
    collapsed_years: &[i32],
    collapsed_months: &[(i32, u32)],
) -> (r: Vec<JournalRow>)
    requires
        forall|p: int| 0 <= p < order@.len() ==> order@[p] < keys@.len(),
    ensures
        exists|gs: Seq<MonthGroup>|
            #![trigger rows_newest_first(gs, None::<i32>, collapsed_years@, collapsed_months@)]
            {
                &&& ascending_months(gs.map_values(|x: MonthGroup| group_month(x)))
                &&& forall|k: (i32, u32)|
                    gs.map_values(|x: MonthGroup| group_month(x)).contains(k) <==> months_of(order@, keys@).contains(k)
                &&& forall|i: int| 0 <= i < gs.len() ==> (#[trigger] gs[i]).members@ == members_of(order@, keys@, group_month(gs[i]))
                &&& r@ == rows_newest_first(gs, None, collapsed_years@, collapsed_months@)
            },
        collapsed_years@.len() == 0 && collapsed_months@.len() == 0
            ==> trade_rows(r@).to_multiset() =~= order@.to_multiset(),
{
    let groups = group_by_month(order, keys);
    let r = journal_rows(groups.as_slice(), collapsed_years, collapsed_months);
    proof {
        if collapsed_years@.len() == 0 && collapsed_months@.len() == 0 {
            assert(collapsed_years@ =~= Seq::<i32>::empty());
            assert(collapsed_months@ =~= Seq::<(i32, u32)>::empty());
            lemma_open_journal_lists_every_trade(groups@, order@, keys@);
        }
    }
    r
}

} // verus!
