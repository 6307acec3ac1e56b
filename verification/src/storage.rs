//! The journal's record formats and the decisions of its store: how tags are
//! kept in one column, how a CSV field is written, and how a roll chain is
//! walked back to the trade it started from.
use vstd::prelude::*;
use crate::playbooks::unseeded;
use crate::text::{
    chars_of, str_in_list, join_strings, join_with, nonempty_pieces, push_char, split_nonempty, split_pieces,
    str_contains_char,
};

verus! {

// ───────────────────────────── schema upgrades ─────────────────────────────

/// Which of the columns `wanted` the trades table still lacks, given the
/// columns it has: their positions in `wanted`, in order.
pub fn missing_columns(wanted: &[&str], existing: &[String]) -> (r: Vec<usize>)
    ensures
        r@.map_values(|i: usize| i as int) == unseeded(
            wanted@.map_values(|w: &str| w@),
            existing@.map_values(|t: String| t@),
        ),
{
    let ghost names = wanted@.map_values(|w: &str| w@);
    let mut r: Vec<usize> = Vec::new();
    let mut i: usize = 0;
    while i < wanted.len()
        invariant
            i <= wanted@.len(),
            names == wanted@.map_values(|w: &str| w@),
            r@.map_values(|k: usize| k as int) == unseeded(names.take(i as int), existing@.map_values(|t: String| t@)),
        decreases wanted@.len() - i,
    {
        proof {
            assert(names.take(i + 1).drop_last() =~= names.take(i as int));
            assert(names.take(i + 1).last() == wanted@[i as int]@);
        }
        if !str_in_list(existing, wanted[i]) {
            r.push(i);
            proof {
                assert(r@.map_values(|k: usize| k as int) =~= unseeded(names.take(i as int), existing@.map_values(|t: String| t@)).push(i as int));
            }
        }
        i = i + 1;
    }
    proof {
        assert(names.take(i as int) =~= names);
    }
    r
}

// ───────────────────────────── tags ─────────────────────────────

/// The tags stored in the tags column `s`: its non-empty comma-separated
/// pieces (no column gives no tags).
pub open spec fn tags_of_column(s: Option<Seq<char>>) -> Seq<Seq<char>> {
    match s {
        Some(t) => nonempty_pieces(split_pieces(t, ',')),
        None => Seq::empty(),
    }
}

/// Reads the tags column.
pub fn parse_tags(column: Option<&str>) -> (r: Vec<String>)
    ensures
        r@.map_values(|t: String| t@) == tags_of_column(match column { Some(c) => Some(c@), None => None }),
{
    match column {
        Some(c) => split_nonempty(c, ','),
        None => {
            let v: Vec<String> = Vec::new();
            proof {
                assert(v@.map_values(|t: String| t@) =~= Seq::<Seq<char>>::empty());
            }
            v
        },
    }
}

/// Writes tags into one column, comma-separated.
pub fn join_tags(tags: &[String]) -> (r: String)
    ensures
        r@ == join_with(tags@.map_values(|t: String| t@), ","@),
{
    join_strings(tags, ",")
}

/// Tags that are non-empty and hold no comma come back unchanged from the
/// column they are written to.
pub proof fn lemma_tags_round_trip(tags: Seq<Seq<char>>)
    requires
        forall|i: int| 0 <= i < tags.len() ==> (#[trigger] tags[i]).len() > 0 && !tags[i].contains(','),
    ensures
        tags_of_column(Some(join_with(tags, ","@))) == tags,
{
    reveal_strlit(",");
    assert(","@ =~= seq![',']);
    crate::text::lemma_split_nonempty_join(tags, ',');
}

// ───────────────────────────── CSV fields ─────────────────────────────

/// `s` with every double quote doubled.
pub open spec fn double_quotes(s: Seq<char>) -> Seq<char>
    decreases s.len(),
{
    if s.len() == 0 {
        Seq::empty()
    } else if s.last() == '"' {
        double_quotes(s.drop_last()) + seq!['"', '"']
    } else {
        double_quotes(s.drop_last()).push(s.last())
    }
}

/// Whether a CSV field must be quoted: it holds a comma, a double quote or a
/// line feed.
pub open spec fn needs_quoting(s: Seq<char>) -> bool {
    s.contains(',') || s.contains('"') || s.contains('\n')
}

/// How a text is written as one CSV field.
pub open spec fn csv_field_spec(s: Seq<char>) -> Seq<char> {
    if needs_quoting(s) {
        seq!['"'] + double_quotes(s) + seq!['"']
    } else {
        s
    }
}

/// Writes `s` as one CSV field: quoted, with inner quotes doubled, when it
/// holds a comma, a quote or a line feed; as it is otherwise.
pub fn csv_field(s: &str) -> (r: String)
    ensures
        r@ == csv_field_spec(s@),
{
    let quote = str_contains_char(s, ',') || str_contains_char(s, '"') || str_contains_char(s, '\n');
    if !quote {
        return s.to_string();
    }
    let cs = chars_of(s);
    let mut r = String::new();
    push_char(&mut r, '"');
    let mut i: usize = 0;
    proof {
        assert(cs@.take(0) =~= Seq::<char>::empty());
        assert(r@ =~= seq!['"'] + double_quotes(Seq::<char>::empty()));
    }
    while i < cs.len()
        invariant
            i <= cs@.len(),
            cs@ == s@,
            r@ == seq!['"'] + double_quotes(cs@.take(i as int)),
        decreases cs@.len() - i,
    {
        let c = cs[i];
        proof {
            assert(cs@.take(i + 1).drop_last() =~= cs@.take(i as int));
            assert(cs@.take(i + 1).last() == c);
        }
        if c == '"' {
            push_char(&mut r, '"');
            push_char(&mut r, '"');
        } else {
            push_char(&mut r, c);
        }
        proof {
            assert(r@ =~= seq!['"'] + double_quotes(cs@.take(i + 1)));
        }
        i = i + 1;
    }
    push_char(&mut r, '"');
    proof {
        assert(cs@.take(i as int) =~= cs@);
        assert(r@ =~= seq!['"'] + double_quotes(s@) + seq!['"']);
    }
    r
}

/// The text a quoted CSV field stands for: the characters between the
/// outer quotes, with each doubled quote read as one.
pub open spec fn undouble_quotes(s: Seq<char>) -> Seq<char>
    decreases s.len(),
{
    if s.len() == 0 {
        Seq::empty()
    } else if s.len() >= 2 && s[0] == '"' && s[1] == '"' {
        seq!['"'] + undouble_quotes(s.skip(2))
    } else {
        seq![s[0]] + undouble_quotes(s.skip(1))
    }
}

proof fn lemma_double_quotes_append(a: Seq<char>, b: Seq<char>)
    ensures
        double_quotes(a + b) == double_quotes(a) + double_quotes(b),
    decreases b.len(),
{
    if b.len() == 0 {
        assert(a + b =~= a);
        assert(double_quotes(a) + double_quotes(b) =~= double_quotes(a));
    } else {
        lemma_double_quotes_append(a, b.drop_last());
        assert((a + b).drop_last() =~= a + b.drop_last());
        assert((a + b).last() == b.last());
    }
}

proof fn lemma_undouble_double(s: Seq<char>)
    ensures
        undouble_quotes(double_quotes(s)) == s,
    decreases s.len(),
{
    if s.len() > 0 {
        let first = s[0];
        let rest = s.skip(1);
        assert(seq![first] + rest =~= s);
        lemma_double_quotes_append(seq![first], rest);
        assert(seq![first].drop_last() =~= Seq::<char>::empty());
        assert(seq![first].last() == first);
        assert(double_quotes(Seq::<char>::empty()) == Seq::<char>::empty());
        let head = double_quotes(seq![first]);
        if first == '"' {
            assert(head =~= seq!['"', '"']);
            assert((head + double_quotes(rest)).skip(2) =~= double_quotes(rest));
        } else {
            assert(head =~= seq![first]);
            assert((head + double_quotes(rest)).skip(1) =~= double_quotes(rest));
        }
        lemma_undouble_double(rest);
    }
}

/// A CSV reader that strips the outer quotes of a quoted field and reads
/// each doubled quote as one gets back exactly the text that was written.
pub proof fn lemma_csv_field_reads_back(s: Seq<char>)
    ensures
        needs_quoting(s) ==> {
            let f = csv_field_spec(s);
            &&& f.len() >= 2
            &&& f[0] == '"'
            &&& f.last() == '"'
            &&& undouble_quotes(f.subrange(1, f.len() - 1)) == s
        },
        !needs_quoting(s) ==> csv_field_spec(s) == s,
{
    if needs_quoting(s) {
        let f = csv_field_spec(s);
        assert(f.subrange(1, f.len() - 1) =~= double_quotes(s));
        lemma_undouble_double(s);
    }
}

// ───────────────────────────── roll chains ─────────────────────────────

/// How many trades a roll chain walk visits at most.
pub const MAX_ROLL_DEPTH: usize = 50;

/// A walk from a trade back through the trades it was rolled from.
///
/// The store looks up each trade that `pending` names and reports it with
/// `record` (or `stop` when it is missing); the walk ends when no trade is
/// pending.
pub struct RollWalk {
    visited: Vec<i32>,
    next: Option<i32>,
}

impl RollWalk {
    /// Ids of the trades found so far, newest first.
    pub closed spec fn visited_ids(&self) -> Seq<i32> {
        self.visited@
    }

    /// The id to look up next, before the depth limit is applied.
    pub closed spec fn next_id(&self) -> Option<i32> {
        self.next
    }

    /// What `pending` returns.
    pub open spec fn pending_spec(&self) -> Option<i32> {
        if self.visited_ids().len() < MAX_ROLL_DEPTH { self.next_id() } else { None }
    }

    /// A walk that starts at trade `start_id`.
    pub fn new(start_id: i32) -> (w: RollWalk)
        ensures
            w.visited_ids() == Seq::<i32>::empty(),
            w.next_id() == Some(start_id),
    {
        RollWalk { visited: Vec::new(), next: Some(start_id) }
    }

    /// The trade to look up next, if the walk goes on.
    pub fn pending(&self) -> (r: Option<i32>)
        ensures
            r == self.pending_spec(),
    {
        if self.visited.len() < MAX_ROLL_DEPTH { self.next } else { None }
    }

    /// Records the trade `id` that was found, rolled from `parent`.
    pub fn record(&mut self, id: i32, parent: Option<i32>)
        requires
            old(self).pending_spec() == Some(id),
        ensures
            final(self).visited_ids() == old(self).visited_ids().push(id),
            final(self).visited_ids().len() <= MAX_ROLL_DEPTH,
            final(self).next_id() == parent,
    {
        self.visited.push(id);
        self.next = parent;
    }

    /// Ends the walk: the pending trade could not be read.
    pub fn stop(&mut self)
        ensures
            final(self).visited_ids() == old(self).visited_ids(),
            final(self).next_id() is None,
    {
        self.next = None;
    }

    /// Ids of the trades found, newest first.
    pub fn visited(&self) -> (r: Vec<i32>)
        ensures
            r@ == self.visited_ids(),
    {
        self.visited.clone()
    }

    /// Positions in the visit order that list the chain oldest first.
    pub fn oldest_first(&self) -> (r: Vec<usize>)
        ensures
            r@.len() == self.visited_ids().len(),
            forall|i: int| 0 <= i < r@.len() ==> r@[i] == self.visited_ids().len() - 1 - i,
    {
        let n = self.visited.len();
        let mut r: Vec<usize> = Vec::new();
        let mut k: usize = n;
        while k > 0
            invariant
                k <= n,
                n == self.visited_ids().len(),
                r@.len() == n - k,
                forall|i: int| 0 <= i < r@.len() ==> r@[i] == n - 1 - i,
            decreases k,
        {
            k = k - 1;
            r.push(k);
        }
        r
    }
}

} // verus!
