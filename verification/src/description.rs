//! The one-line description of a trade's legs shown in the journal
//! (`580/575P`, `-1 100C / +2 95C`, ...).
use vstd::prelude::*;
use crate::models::LegType;
use crate::text::{push_decimal_i64, push_str, signed_decimal, str_eq};

verus! {

/// What the description reads of one leg: its type, its quantity and its
/// strike already written as text (whole dollars).
#[derive(Clone, Debug)]
pub struct LegSummary {
    pub leg_type: LegType,
    pub quantity: Option<i32>,
    pub strike_text: String,
}

/// Position of the first leg of type `t`, if any.
pub open spec fn first_leg(legs: Seq<LegSummary>, t: LegType) -> Option<int>
    decreases legs.len(),
{
    if legs.len() == 0 {
        None
    } else if legs[0].leg_type == t {
        Some(0)
    } else {
        match first_leg(legs.drop_first(), t) {
            Some(i) => Some(i + 1),
            None => None,
        }
    }
}

/// The strike text of the leg at `i`.
pub open spec fn strike_at(legs: Seq<LegSummary>, i: int) -> Seq<char> {
    legs[i].strike_text@
}

/// One leg as written in a free-form description: sign, quantity (one when
/// none is given), strike and right (`-1 100C`).
pub open spec fn leg_text(l: LegSummary) -> Seq<char> {
    (if l.leg_type is ShortPut || l.leg_type is ShortCall { "-"@ } else { "+"@ })
        + signed_decimal(match l.quantity { Some(q) => q as int, None => 1 })
        + " "@ + l.strike_text@
        + (if l.leg_type is ShortCall || l.leg_type is LongCall { "C"@ } else { "P"@ })
}

/// Every leg as written in a free-form description, joined by ` / `.
pub open spec fn legs_text(legs: Seq<LegSummary>) -> Seq<char>
    decreases legs.len(),
{
    if legs.len() == 0 {
        Seq::empty()
    } else if legs.len() == 1 {
        leg_text(legs[0])
    } else {
        legs_text(legs.drop_last()) + " / "@ + leg_text(legs.last())
    }
}

/// Two strikes with text between and after them (`580/575P`); `N/A` when
/// either leg is missing.
pub open spec fn pair_layout(legs: Seq<LegSummary>, a: Option<int>, b: Option<int>, mid: Seq<char>, tail: Seq<char>) -> Seq<char> {
    if a is Some && b is Some {
        strike_at(legs, a->0) + mid + strike_at(legs, b->0) + tail
    } else {
        "N/A"@
    }
}

/// One strike with text after it (`580P CSP`); `N/A` when the leg is missing.
pub open spec fn single_layout(legs: Seq<LegSummary>, a: Option<int>, tail: Seq<char>) -> Seq<char> {
    if a is Some { strike_at(legs, a->0) + tail } else { "N/A"@ }
}

/// The calendar layout: the short call's strike, else the short put's,
/// else `0`, then the right and ` Cal`.
pub open spec fn calendar_layout(legs: Seq<LegSummary>, sc: Option<int>, sp: Option<int>) -> Seq<char> {
    (if sc is Some { strike_at(legs, sc->0) } else if sp is Some { strike_at(legs, sp->0) } else { "0"@ })
        + (if sc is Some { "C"@ } else { "P"@ }) + " Cal"@
}

/// The diagonal layout: short leg (call first), long leg (call first), the
/// right (calls when either call leg exists) and the badge.
pub open spec fn diagonal_layout(
    legs: Seq<LegSummary>,
    sc: Option<int>,
    sp: Option<int>,
    lc: Option<int>,
    lp: Option<int>,
    badge: Seq<char>,
) -> Seq<char> {
    let short_leg = if sc is Some { sc } else { sp };
    let long_leg = if lc is Some { lc } else { lp };
    let right = if sc is Some || lc is Some { "C"@ } else { "P"@ };
    pair_layout(legs, short_leg, long_leg, "/"@, right + " "@ + badge)
}

/// The description of legs `legs` for the spread type key `spread`; `N/A`
/// where there are no legs, where the spread type has no layout, or where
/// the legs its layout needs are missing.
pub open spec fn describe(legs: Seq<LegSummary>, spread: Seq<char>) -> Seq<char> {
    let sp = first_leg(legs, LegType::ShortPut);
    let lp = first_leg(legs, LegType::LongPut);
    let sc = first_leg(legs, LegType::ShortCall);
    let lc = first_leg(legs, LegType::LongCall);
    if legs.len() == 0 {
        "N/A"@
    } else if spread == "short_put_vertical"@ {
        pair_layout(legs, sp, lp, "/"@, "P"@)
    } else if spread == "short_call_vertical"@ {
        pair_layout(legs, sc, lc, "/"@, "C"@)
    } else if spread == "iron_condor"@ || spread == "iron_butterfly"@ {
        if lp is Some && sp is Some && sc is Some && lc is Some {
            pair_layout(legs, lp, sp, "/"@, "P | "@) + pair_layout(legs, sc, lc, "/"@, "C"@)
        } else {
            "N/A"@
        }
    } else if spread == "strangle"@ {
        pair_layout(legs, sp, sc, "P | "@, "C"@)
    } else if spread == "straddle"@ {
        single_layout(legs, sp, " Straddle"@)
    } else if spread == "cash_secured_put"@ {
        single_layout(legs, sp, "P CSP"@)
    } else if spread == "covered_call"@ {
        single_layout(legs, sc, "C CC"@)
    } else if spread == "calendar_spread"@ {
        calendar_layout(legs, sc, sp)
    } else if spread == "pmcc"@ {
        pair_layout(legs, lc, sc, "/"@, "C PMCC"@)
    } else if spread == "long_diagonal_spread"@ {
        diagonal_layout(legs, sc, sp, lc, lp, "LDS"@)
    } else if spread == "short_diagonal_spread"@ {
        diagonal_layout(legs, sc, sp, lc, lp, "SDS"@)
    } else if spread == "custom"@ || spread == "put_broken_wing_butterfly"@ {
        legs_text(legs)
    } else {
        "N/A"@
    }
}

/// Position of the first leg of type `t`.
fn find_leg(legs: &[LegSummary], t: LegType) -> (r: Option<usize>)
    ensures
        match r {
            Some(i) => first_leg(legs@, t) == Some(i as int) && i < legs@.len(),
            None => first_leg(legs@, t) is None,
        },
{
    let mut i: usize = 0;
    while i < legs.len()
        invariant
            i <= legs@.len(),
            forall|k: int| 0 <= k < i ==> legs@[k].leg_type != t,
        decreases legs@.len() - i,
    {
        if legs[i].leg_type == t {
            proof {
                lemma_first_leg_at(legs@, t, i as int);
            }
            return Some(i);
        }
        i = i + 1;
    }
    proof {
        lemma_first_leg_none(legs@, t);
    }
    None
}

proof fn lemma_first_leg_at(legs: Seq<LegSummary>, t: LegType, i: int)
    requires
        0 <= i < legs.len(),
        legs[i].leg_type == t,
        forall|k: int| 0 <= k < i ==> legs[k].leg_type != t,
    ensures
        first_leg(legs, t) == Some(i),
    decreases i,
{
    if i > 0 {
        let rest = legs.drop_first();
        assert forall|k: int| 0 <= k < i - 1 implies rest[k].leg_type != t by {
            assert(rest[k] == legs[k + 1]);
        }
        lemma_first_leg_at(rest, t, i - 1);
    }
}

proof fn lemma_first_leg_none(legs: Seq<LegSummary>, t: LegType)
    requires
        forall|k: int| 0 <= k < legs.len() ==> legs[k].leg_type != t,
    ensures
        first_leg(legs, t) is None,
    decreases legs.len(),
{
    if legs.len() > 0 {
        let rest = legs.drop_first();
        assert forall|k: int| 0 <= k < rest.len() implies rest[k].leg_type != t by {
            assert(rest[k] == legs[k + 1]);
        }
        lemma_first_leg_none(rest, t);
    }
}

fn push_leg_text(s: &mut String, l: &LegSummary)
    ensures
        final(s)@ == old(s)@ + leg_text(*l),
{
    let sign = if l.leg_type.is_short() { "-" } else { "+" };
    push_str(s, sign);
    let q: i32 = match l.quantity {
        Some(q) => q,
        None => 1,
    };
    push_decimal_i64(s, q as i64);
    push_str(s, " ");
    push_str(s, l.strike_text.as_str());
    let right = if l.leg_type.is_call() { "C" } else { "P" };
    push_str(s, right);
    proof {
        assert(final(s)@ =~= old(s)@ + leg_text(*l));
    }
}

/// A found position as a spec index.
pub open spec fn opt_index(r: Option<usize>) -> Option<int> {
    match r {
        Some(i) => Some(i as int),
        None => None,
    }
}

fn na() -> (r: String)
    ensures
        r@ == "N/A"@,
{
    "N/A".to_string()
}

fn pair_text(legs: &[LegSummary], a: Option<usize>, b: Option<usize>, mid: &str, tail: &str) -> (r: String)
    requires
        a matches Some(i) ==> i < legs@.len(),
        b matches Some(i) ==> i < legs@.len(),
    ensures
        r@ == pair_layout(legs@, opt_index(a), opt_index(b), mid@, tail@),
{
    match (a, b) {
        (Some(x), Some(y)) => {
            let mut out = String::new();
            push_str(&mut out, legs[x].strike_text.as_str());
            push_str(&mut out, mid);
            push_str(&mut out, legs[y].strike_text.as_str());
            push_str(&mut out, tail);
            proof {
                assert(out@ =~= pair_layout(legs@, opt_index(a), opt_index(b), mid@, tail@));
            }
            out
        },
        _ => na(),
    }
}

fn single_text(legs: &[LegSummary], a: Option<usize>, tail: &str) -> (r: String)
    requires
        a matches Some(i) ==> i < legs@.len(),
    ensures
        r@ == single_layout(legs@, opt_index(a), tail@),
{
    match a {
        Some(x) => {
            let mut out = String::new();
            push_str(&mut out, legs[x].strike_text.as_str());
            push_str(&mut out, tail);
            proof {
                assert(out@ =~= single_layout(legs@, opt_index(a), tail@));
            }
            out
        },
        None => na(),
    }
}

fn calendar_text(legs: &[LegSummary], sc: Option<usize>, sp: Option<usize>) -> (r: String)
    requires
        sc matches Some(i) ==> i < legs@.len(),
        sp matches Some(i) ==> i < legs@.len(),
    ensures
        r@ == calendar_layout(legs@, opt_index(sc), opt_index(sp)),
{
    let strike: &str = match sc {
        Some(a) => legs[a].strike_text.as_str(),
        None => match sp {
            Some(b) => legs[b].strike_text.as_str(),
            None => "0",
        },
    };
    let right = if sc.is_some() { "C" } else { "P" };
    let mut out = String::new();
    push_str(&mut out, strike);
    push_str(&mut out, right);
    push_str(&mut out, " Cal");
    proof {
        assert(out@ =~= calendar_layout(legs@, opt_index(sc), opt_index(sp)));
    }
    out
}

fn diagonal_text(
    legs: &[LegSummary],
    sc: Option<usize>,
    sp: Option<usize>,
    lc: Option<usize>,
    lp: Option<usize>,
    badge: &str,
) -> (r: String)
    requires
        sc matches Some(i) ==> i < legs@.len(),
        sp matches Some(i) ==> i < legs@.len(),
        lc matches Some(i) ==> i < legs@.len(),
        lp matches Some(i) ==> i < legs@.len(),
    ensures
        r@ == diagonal_layout(legs@, opt_index(sc), opt_index(sp), opt_index(lc), opt_index(lp), badge@),
{
    let short_leg = if sc.is_some() { sc } else { sp };
    let long_leg = if lc.is_some() { lc } else { lp };
    let mut tail = String::new();
    let right = if sc.is_some() || lc.is_some() { "C" } else { "P" };
    push_str(&mut tail, right);
    push_str(&mut tail, " ");
    push_str(&mut tail, badge);
    proof {
        assert(tail@ =~= right@ + " "@ + badge@);
    }
    pair_text(legs, short_leg, long_leg, "/", tail.as_str())
}

fn custom_text(legs: &[LegSummary]) -> (r: String)
    ensures
        r@ == legs_text(legs@),
{
    let mut out = String::new();
    let mut i: usize = 0;
    proof {
        assert(legs@.take(0) =~= Seq::<LegSummary>::empty());
    }
    while i < legs.len()
        invariant
            i <= legs@.len(),
            out@ == legs_text(legs@.take(i as int)),
        decreases legs@.len() - i,
    {
        proof {
            assert(legs@.take(i + 1).drop_last() =~= legs@.take(i as int));
            assert(legs@.take(i + 1).last() == legs@[i as int]);
        }
        if i > 0 {
            push_str(&mut out, " / ");
        }
        push_leg_text(&mut out, &legs[i]);
        proof {
            if i == 0 {
                assert(legs@.take(1)[0] == legs@[0]);
                assert(out@ =~= legs_text(legs@.take(1)));
            }
        }
        i = i + 1;
    }
    proof {
        assert(legs@.take(i as int) =~= legs@);
    }
    out
}

/// The description of a trade's legs for its spread type key, as the
/// journal shows it.
pub fn format_trade_description(legs: &[LegSummary], spread_type: &str) -> (r: String)
    ensures
        r@ == describe(legs@, spread_type@),
{
    if legs.len() == 0 {
        return na();
    }
    let sp = find_leg(legs, LegType::ShortPut);
    let lp = find_leg(legs, LegType::LongPut);
    let sc = find_leg(legs, LegType::ShortCall);
    let lc = find_leg(legs, LegType::LongCall);
    let st = spread_type;
    if str_eq(st, "short_put_vertical") {
        pair_text(legs, sp, lp, "/", "P")
    } else if str_eq(st, "short_call_vertical") {
        pair_text(legs, sc, lc, "/", "C")
    } else if str_eq(st, "iron_condor") || str_eq(st, "iron_butterfly") {
        if lp.is_some() && sp.is_some() && sc.is_some() && lc.is_some() {
            let left = pair_text(legs, lp, sp, "/", "P | ");
            let right = pair_text(legs, sc, lc, "/", "C");
            let mut out = String::new();
            push_str(&mut out, left.as_str());
            push_str(&mut out, right.as_str());
            proof {
                assert(out@ =~= left@ + right@);
            }
            out
        } else {
            na()
        }
    } else if str_eq(st, "strangle") {
        pair_text(legs, sp, sc, "P | ", "C")
    } else {
        describe_rest(legs, st, sp, lp, sc, lc)
    }
}

fn describe_rest(
    legs: &[LegSummary],
    st: &str,
    sp: Option<usize>,
    lp: Option<usize>,
    sc: Option<usize>,
    lc: Option<usize>,
) -> (r: String)
    requires
        legs@.len() > 0,
        opt_index(sp) == first_leg(legs@, LegType::ShortPut),
        opt_index(lp) == first_leg(legs@, LegType::LongPut),
        opt_index(sc) == first_leg(legs@, LegType::ShortCall),
        opt_index(lc) == first_leg(legs@, LegType::LongCall),
        sp matches Some(i) ==> i < legs@.len(),
        lp matches Some(i) ==> i < legs@.len(),
        sc matches Some(i) ==> i < legs@.len(),
        lc matches Some(i) ==> i < legs@.len(),
        st@ != "short_put_vertical"@,
        st@ != "short_call_vertical"@,
        st@ != "iron_condor"@,
        st@ != "iron_butterfly"@,
        st@ != "strangle"@,
    ensures
        r@ == describe(legs@, st@),
{
    if str_eq(st, "straddle") {
        single_text(legs, sp, " Straddle")
    } else if str_eq(st, "cash_secured_put") {
        single_text(legs, sp, "P CSP")
    } else if str_eq(st, "covered_call") {
        single_text(legs, sc, "C CC")
    } else if str_eq(st, "calendar_spread") {
        calendar_text(legs, sc, sp)
    } else if str_eq(st, "pmcc") {
        pair_text(legs, lc, sc, "/", "C PMCC")
    } else if str_eq(st, "long_diagonal_spread") {
        diagonal_text(legs, sc, sp, lc, lp, "LDS")
    } else if str_eq(st, "short_diagonal_spread") {
        diagonal_text(legs, sc, sp, lc, lp, "SDS")
    } else if str_eq(st, "custom") || str_eq(st, "put_broken_wing_butterfly") {
        custom_text(legs)
    } else {
        na()
    }
}


/// The free-form spread types describe every leg, in order, joined by
/// ` / `: the put broken-wing butterfly is written as a custom position; a
/// single leg is written alone; and one more leg adds ` / ` and that leg to
/// the end.
pub proof fn lemma_free_form_lists_every_leg(legs: Seq<LegSummary>, l: LegSummary)
    ensures
        legs.len() > 0 ==> describe(legs, "put_broken_wing_butterfly"@) == describe(legs, "custom"@),
        describe(seq![l], "custom"@) == leg_text(l),
        legs.len() > 0 ==> describe(legs.push(l), "custom"@) == describe(legs, "custom"@) + " / "@ + leg_text(l),
{
    reveal_strlit("short_put_vertical");
    reveal_strlit("short_call_vertical");
    reveal_strlit("iron_condor");
    reveal_strlit("iron_butterfly");
    reveal_strlit("strangle");
    reveal_strlit("straddle");
    reveal_strlit("cash_secured_put");
    reveal_strlit("covered_call");
    reveal_strlit("calendar_spread");
    reveal_strlit("pmcc");
    reveal_strlit("long_diagonal_spread");
    reveal_strlit("short_diagonal_spread");
    reveal_strlit("custom");
    reveal_strlit("put_broken_wing_butterfly");
    assert("custom"@.len() != "short_put_vertical"@.len());
    assert("put_broken_wing_butterfly"@.len() != "short_put_vertical"@.len());
    assert("custom"@.len() != "short_call_vertical"@.len());
    assert("put_broken_wing_butterfly"@.len() != "short_call_vertical"@.len());
    assert("custom"@.len() != "iron_condor"@.len());
    assert("put_broken_wing_butterfly"@.len() != "iron_condor"@.len());
    assert("custom"@.len() != "iron_butterfly"@.len());
    assert("put_broken_wing_butterfly"@.len() != "iron_butterfly"@.len());
    assert("custom"@.len() != "strangle"@.len());
    assert("put_broken_wing_butterfly"@.len() != "strangle"@.len());
    assert("custom"@.len() != "straddle"@.len());
    assert("put_broken_wing_butterfly"@.len() != "straddle"@.len());
    assert("custom"@.len() != "cash_secured_put"@.len());
    assert("put_broken_wing_butterfly"@.len() != "cash_secured_put"@.len());
    assert("custom"@.len() != "covered_call"@.len());
    assert("put_broken_wing_butterfly"@.len() != "covered_call"@.len());
    assert("custom"@.len() != "calendar_spread"@.len());
    assert("put_broken_wing_butterfly"@.len() != "calendar_spread"@.len());
    assert("custom"@.len() != "pmcc"@.len());
    assert("put_broken_wing_butterfly"@.len() != "pmcc"@.len());
    assert("custom"@.len() != "long_diagonal_spread"@.len());
    assert("put_broken_wing_butterfly"@.len() != "long_diagonal_spread"@.len());
    assert("custom"@.len() != "short_diagonal_spread"@.len());
    assert("put_broken_wing_butterfly"@.len() != "short_diagonal_spread"@.len());
    let one = seq![l];
    assert(one.len() == 1 && one[0] == l);
    if legs.len() > 0 {
        assert(legs.push(l).drop_last() =~= legs);
        assert(legs.push(l).last() == l);
    }
}

} // verus!
