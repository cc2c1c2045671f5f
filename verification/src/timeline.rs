//! The joint timeline of several feeds: each step takes the earliest
//! instant among the feeds' next bars and moves every feed whose next bar
//! is at that instant one bar on.

use vstd::prelude::*;

use crate::bars::BarData;
use crate::stamp::{lemma_stamp_order, stamp_le, stamp_lt, Stamp};

verus! {

/// One step of the joint timeline.
pub struct TimelineStep {
    /// The instant of the step: the earliest next bar among the feeds.
    pub time: Stamp,
    /// The feeds whose next bar is at that instant, in feed order.
    pub advanced: Vec<usize>,
    /// The datetime text of the first of those bars that has one, or empty.
    pub datetime: String,
}

/// The instants of the bars of each feed.
pub open spec fn feed_stamps<P, O>(feeds: Seq<Vec<BarData<P, O>>>) -> Seq<Seq<Stamp>> {
    feeds.map_values(|v: Vec<BarData<P, O>>| v@.map_values(|b: BarData<P, O>| b.parsed_dt))
}

/// One cursor per feed, each within its feed.
pub open spec fn cursors_valid(s: Seq<Seq<Stamp>>, i: Seq<usize>) -> bool {
    &&& i.len() == s.len()
    &&& forall|f: int| 0 <= f < s.len() ==> i[f] <= #[trigger] s[f].len() <= usize::MAX
}

/// Feed `f` still has a bar at its cursor.
pub open spec fn has_head(s: Seq<Seq<Stamp>>, i: Seq<usize>, f: int) -> bool {
    i[f] < s[f].len()
}

/// The earliest next bar among feeds `0..n`, the first such feed winning a
/// tie; `None` where all of them are used up.
pub open spec fn min_head(s: Seq<Seq<Stamp>>, i: Seq<usize>, n: int) -> Option<Stamp>
    decreases n,
{
    if n <= 0 {
        None
    } else {
        let rest = min_head(s, i, n - 1);
        if has_head(s, i, n - 1) {
            let h = s[n - 1][i[n - 1] as int];
            match rest {
                None => Some(h),
                Some(m) => if stamp_lt(h, m) {
                    Some(h)
                } else {
                    Some(m)
                },
            }
        } else {
            rest
        }
    }
}

/// Feed `f` has its next bar at instant `t`.
pub open spec fn head_at(s: Seq<Seq<Stamp>>, i: Seq<usize>, t: Stamp, f: int) -> bool {
    has_head(s, i, f) && s[f][i[f] as int] == t
}

/// The feeds among `0..n` whose next bar is at instant `t`, in feed order.
pub open spec fn feeds_at(s: Seq<Seq<Stamp>>, i: Seq<usize>, t: Stamp, n: int) -> Seq<usize>
    decreases n,
{
    if n <= 0 {
        Seq::empty()
    } else if head_at(s, i, t, n - 1) {
        feeds_at(s, i, t, n - 1).push((n - 1) as usize)
    } else {
        feeds_at(s, i, t, n - 1)
    }
}

/// The cursors after the feeds whose next bar is at `t` move one bar on.
pub open spec fn advance(s: Seq<Seq<Stamp>>, i: Seq<usize>, t: Stamp) -> Seq<usize> {
    Seq::new(
        i.len(),
        |f: int|
            if head_at(s, i, t, f) {
                (i[f] + 1) as usize
            } else {
                i[f]
            },
    )
}

/// The datetime text of the first bar among feeds `0..n` that is at `t` and
/// has one.
pub open spec fn step_text<P, O>(feeds: Seq<Vec<BarData<P, O>>>, i: Seq<usize>, t: Stamp, n: int) -> Option<
    Seq<char>,
>
    decreases n,
{
    if n <= 0 {
        None
    } else {
        match step_text(feeds, i, t, n - 1) {
            Some(x) => Some(x),
            None => if head_at(feed_stamps(feeds), i, t, n - 1) {
                match feeds[n - 1]@[i[n - 1] as int].datetime {
                    Some(d) => Some(d@),
                    None => None,
                }
            } else {
                None
            },
        }
    }
}

/// Law: a step's datetime text is missing exactly when none of the bars at
/// its instant among feeds `0..n` has one.
pub proof fn lemma_step_text_none<P, O>(feeds: Seq<Vec<BarData<P, O>>>, i: Seq<usize>, t: Stamp, n: int)
    requires
        0 <= n <= feeds.len(),
    ensures
        step_text(feeds, i, t, n) is None <==> forall|f: int|
            0 <= f < n && head_at(feed_stamps(feeds), i, t, f) ==> (#[trigger] feeds[f]@[i[f] as int]).datetime is None,
    decreases n,
{
    if n > 0 {
        lemma_step_text_none(feeds, i, t, n - 1);
    }
}

/// Law: where a step has a datetime text, it is that of the first feed (in
/// feed order) whose bar at the step's instant has one.
pub proof fn lemma_step_text_first<P, O>(feeds: Seq<Vec<BarData<P, O>>>, i: Seq<usize>, t: Stamp, n: int) -> (f: int)
    requires
        0 <= n <= feeds.len(),
        step_text(feeds, i, t, n) is Some,
    ensures
        0 <= f < n,
        head_at(feed_stamps(feeds), i, t, f),
        feeds[f]@[i[f] as int].datetime matches Some(d) && d@ == step_text(feeds, i, t, n)->0,
        forall|g: int|
            0 <= g < f && head_at(feed_stamps(feeds), i, t, g) ==> (#[trigger] feeds[g]@[i[g] as int]).datetime is None,
    decreases n,
{
    if step_text(feeds, i, t, n - 1) is Some {
        lemma_step_text_first(feeds, i, t, n - 1)
    } else {
        lemma_step_text_none(feeds, i, t, n - 1);
        n - 1
    }
}

/// The bars not yet taken in feeds `0..n`.
pub open spec fn remaining(s: Seq<Seq<Stamp>>, i: Seq<usize>, n: int) -> int
    decreases n,
{
    if n <= 0 {
        0
    } else {
        remaining(s, i, n - 1) + (s[n - 1].len() - i[n - 1])
    }
}

/// Each feed's bars come in chronological order (ties allowed).
pub open spec fn feeds_sorted(s: Seq<Seq<Stamp>>) -> bool {
    forall|f: int, a: int, b: int|
        0 <= f < s.len() && 0 <= a <= b < s[f].len() ==> stamp_le(#[trigger] s[f][a], #[trigger] s[f][b])
}

/// `min_head` over `0..n` is `None` exactly when those feeds are used up;
/// otherwise it is the next bar of one of them and no next bar among them
/// comes before it.
pub proof fn lemma_min_head(s: Seq<Seq<Stamp>>, i: Seq<usize>, n: int)
    requires
        cursors_valid(s, i),
        0 <= n <= s.len(),
    ensures
        min_head(s, i, n) is None <==> forall|f: int| 0 <= f < n ==> !has_head(s, i, f),
        min_head(s, i, n) matches Some(t) ==> forall|f: int|
            0 <= f < n && has_head(s, i, f) ==> !stamp_lt(s[f][i[f] as int], t),
    decreases n,
{
    if n > 0 {
        lemma_min_head(s, i, n - 1);
        let rest = min_head(s, i, n - 1);
        if has_head(s, i, n - 1) {
            let h = s[n - 1][i[n - 1] as int];
            lemma_stamp_order(h, h, h);
            assert(head_at(s, i, h, n - 1));
            if let Some(m) = rest {
                if stamp_lt(h, m) {
                    assert(min_head(s, i, n) == Some(h));
                    assert forall|f: int| 0 <= f < n && has_head(s, i, f) implies !stamp_lt(
                        s[f][i[f] as int],
                        h,
                    ) by {
                        lemma_stamp_order(s[f][i[f] as int], h, m);
                    }
                } else {
                    assert(min_head(s, i, n) == Some(m));
                }
            } else {
                assert(min_head(s, i, n) == Some(h));
            }
        } else {
            assert(min_head(s, i, n) == rest);
        }
    }
}

/// A feed among `0..n` whose next bar is at the earliest instant.
pub proof fn lemma_min_head_witness(s: Seq<Seq<Stamp>>, i: Seq<usize>, n: int) -> (f: int)
    requires
        cursors_valid(s, i),
        0 <= n <= s.len(),
        min_head(s, i, n) is Some,
    ensures
        0 <= f < n,
        head_at(s, i, min_head(s, i, n)->0, f),
    decreases n,
{
    let rest = min_head(s, i, n - 1);
    if has_head(s, i, n - 1) {
        let h = s[n - 1][i[n - 1] as int];
        match rest {
            None => n - 1,
            Some(m) => if stamp_lt(h, m) {
                n - 1
            } else {
                lemma_min_head_witness(s, i, n - 1)
            },
        }
    } else {
        lemma_min_head_witness(s, i, n - 1)
    }
}

/// `feeds_at` over `0..n` lists exactly the feeds among them whose next bar
/// is at `t`, each once, in increasing order.
pub proof fn lemma_feeds_at(s: Seq<Seq<Stamp>>, i: Seq<usize>, t: Stamp, n: int)
    requires
        0 <= n <= s.len(),
        s.len() <= usize::MAX,
    ensures
        feeds_at(s, i, t, n).len() <= n,
        forall|k: int|
            0 <= k < feeds_at(s, i, t, n).len() ==> 0 <= #[trigger] feeds_at(s, i, t, n)[k] < n
                && head_at(s, i, t, feeds_at(s, i, t, n)[k] as int),
        forall|k: int, l: int|
            0 <= k < l < feeds_at(s, i, t, n).len() ==> #[trigger] feeds_at(s, i, t, n)[k]
                < #[trigger] feeds_at(s, i, t, n)[l],
        forall|f: int| 0 <= f < n && head_at(s, i, t, f) ==> feeds_at(s, i, t, n).contains(f as usize),
    decreases n,
{
    if n > 0 {
        lemma_feeds_at(s, i, t, n - 1);
        if head_at(s, i, t, n - 1) {
            let prev = feeds_at(s, i, t, n - 1);
            assert(feeds_at(s, i, t, n)[prev.len() as int] == (n - 1) as usize);
            assert forall|f: int| 0 <= f < n && head_at(s, i, t, f) implies feeds_at(
                s,
                i,
                t,
                n,
            ).contains(f as usize) by {
                if f < n - 1 {
                    let k = choose|k: int| 0 <= k < prev.len() && prev[k] == f as usize;
                    assert(feeds_at(s, i, t, n)[k] == f as usize);
                } else {
                    assert(feeds_at(s, i, t, n)[prev.len() as int] == f as usize);
                }
            }
        }
    }
}

/// Taking a step uses up exactly one bar of each feed it moves on.
pub proof fn lemma_remaining_after_step(s: Seq<Seq<Stamp>>, i: Seq<usize>, t: Stamp, n: int)
    requires
        cursors_valid(s, i),
        0 <= n <= s.len(),
    ensures
        remaining(s, advance(s, i, t), n) == remaining(s, i, n) - feeds_at(s, i, t, n).len(),
        remaining(s, i, n) >= 0,
    decreases n,
{
    if n > 0 {
        lemma_remaining_after_step(s, i, t, n - 1);
        assert(i[n - 1] <= s[n - 1].len());
        let j = advance(s, i, t);
        assert(remaining(s, j, n) == remaining(s, j, n - 1) + (s[n - 1].len() - j[n - 1]));
    }
}

/// Law: over a whole run, the steps take every bar exactly once. A step
/// moves at least one feed one bar on, moves no feed further, and lowers the
/// count of bars not yet taken by the number of feeds it moved; the run ends
/// exactly when every feed is used up.
pub proof fn lemma_step_takes_each_bar_once(s: Seq<Seq<Stamp>>, i: Seq<usize>)
    requires
        cursors_valid(s, i),
        s.len() <= usize::MAX,
    ensures
        min_head(s, i, s.len() as int) is None <==> remaining(s, i, s.len() as int) == 0,
        min_head(s, i, s.len() as int) matches Some(t) ==> {
            &&& feeds_at(s, i, t, s.len() as int).len() >= 1
            &&& cursors_valid(s, advance(s, i, t))
            &&& remaining(s, advance(s, i, t), s.len() as int) == remaining(s, i, s.len() as int)
                - feeds_at(s, i, t, s.len() as int).len()
            &&& forall|f: int|
                0 <= f < s.len() ==> #[trigger] advance(s, i, t)[f] == i[f] || advance(s, i, t)[f]
                    == i[f] + 1
        },
{
    let n = s.len() as int;
    lemma_min_head(s, i, n);
    lemma_remaining_zero(s, i, n);
    if let Some(t) = min_head(s, i, n) {
        lemma_feeds_at(s, i, t, n);
        lemma_remaining_after_step(s, i, t, n);
        let f = lemma_min_head_witness(s, i, n);
        assert(feeds_at(s, i, t, n).contains(f as usize));
        assert forall|g: int| 0 <= g < s.len() implies advance(s, i, t)[g] <= #[trigger] s[g].len() by {}
    }
}

/// No bars remain exactly when every feed is used up.
pub proof fn lemma_remaining_zero(s: Seq<Seq<Stamp>>, i: Seq<usize>, n: int)
    requires
        cursors_valid(s, i),
        0 <= n <= s.len(),
    ensures
        remaining(s, i, n) >= 0,
        remaining(s, i, n) == 0 <==> forall|f: int| 0 <= f < n ==> !has_head(s, i, f),
    decreases n,
{
    if n > 0 {
        lemma_remaining_zero(s, i, n - 1);
        assert(i[n - 1] <= s[n - 1].len());
        if forall|f: int| 0 <= f < n ==> !has_head(s, i, f) {
            assert(!has_head(s, i, n - 1));
            assert(forall|f: int| 0 <= f < n - 1 ==> !has_head(s, i, f));
        }
        if remaining(s, i, n) == 0 {
            assert forall|f: int| 0 <= f < n implies !has_head(s, i, f) by {
                if f < n - 1 {
                    assert(!has_head(s, i, f));
                }
            }
        }
    }
}

/// Law: where every feed is in chronological order, the instants of
/// successive steps never go back in time.
pub proof fn lemma_sorted_feeds_steps_nondecreasing(s: Seq<Seq<Stamp>>, i: Seq<usize>)
    requires
        cursors_valid(s, i),
        feeds_sorted(s),
        min_head(s, i, s.len() as int) is Some,
        min_head(s, advance(s, i, min_head(s, i, s.len() as int)->0), s.len() as int) is Some,
    ensures
        stamp_le(
            min_head(s, i, s.len() as int)->0,
            min_head(s, advance(s, i, min_head(s, i, s.len() as int)->0), s.len() as int)->0,
        ),
{
    let n = s.len() as int;
    let t = min_head(s, i, n)->0;
    let j = advance(s, i, t);
    assert(cursors_valid(s, j)) by {
        assert forall|g: int| 0 <= g < s.len() implies j[g] <= #[trigger] s[g].len() by {}
    }
    lemma_min_head(s, i, n);
    lemma_min_head(s, j, n);
    let u = min_head(s, j, n)->0;
    let f = lemma_min_head_witness(s, j, n);
    if head_at(s, i, t, f) {
        assert(s[f][i[f] as int] == t);
        assert(j[f] == i[f] + 1);
        assert(stamp_le(s[f][i[f] as int], s[f][j[f] as int]));
    } else {
        assert(j[f] == i[f]);
        assert(has_head(s, i, f));
        assert(!stamp_lt(s[f][i[f] as int], t));
        lemma_stamp_order(t, u, t);
    }
}

/// Takes one step of the joint timeline over `feeds` from the cursors
/// `idxs`, moving on the cursor of every feed whose next bar is at the
/// earliest instant; `None`, with the cursors unchanged, once every feed is
/// used up.
pub fn next_timeline_step<P, O>(feeds: &Vec<Vec<BarData<P, O>>>, idxs: &mut Vec<usize>) -> (res:
    Option<TimelineStep>)
    requires
        cursors_valid(feed_stamps(feeds@), old(idxs)@),
    ensures
        cursors_valid(feed_stamps(feeds@), final(idxs)@),
        match min_head(feed_stamps(feeds@), old(idxs)@, feeds@.len() as int) {
            None => res is None && final(idxs)@ == old(idxs)@,
            Some(t) => res matches Some(st) && st.time == t && st.advanced@.len() >= 1
                && st.advanced@ == feeds_at(
                feed_stamps(feeds@),
                old(idxs)@,
                t,
                feeds@.len() as int,
            ) && final(idxs)@ == advance(feed_stamps(feeds@), old(idxs)@, t) && st.datetime@
                == match step_text(feeds@, old(idxs)@, t, feeds@.len() as int) {
                Some(x) => x,
                None => Seq::<char>::empty(),
            },
        },
{
    let ghost s = feed_stamps(feeds@);
    let ghost i0 = idxs@;
    let n = feeds.len();
    let mut min_dt: Option<Stamp> = None;
    let mut f: usize = 0;
    while f < n
        invariant
            n == feeds@.len(),
            s == feed_stamps(feeds@),
            idxs@ == i0,
            cursors_valid(s, i0),
            f <= n,
            min_dt == min_head(s, i0, f as int),
        decreases n - f,
    {
        assert(s[f as int] == feeds@[f as int]@.map_values(|b: BarData<P, O>| b.parsed_dt));
        if idxs[f] < feeds[f].len() {
            let dt = feeds[f][idxs[f]].parsed_dt;
            match min_dt {
                None => {
                    min_dt = Some(dt);
                },
                Some(cur) => {
                    if dt.is_before(&cur) {
                        min_dt = Some(dt);
                    }
                },
            }
        }
        f = f + 1;
    }
    let t = match min_dt {
        None => {
            return None;
        },
        Some(t) => t,
    };
    proof {
        lemma_step_takes_each_bar_once(s, i0);
    }
    let mut advanced: Vec<usize> = Vec::new();
    let mut text: Option<String> = None;
    let mut f: usize = 0;
    while f < n
        invariant
            n == feeds@.len(),
            s == feed_stamps(feeds@),
            idxs@.len() == n,
            cursors_valid(s, i0),
            f <= n,
            forall|g: int| 0 <= g < f ==> idxs@[g] == #[trigger] advance(s, i0, t)[g],
            forall|g: int| f <= g < n ==> #[trigger] idxs@[g] == i0[g],
            advanced@ == feeds_at(s, i0, t, f as int),
            match text {
                Some(x) => step_text(feeds@, i0, t, f as int) == Some(x@),
                None => step_text(feeds@, i0, t, f as int) is None,
            },
        decreases n - f,
    {
        assert(s[f as int] == feeds@[f as int]@.map_values(|b: BarData<P, O>| b.parsed_dt));
        let i = idxs[f];
        if i < feeds[f].len() && feeds[f][i].parsed_dt == t {
            if text.is_none() {
                text = match &feeds[f][i].datetime {
                    Some(d) => Some(d.clone()),
                    None => None,
                };
            }
            advanced.push(f);
            idxs.set(f, i + 1);
        }
        f = f + 1;
    }
    assert(idxs@ =~= advance(s, i0, t));
    let datetime = match text {
        Some(x) => x,
        None => String::new(),
    };
    Some(TimelineStep { time: t, advanced, datetime })
}

} // verus!
