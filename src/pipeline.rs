//! Joining the per-show fetch results: all or nothing, the week's horizon,
//! and a stable order by air time.
use vstd::prelude::*;
use crate::show::{FetchError, ShowEvent};

verus! {

/// Days after today that the digest still looks ahead.
pub const FUTURE_DAY_LIMIT: i64 = 7;

/// The event airs no later than `FUTURE_DAY_LIMIT` days after `today`.
pub open spec fn within_horizon(e: ShowEvent, today: int) -> bool {
    e.day() <= today + FUTURE_DAY_LIMIT
}

/// `s` with `e` placed after every element that airs no later than it, scanning
/// from the end: on a list ordered by air time, a stable insertion.
pub open spec fn insert_by_time(s: Seq<ShowEvent>, e: ShowEvent) -> Seq<ShowEvent>
    decreases s.len(),
{
    if s.len() == 0 {
        seq![e]
    } else if s.last().air_time <= e.air_time {
        s.push(e)
    } else {
        insert_by_time(s.drop_last(), e).push(s.last())
    }
}

/// `s` ordered by air time; events that air at the same instant keep their order.
pub open spec fn sort_by_time(s: Seq<ShowEvent>) -> Seq<ShowEvent>
    decreases s.len(),
{
    if s.len() == 0 {
        s
    } else {
        insert_by_time(sort_by_time(s.drop_last()), s.last())
    }
}

pub open spec fn sorted_by_time(s: Seq<ShowEvent>) -> bool {
    forall|i: int, j: int| 0 <= i < j < s.len() ==> s[i].air_time <= s[j].air_time
}

/// The events of the successful fetches, in fetch order, that lie within the horizon.
pub open spec fn kept_events(results: Seq<Result<Option<ShowEvent>, FetchError>>, today: int) -> Seq<ShowEvent>
    decreases results.len(),
{
    if results.len() == 0 {
        Seq::empty()
    } else {
        let rest = kept_events(results.drop_last(), today);
        match results.last() {
            Ok(Some(e)) => if within_horizon(e, today) { rest.push(e) } else { rest },
            _ => rest,
        }
    }
}

/// Every fetch succeeded.
pub open spec fn all_fetched(results: Seq<Result<Option<ShowEvent>, FetchError>>) -> bool {
    forall|i: int| 0 <= i < results.len() ==> results[i] is Ok
}

/// The fetch at `i` is the first one that failed.
pub open spec fn first_failure_at(results: Seq<Result<Option<ShowEvent>, FetchError>>, i: int) -> bool {
    &&& 0 <= i < results.len()
    &&& results[i] is Err
    &&& forall|j: int| 0 <= j < i ==> results[j] is Ok
}

/// Every event that a fetch brought back is well formed.
pub open spec fn events_wf(results: Seq<Result<Option<ShowEvent>, FetchError>>) -> bool {
    forall|i: int| 0 <= i < results.len() ==> (#[trigger] results[i] matches Ok(Some(e)) ==> e.wf())
}

proof fn lemma_insert_shape(s: Seq<ShowEvent>, e: ShowEvent, p: int)
    requires
        0 <= p < s.len(),
        s[p].air_time > e.air_time,
    ensures
        insert_by_time(s.take(p + 1), e) + s.skip(p + 1) == insert_by_time(s.take(p), e) + s.skip(p),
{
    let t = s.take(p + 1);
    assert(t.drop_last() =~= s.take(p));
    assert(t.last() == s[p]);
    assert(insert_by_time(t, e) == insert_by_time(s.take(p), e).push(s[p]));
    assert(insert_by_time(s.take(p), e).push(s[p]) + s.skip(p + 1) =~= insert_by_time(s.take(p), e) + s.skip(p));
}

/// Inserts `e` into `v` after every element that airs no later than it,
/// scanning from the end.
fn insert_event(v: &mut Vec<ShowEvent>, e: ShowEvent)
    ensures
        final(v)@ == insert_by_time(old(v)@, e),
{
    let ghost s = v@;
    let mut p: usize = v.len();
    assert(s.take(s.len() as int) =~= s);
    assert(s.skip(s.len() as int) =~= Seq::<ShowEvent>::empty());
    while p > 0 && v[p - 1].air_time > e.air_time
        invariant
            v@ == s,
            p <= s.len(),
            insert_by_time(s, e) == insert_by_time(s.take(p as int), e) + s.skip(p as int),
        decreases p,
    {
        proof {
            lemma_insert_shape(s, e, p - 1);
        }
        p = p - 1;
    }
    proof {
        if p == 0 {
            assert(s.take(0) =~= Seq::<ShowEvent>::empty());
            assert(insert_by_time(s.take(0), e) == seq![e]);
        } else {
            let t = s.take(p as int);
            assert(t.len() > 0 && t.last() == s[p - 1]);
            assert(insert_by_time(t, e) == t.push(e));
        }
        assert(s.take(p as int).push(e) + s.skip(p as int) =~= s.insert(p as int, e));
        assert(seq![e] + s.skip(0) =~= s.insert(0, e));
    }
    v.insert(p, e);
}

/// The events of all show fetches, kept within `FUTURE_DAY_LIMIT` days of
/// `today` and ordered by air time, ties in fetch order. A single failed fetch
/// fails the whole run, with the error of the first one that failed.
pub fn collect_shows(results: Vec<Result<Option<ShowEvent>, FetchError>>, today: i64) -> (r: Result<Vec<ShowEvent>, FetchError>)
    requires
        events_wf(results@),
    ensures
        all_fetched(results@) <==> r is Ok,
        r matches Ok(v) ==> v@ == sort_by_time(kept_events(results@, today as int)),
        r matches Err(err) ==> exists|i: int| first_failure_at(results@, i) && results@[i] == Err::<Option<ShowEvent>, FetchError>(err),
{
    let ghost rs = results@;
    let mut rest = results;
    let mut shows: Vec<ShowEvent> = Vec::new();
    let mut failure: Option<FetchError> = None;
    let ghost mut i: int = 0;
    while rest.len() > 0
        invariant_except_break
            rest@ == rs.skip(i),
            failure is None,
        invariant
            0 <= i <= rs.len(),
            forall|j: int| 0 <= j < i ==> rs[j] is Ok,
            shows@ == sort_by_time(kept_events(rs.take(i), today as int)),
            events_wf(rs),
        ensures
            failure matches Some(err) ==> first_failure_at(rs, i) && rs[i] == Err::<Option<ShowEvent>, FetchError>(err),
            failure is None ==> i == rs.len() && shows@ == sort_by_time(kept_events(rs.take(i), today as int)),
        decreases rest.len(),
    {
        let item = rest.remove(0);
        proof {
            assert(item == rs[i]);
            assert(rs.take(i + 1).drop_last() =~= rs.take(i));
            assert(rs.take(i + 1).last() == rs[i]);
        }
        match item {
            Err(err) => {
                assert(first_failure_at(rs, i));
                failure = Some(err);
                break;
            },
            Ok(None) => {},
            Ok(Some(e)) => {
                assert(e.wf());
                if e.local_day() - FUTURE_DAY_LIMIT <= today {
                    let ghost before = kept_events(rs.take(i), today as int);
                    assert(kept_events(rs.take(i + 1), today as int) == before.push(e));
                    assert(before.push(e).drop_last() =~= before);
                    insert_event(&mut shows, e);
                }
            },
        }
        proof {
            i = i + 1;
            assert(rest@ =~= rs.skip(i));
        }
    }
    match failure {
        Some(err) => {
            assert(!all_fetched(rs));
            Err(err)
        },
        None => {
            assert(rs.take(i) =~= rs);
            Ok(shows)
        },
    }
}

/// The events of `s` that air on `today`, in their order.
pub open spec fn todays(s: Seq<ShowEvent>, today: int) -> Seq<ShowEvent>
    decreases s.len(),
{
    if s.len() == 0 {
        s
    } else if s.last().day() == today {
        todays(s.drop_last(), today).push(s.last())
    } else {
        todays(s.drop_last(), today)
    }
}

/// The events of `s` that do not air on `today`, in their order.
pub open spec fn others(s: Seq<ShowEvent>, today: int) -> Seq<ShowEvent>
    decreases s.len(),
{
    if s.len() == 0 {
        s
    } else if s.last().day() != today {
        others(s.drop_last(), today).push(s.last())
    } else {
        others(s.drop_last(), today)
    }
}

/// Some fetch brought back the event `x`.
pub open spec fn fetched(results: Seq<Result<Option<ShowEvent>, FetchError>>, x: ShowEvent) -> bool {
    exists|i: int| 0 <= i < results.len() && results[i] == Ok::<Option<ShowEvent>, FetchError>(Some(x))
}

pub proof fn lemma_insert_contains(s: Seq<ShowEvent>, e: ShowEvent)
    ensures
        forall|x: ShowEvent| #[trigger] insert_by_time(s, e).contains(x) <==> (s.contains(x) || x == e),
        insert_by_time(s, e).len() == s.len() + 1,
    decreases s.len(),
{
    if s.len() == 0 {
        assert(insert_by_time(s, e) =~= seq![e]);
        assert(seq![e][0] == e);
    } else if s.last().air_time <= e.air_time {
        assert(insert_by_time(s, e) == s.push(e));
        assert forall|x: ShowEvent| s.push(e).contains(x) <==> (s.contains(x) || x == e) by {
            assert(s.push(e)[s.len() as int] == e);
            if s.contains(x) {
                let k = choose|k: int| 0 <= k < s.len() && s[k] == x;
                assert(s.push(e)[k] == x);
            }
            if s.push(e).contains(x) {
                let k = choose|k: int| 0 <= k < s.len() + 1 && s.push(e)[k] == x;
                if k < s.len() {
                    assert(s[k] == x);
                }
            }
        }
    } else {
        let d = s.drop_last();
        lemma_insert_contains(d, e);
        let t = insert_by_time(d, e);
        let u = t.push(s.last());
        assert(insert_by_time(s, e) == u);
        assert forall|x: ShowEvent| u.contains(x) <==> (s.contains(x) || x == e) by {
            if s.contains(x) {
                let k = choose|k: int| 0 <= k < s.len() && s[k] == x;
                if k == s.len() - 1 {
                    assert(u[t.len() as int] == x);
                } else {
                    assert(d[k] == x);
                    assert(d.contains(x));
                    assert(t.contains(x));
                    let m = choose|m: int| 0 <= m < t.len() && t[m] == x;
                    assert(u[m] == x);
                }
                assert(u.contains(x));
            }
            if x == e {
                assert(t.contains(x));
                let m = choose|m: int| 0 <= m < t.len() && t[m] == x;
                assert(u[m] == x);
                assert(u.contains(x));
            }
            if u.contains(x) {
                let k = choose|k: int| 0 <= k < u.len() && u[k] == x;
                if k < t.len() {
                    assert(t[k] == x);
                    assert(t.contains(x));
                    if d.contains(x) {
                        let m = choose|m: int| 0 <= m < d.len() && d[m] == x;
                        assert(s[m] == x);
                    }
                } else {
                    assert(s[s.len() - 1] == x);
                }
                assert(s.contains(x) || x == e);
            }
        }
    }
}

pub proof fn lemma_insert_sorted(s: Seq<ShowEvent>, e: ShowEvent)
    requires
        sorted_by_time(s),
    ensures
        sorted_by_time(insert_by_time(s, e)),
    decreases s.len(),
{
    lemma_insert_contains(s, e);
    if s.len() == 0 {
    } else if s.last().air_time <= e.air_time {
        assert(sorted_by_time(s.push(e)));
    } else {
        let d = s.drop_last();
        assert(sorted_by_time(d));
        lemma_insert_sorted(d, e);
        lemma_insert_contains(d, e);
        let t = insert_by_time(d, e);
        assert forall|k: int| 0 <= k < t.len() implies t[k].air_time <= s.last().air_time by {
            assert(t.contains(t[k]));
            if d.contains(t[k]) {
                let m = choose|m: int| 0 <= m < d.len() && d[m] == t[k];
                assert(s[m] == t[k]);
            }
        }
        assert(sorted_by_time(t.push(s.last())));
    }
}

pub proof fn lemma_sort(s: Seq<ShowEvent>)
    ensures
        sorted_by_time(sort_by_time(s)),
        forall|x: ShowEvent| #[trigger] sort_by_time(s).contains(x) <==> s.contains(x),
    decreases s.len(),
{
    if s.len() > 0 {
        let d = s.drop_last();
        lemma_sort(d);
        lemma_insert_sorted(sort_by_time(d), s.last());
        lemma_insert_contains(sort_by_time(d), s.last());
        assert forall|x: ShowEvent| s.contains(x) <==> (d.contains(x) || x == s.last()) by {
            if s.contains(x) {
                let k = choose|k: int| 0 <= k < s.len() && s[k] == x;
                if k < s.len() - 1 {
                    assert(d[k] == x);
                }
            }
            if d.contains(x) {
                let k = choose|k: int| 0 <= k < d.len() && d[k] == x;
                assert(s[k] == x);
            }
        }
    }
}

pub proof fn lemma_kept_contains(results: Seq<Result<Option<ShowEvent>, FetchError>>, today: int)
    ensures
        forall|x: ShowEvent| #[trigger] kept_events(results, today).contains(x)
            <==> (fetched(results, x) && within_horizon(x, today)),
    decreases results.len(),
{
    if results.len() > 0 {
        let d = results.drop_last();
        lemma_kept_contains(d, today);
        let rest = kept_events(d, today);
        assert forall|x: ShowEvent| kept_events(results, today).contains(x)
            <==> (fetched(results, x) && within_horizon(x, today)) by {
            let k = kept_events(results, today);
            if fetched(results, x) && within_horizon(x, today) {
                let i = choose|i: int| 0 <= i < results.len() && results[i] == Ok::<Option<ShowEvent>, FetchError>(Some(x));
                if i < d.len() {
                    assert(d[i] == results[i]);
                    assert(fetched(d, x));
                    assert(rest.contains(x));
                    let m = choose|m: int| 0 <= m < rest.len() && rest[m] == x;
                    assert(k[m] == x);
                } else {
                    assert(k == rest.push(x));
                    assert(k[rest.len() as int] == x);
                }
            }
            if k.contains(x) {
                let m = choose|m: int| 0 <= m < k.len() && k[m] == x;
                if m < rest.len() {
                    assert(k[m] == rest[m]);
                    assert(rest[m] == x);
                    assert(rest.contains(x));
                    let i = choose|i: int| 0 <= i < d.len() && d[i] == Ok::<Option<ShowEvent>, FetchError>(Some(x));
                    assert(results[i] == d[i]);
                } else {
                    assert(k != rest);
                    assert(results.last() == Ok::<Option<ShowEvent>, FetchError>(Some(x)));
                    assert(results[results.len() - 1] == results.last());
                }
            }
        }
    }
}

pub proof fn lemma_todays(s: Seq<ShowEvent>, today: int)
    ensures
        forall|x: ShowEvent| #[trigger] todays(s, today).contains(x) <==> (s.contains(x) && x.day() == today),
        forall|x: ShowEvent| #[trigger] others(s, today).contains(x) <==> (s.contains(x) && x.day() != today),
        sorted_by_time(s) ==> sorted_by_time(todays(s, today)) && sorted_by_time(others(s, today)),
    decreases s.len(),
{
    if s.len() > 0 {
        let d = s.drop_last();
        lemma_todays(d, today);
        let l = s.last();
        assert forall|x: ShowEvent| s.contains(x) <==> (d.contains(x) || x == l) by {
            if s.contains(x) {
                let k = choose|k: int| 0 <= k < s.len() && s[k] == x;
                if k < s.len() - 1 {
                    assert(d[k] == x);
                }
            }
            if d.contains(x) {
                let k = choose|k: int| 0 <= k < d.len() && d[k] == x;
                assert(s[k] == x);
            }
        }
        let t = todays(d, today);
        let o = others(d, today);
        assert forall|x: ShowEvent| t.push(l).contains(x) <==> (t.contains(x) || x == l) by {
            if t.contains(x) {
                let k = choose|k: int| 0 <= k < t.len() && t[k] == x;
                assert(t.push(l)[k] == x);
            }
            if t.push(l).contains(x) {
                let k = choose|k: int| 0 <= k < t.len() + 1 && t.push(l)[k] == x;
                if k < t.len() {
                    assert(t[k] == x);
                }
            }
            assert(t.push(l)[t.len() as int] == l);
        }
        assert forall|x: ShowEvent| o.push(l).contains(x) <==> (o.contains(x) || x == l) by {
            if o.contains(x) {
                let k = choose|k: int| 0 <= k < o.len() && o[k] == x;
                assert(o.push(l)[k] == x);
            }
            if o.push(l).contains(x) {
                let k = choose|k: int| 0 <= k < o.len() + 1 && o.push(l)[k] == x;
                if k < o.len() {
                    assert(o[k] == x);
                }
            }
            assert(o.push(l)[o.len() as int] == l);
        }
        if sorted_by_time(s) {
            assert(sorted_by_time(d));
            assert forall|k: int| 0 <= k < t.len() implies t[k].air_time <= l.air_time by {
                assert(t.contains(t[k]));
                assert(d.contains(t[k]));
                let m = choose|m: int| 0 <= m < d.len() && d[m] == t[k];
                assert(s[m] == t[k]);
            }
            assert forall|k: int| 0 <= k < o.len() implies o[k].air_time <= l.air_time by {
                assert(o.contains(o[k]));
                assert(d.contains(o[k]));
                let m = choose|m: int| 0 <= m < d.len() && d[m] == o[k];
                assert(s[m] == o[k]);
            }
            assert(sorted_by_time(t.push(l)));
            assert(sorted_by_time(o.push(l)));
        }
        assert forall|x: ShowEvent| #[trigger] todays(s, today).contains(x) <==> (s.contains(x) && x.day() == today) by {
            if l.day() == today {
                assert(todays(s, today) == t.push(l));
            } else {
                assert(todays(s, today) == t);
            }
            if t.contains(x) {
                assert(d.contains(x));
            }
        }
        assert forall|x: ShowEvent| #[trigger] others(s, today).contains(x) <==> (s.contains(x) && x.day() != today) by {
            if l.day() != today {
                assert(others(s, today) == o.push(l));
            } else {
                assert(others(s, today) == o);
            }
            if o.contains(x) {
                assert(d.contains(x));
            }
        }
    }
}

} // verus!
