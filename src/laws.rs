//! What holds of the pipeline as a whole, over every input.
use vstd::prelude::*;
use crate::movie::{common, record};
use crate::pipeline::{
    fetched, kept_events, lemma_kept_contains, lemma_sort, lemma_todays, others, sort_by_time,
    sorted_by_time, todays, within_horizon, FUTURE_DAY_LIMIT,
};
use crate::show::{FetchError, ShowEvent};

verus! {

/// Of whatever the show fetches brought back, the digest's list for today
/// holds exactly the events that air today, and its list of later shows
/// exactly the remaining events within the horizon; both run in ascending
/// order of air time.
pub proof fn law_digest_partition(results: Seq<Result<Option<ShowEvent>, FetchError>>, today: int)
    ensures
        forall|x: ShowEvent| #[trigger] todays(sort_by_time(kept_events(results, today)), today).contains(x)
            <==> (fetched(results, x) && x.day() == today),
        forall|x: ShowEvent| #[trigger] others(sort_by_time(kept_events(results, today)), today).contains(x)
            <==> (fetched(results, x) && x.day() != today && within_horizon(x, today)),
        sorted_by_time(todays(sort_by_time(kept_events(results, today)), today)),
        sorted_by_time(others(sort_by_time(kept_events(results, today)), today)),
{
    let kept = kept_events(results, today);
    lemma_kept_contains(results, today);
    lemma_sort(kept);
    lemma_todays(sort_by_time(kept), today);
    assert forall|x: ShowEvent| #[trigger] todays(sort_by_time(kept), today).contains(x)
        <==> (fetched(results, x) && x.day() == today) by {
        assert(sort_by_time(kept).contains(x) <==> kept.contains(x));
        assert(kept.contains(x) <==> fetched(results, x) && within_horizon(x, today));
    }
    assert forall|x: ShowEvent| #[trigger] others(sort_by_time(kept), today).contains(x)
        <==> (fetched(results, x) && x.day() != today && within_horizon(x, today)) by {
        assert(sort_by_time(kept).contains(x) <==> kept.contains(x));
        assert(kept.contains(x) <==> fetched(results, x) && within_horizon(x, today));
    }
}

/// A fetched event that airs exactly `FUTURE_DAY_LIMIT` days after today
/// stays in the digest; one that airs a day later is left out.
pub proof fn law_horizon_boundary(
    results: Seq<Result<Option<ShowEvent>, FetchError>>,
    today: int,
    x: ShowEvent,
)
    requires
        fetched(results, x),
    ensures
        x.day() == today + FUTURE_DAY_LIMIT ==> sort_by_time(kept_events(results, today)).contains(x),
        x.day() == today + FUTURE_DAY_LIMIT + 1 ==> !sort_by_time(kept_events(results, today)).contains(x),
{
    let kept = kept_events(results, today);
    lemma_kept_contains(results, today);
    lemma_sort(kept);
    assert(sort_by_time(kept).contains(x) <==> kept.contains(x));
}

proof fn lemma_common_contains(subscribed: Seq<Seq<char>>, offered: Seq<Seq<char>>)
    ensures
        forall|p: Seq<char>| #[trigger] common(subscribed, offered).contains(p)
            <==> (subscribed.contains(p) && offered.contains(p)),
        common(subscribed, offered).no_duplicates(),
    decreases subscribed.len(),
{
    if subscribed.len() > 0 {
        let d = subscribed.drop_last();
        let l = subscribed.last();
        lemma_common_contains(d, offered);
        let c = common(d, offered);
        assert forall|p: Seq<char>| subscribed.contains(p) <==> (d.contains(p) || p == l) by {
            if subscribed.contains(p) {
                let k = choose|k: int| 0 <= k < subscribed.len() && subscribed[k] == p;
                if k < d.len() {
                    assert(d[k] == p);
                }
            }
            if d.contains(p) {
                let k = choose|k: int| 0 <= k < d.len() && d[k] == p;
                assert(subscribed[k] == p);
            }
        }
        assert forall|p: Seq<char>| c.push(l).contains(p) <==> (c.contains(p) || p == l) by {
            if c.contains(p) {
                let k = choose|k: int| 0 <= k < c.len() && c[k] == p;
                assert(c.push(l)[k] == p);
            }
            if c.push(l).contains(p) {
                let k = choose|k: int| 0 <= k < c.len() + 1 && c.push(l)[k] == p;
                if k < c.len() {
                    assert(c[k] == p);
                }
            }
            assert(c.push(l)[c.len() as int] == l);
        }
        if offered.contains(l) && !c.contains(l) {
            assert forall|i: int, j: int|
                0 <= i < c.push(l).len() && 0 <= j < c.push(l).len() && i != j
                implies c.push(l)[i] != c.push(l)[j] by {
                if i == c.len() {
                    assert(c[j] == c.push(l)[j]);
                } else if j == c.len() {
                    assert(c[i] == c.push(l)[i]);
                }
            }
        }
        assert forall|p: Seq<char>| #[trigger] common(subscribed, offered).contains(p)
            <==> (subscribed.contains(p) && offered.contains(p)) by {
            if c.contains(p) {
                assert(d.contains(p));
            }
        }
    }
}

/// The platforms reported for a movie are exactly the subscribed platforms
/// that offer it, each once.
pub proof fn law_common_platforms(subscribed: Seq<Seq<char>>, offered: Seq<Seq<char>>)
    ensures
        common(subscribed, offered).to_set() == subscribed.to_set().intersect(offered.to_set()),
        common(subscribed, offered).no_duplicates(),
{
    lemma_common_contains(subscribed, offered);
    assert(common(subscribed, offered).to_set() =~= subscribed.to_set().intersect(offered.to_set()));
}

/// A movie that no subscribed platform offers leaves the movie digest as it was.
pub proof fn law_unmatched_movie_dropped(
    digest: Seq<(Seq<char>, Seq<Seq<char>>)>,
    title: Seq<char>,
    subscribed: Seq<Seq<char>>,
    offered: Seq<Seq<char>>,
)
    requires
        subscribed.to_set().intersect(offered.to_set()).is_empty(),
    ensures
        record(digest, title, common(subscribed, offered)) == digest,
{
    lemma_common_contains(subscribed, offered);
    let c = common(subscribed, offered);
    if c.len() > 0 {
        assert(c.contains(c[0]));
        assert(subscribed.to_set().intersect(offered.to_set()).contains(c[0]));
    }
}

} // verus!
