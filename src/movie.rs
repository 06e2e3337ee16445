//! Streaming availability of movies and which of them the subscriber can watch.
use vstd::prelude::*;
use vstd::string::StringExecFns;

verus! {

/// One way a streaming service offers a movie, as the availability API lists it.
#[derive(Debug, Clone)]
pub struct ServiceOffer {
    pub service: String,
    pub streaming_type: String,
    /// The add-on channel through which the service offers it, if any.
    pub addon: Option<String>,
}

/// A movie and the platforms that offer it by subscription or add-on.
#[derive(Debug, Clone)]
pub struct MovieAvailability {
    pub title: String,
    pub platforms: Vec<String>,
}

/// A movie that the subscriber can watch, and on which of their platforms.
#[derive(Debug, Clone)]
pub struct MovieMatch {
    pub title: String,
    pub platforms: Vec<String>,
}

impl View for MovieAvailability {
    type V = (Seq<char>, Seq<Seq<char>>);

    open spec fn view(&self) -> (Seq<char>, Seq<Seq<char>>) {
        (self.title@, self.platforms.deep_view())
    }
}

impl View for MovieMatch {
    type V = (Seq<char>, Seq<Seq<char>>);

    open spec fn view(&self) -> (Seq<char>, Seq<Seq<char>>) {
        (self.title@, self.platforms.deep_view())
    }
}

pub open spec fn match_views(s: Seq<MovieMatch>) -> Seq<(Seq<char>, Seq<Seq<char>>)> {
    s.map_values(|m: MovieMatch| m@)
}

pub open spec fn availability_views(s: Seq<MovieAvailability>) -> Seq<(Seq<char>, Seq<Seq<char>>)> {
    s.map_values(|m: MovieAvailability| m@)
}

/// The offer gives access through a subscription or an add-on; rentals and
/// purchases do not count.
pub open spec fn gives_access(o: ServiceOffer) -> bool {
    o.streaming_type@ == "subscription"@ || o.streaming_type@ == "addon"@
}

/// The platform through which an offer is watched: the add-on where there is one.
pub open spec fn platform_of(o: ServiceOffer) -> Seq<char> {
    match o.addon {
        Some(a) => a@,
        None => o.service@,
    }
}

/// The platforms of the offers that give access, in the order of the offers.
pub open spec fn access_platforms(offers: Seq<ServiceOffer>) -> Seq<Seq<char>>
    decreases offers.len(),
{
    if offers.len() == 0 {
        Seq::empty()
    } else {
        let rest = access_platforms(offers.drop_last());
        if gives_access(offers.last()) {
            rest.push(platform_of(offers.last()))
        } else {
            rest
        }
    }
}

/// The subscribed platforms that also offer the movie, each once, in the order
/// of the subscription list.
pub open spec fn common(subscribed: Seq<Seq<char>>, offered: Seq<Seq<char>>) -> Seq<Seq<char>>
    decreases subscribed.len(),
{
    if subscribed.len() == 0 {
        Seq::empty()
    } else {
        let rest = common(subscribed.drop_last(), offered);
        let p = subscribed.last();
        if offered.contains(p) && !rest.contains(p) {
            rest.push(p)
        } else {
            rest
        }
    }
}

/// Where the movie titled `title` stands in `d`, the last such place; -1 if nowhere.
pub open spec fn title_index(d: Seq<(Seq<char>, Seq<Seq<char>>)>, title: Seq<char>) -> int
    decreases d.len(),
{
    if d.len() == 0 {
        -1
    } else if d.last().0 == title {
        d.len() - 1
    } else {
        title_index(d.drop_last(), title)
    }
}

/// `d` after a movie with matching platforms `ps` is noted: a movie with no
/// platform is left out, and one whose title is there already replaces it.
pub open spec fn record(
    d: Seq<(Seq<char>, Seq<Seq<char>>)>,
    title: Seq<char>,
    ps: Seq<Seq<char>>,
) -> Seq<(Seq<char>, Seq<Seq<char>>)> {
    if ps.len() == 0 {
        d
    } else if title_index(d, title) >= 0 {
        d.update(title_index(d, title), (title, ps))
    } else {
        d.push((title, ps))
    }
}

/// The movies, keyed by title, that the subscriber can watch, with their platforms.
pub open spec fn qualifying(
    subscribed: Seq<Seq<char>>,
    movies: Seq<(Seq<char>, Seq<Seq<char>>)>,
) -> Seq<(Seq<char>, Seq<Seq<char>>)>
    decreases movies.len(),
{
    if movies.len() == 0 {
        Seq::empty()
    } else {
        record(
            qualifying(subscribed, movies.drop_last()),
            movies.last().0,
            common(subscribed, movies.last().1),
        )
    }
}

fn text_is(s: &String, lit: &str) -> (r: bool)
    ensures
        r == (s@ == lit@),
{
    let t = String::from_str(lit);
    *s == t
}

fn holds_text(v: &Vec<String>, s: &String) -> (r: bool)
    ensures
        r == v.deep_view().contains(s@),
{
    let mut i: usize = 0;
    while i < v.len()
        invariant
            i <= v.len(),
            forall|j: int| 0 <= j < i ==> v[j]@ != s@,
        decreases v.len() - i,
    {
        if v[i] == *s {
            assert(v.deep_view()[i as int] == s@);
            return true;
        }
        i = i + 1;
    }
    proof {
        if v.deep_view().contains(s@) {
            let k = choose|k: int| 0 <= k < v.deep_view().len() && v.deep_view()[k] == s@;
            assert(v[k]@ == s@);
        }
    }
    false
}

/// The platforms on which the offers let one watch the movie without renting
/// or buying it: the add-on's name for an add-on, else the service's.
pub fn offering_platforms(offers: &Vec<ServiceOffer>) -> (r: Vec<String>)
    ensures
        r.deep_view() == access_platforms(offers@),
{
    let mut r: Vec<String> = Vec::new();
    let mut i: usize = 0;
    while i < offers.len()
        invariant
            i <= offers.len(),
            r.deep_view() == access_platforms(offers@.take(i as int)),
        decreases offers.len() - i,
    {
        let o = &offers[i];
        proof {
            assert(offers@.take(i + 1).drop_last() =~= offers@.take(i as int));
        }
        if text_is(&o.streaming_type, "subscription") || text_is(&o.streaming_type, "addon") {
            let name = match &o.addon {
                Some(a) => a.clone(),
                None => o.service.clone(),
            };
            let ghost before = r.deep_view();
            r.push(name);
            assert(r.deep_view() =~= before.push(platform_of(offers@[i as int])));
        }
        i = i + 1;
    }
    assert(offers@.take(offers.len() as int) =~= offers@);
    r
}

/// The subscribed platforms that offer the movie, each once, in the order in
/// which they are subscribed.
pub fn qualifying_platforms(subscribed: &Vec<String>, offered: &Vec<String>) -> (r: Vec<String>)
    ensures
        r.deep_view() == common(subscribed.deep_view(), offered.deep_view()),
{
    let mut r: Vec<String> = Vec::new();
    let mut i: usize = 0;
    while i < subscribed.len()
        invariant
            i <= subscribed.len(),
            r.deep_view() == common(subscribed.deep_view().take(i as int), offered.deep_view()),
        decreases subscribed.len() - i,
    {
        let p = &subscribed[i];
        proof {
            assert(subscribed.deep_view().take(i + 1).drop_last() =~= subscribed.deep_view().take(i as int));
        }
        if holds_text(offered, p) && !holds_text(&r, p) {
            let ghost before = r.deep_view();
            r.push(p.clone());
            assert(r.deep_view() =~= before.push(p@));
        }
        i = i + 1;
    }
    assert(subscribed.deep_view().take(subscribed.len() as int) =~= subscribed.deep_view());
    r
}

/// Notes a movie with its matching platforms in `digest`: a movie with no
/// platform is left out, and one whose title is there already replaces it.
fn record_movie(digest: &mut Vec<MovieMatch>, title: String, platforms: Vec<String>)
    ensures
        match_views(final(digest)@)
            == record(match_views(old(digest)@), title@, platforms.deep_view()),
{
    let ghost d = match_views(digest@);
    if platforms.len() == 0 {
        assert(platforms.deep_view().len() == 0);
        return;
    }
    let mut i: usize = digest.len();
    assert(d.take(d.len() as int) =~= d);
    while i > 0
        invariant
            i <= digest.len(),
            match_views(digest@) == d,
            d == match_views(old(digest)@),
            platforms.len() > 0,
            platforms.deep_view().len() == platforms.len(),
            title_index(d, title@) == title_index(d.take(i as int), title@),
        decreases i,
    {
        proof {
            assert(d.take(i as int).drop_last() =~= d.take(i - 1));
            assert(d.take(i as int).last() == d[i - 1]);
        }
        if digest[i - 1].title == title {
            let ghost k = (i - 1) as int;
            assert(d[k].0 == title@);
            assert(title_index(d.take(i as int), title@) == k);
            assert(platforms.deep_view().len() > 0);
            digest.set(i - 1, MovieMatch { title, platforms });
            assert(match_views(digest@) =~= d.update(k, (title@, platforms.deep_view())));
            return;
        }
        i = i - 1;
    }
    assert(d.take(0) =~= Seq::<(Seq<char>, Seq<Seq<char>>)>::empty());
    digest.push(MovieMatch { title, platforms });
    assert(match_views(digest@) =~= d.push((title@, platforms.deep_view())));
}

/// The movies that the subscriber can watch on one of `subscribed`, keyed by
/// title, each with the subscribed platforms that offer it.
pub fn qualify_movies(subscribed: &Vec<String>, movies: Vec<MovieAvailability>) -> (r: Vec<MovieMatch>)
    ensures
        match_views(r@) == qualifying(subscribed.deep_view(), availability_views(movies@)),
{
    let ghost ms = availability_views(movies@);
    let mut r: Vec<MovieMatch> = Vec::new();
    let mut rest = movies;
    let ghost mut i: int = 0;
    while rest.len() > 0
        invariant
            0 <= i <= ms.len(),
            rest.len() == ms.len() - i,
            forall|k: int| 0 <= k < rest.len() ==> #[trigger] rest@[k]@ == ms[i + k],
            match_views(r@) == qualifying(subscribed.deep_view(), ms.take(i)),
        decreases rest.len(),
    {
        let ghost before = rest@;
        let m = rest.remove(0);
        proof {
            assert(before[0]@ == ms[i]);
            assert(m@ == ms[i]);
            assert(ms.take(i + 1).drop_last() =~= ms.take(i));
            assert(ms.take(i + 1).last() == ms[i]);
        }
        let platforms = qualifying_platforms(subscribed, &m.platforms);
        record_movie(&mut r, m.title, platforms);
        proof {
            assert forall|k: int| 0 <= k < rest.len() implies #[trigger] rest@[k]@ == ms[i + 1 + k] by {
                assert(rest@[k] == before[k + 1]);
            }
            i = i + 1;
        }
    }
    assert(ms.take(i) =~= ms);
    r
}

} // verus!
