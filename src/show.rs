//! Show events and the choice of the episode to announce for one show.
use vstd::prelude::*;
use crate::clock::{MAX_INSTANT, MIN_INSTANT, day_of, instant_in_range, local_day, local_offset_at, offset_in_range, parse_instant, rfc3339_instant};

verus! {

/// One episode to announce: the show, the episode's name and when it airs.
#[derive(Debug, Clone)]
pub struct ShowEvent {
    pub id: i32,
    pub name: String,
    pub episode_name: String,
    /// Seconds since the Unix epoch.
    pub air_time: i64,
    /// Local offset from UTC, in seconds, in force at `air_time`.
    pub utc_offset: i32,
}

impl ShowEvent {
    pub open spec fn wf(&self) -> bool {
        instant_in_range(self.air_time as int) && offset_in_range(self.utc_offset as int)
    }

    /// The local calendar day on which the episode airs.
    pub open spec fn day(&self) -> int {
        day_of(self.air_time as int, self.utc_offset as int)
    }

    /// The air time and offset are ones that chrono can read and write.
    pub fn well_formed(&self) -> (r: bool)
        ensures
            r == self.wf(),
    {
        MIN_INSTANT <= self.air_time && self.air_time <= MAX_INSTANT && -86400 < self.utc_offset
            && self.utc_offset < 86400
    }

    /// The local calendar day on which the episode airs.
    pub fn local_day(&self) -> (r: i64)
        requires
            self.wf(),
        ensures
            r == self.day(),
    {
        local_day(self.air_time, self.utc_offset)
    }
}

/// The fields of an embedded episode that the show API returned; a field is
/// `None` where the API gave no text for it.
#[derive(Debug, Clone)]
pub struct EpisodeFields {
    pub name: Option<String>,
    pub airstamp: Option<String>,
}

/// The embedded episodes of a show, each `None` where the API gave none.
#[derive(Debug, Clone)]
pub struct Embedded {
    pub previous: Option<EpisodeFields>,
    pub next: Option<EpisodeFields>,
}

/// What the show API returned for one show.
#[derive(Debug, Clone)]
pub struct ShowPayload {
    pub name: Option<String>,
    pub embedded: Option<Embedded>,
}

/// Why the data of one show or movie could not be had.
#[derive(Debug, Clone)]
pub enum FetchError {
    /// The request failed or the service answered with an error status.
    Transport(String),
    /// The body was not the document that was expected.
    Malformed(String),
    /// The show document carries no name.
    MissingShowName,
}

pub open spec fn text_or_empty(t: Option<String>) -> Seq<char> {
    match t {
        Some(s) => s@,
        None => Seq::empty(),
    }
}

/// The instant of an airstamp; an absent or unreadable one stands for the epoch.
pub open spec fn instant_or_epoch(airstamp: Option<String>) -> int {
    match rfc3339_instant(text_or_empty(airstamp)) {
        Some(t) => t,
        None => 0,
    }
}

/// `e` is the event made from the episode `fields` of show `id` named `name`.
pub open spec fn describes(e: ShowEvent, id: i32, name: Seq<char>, fields: EpisodeFields) -> bool {
    &&& e.wf()
    &&& e.id == id
    &&& e.name@ == name
    &&& e.episode_name@ == text_or_empty(fields.name)
    &&& e.air_time == instant_or_epoch(fields.airstamp)
}

pub open spec fn describes_opt(
    e: Option<ShowEvent>,
    id: i32,
    name: Seq<char>,
    fields: Option<EpisodeFields>,
) -> bool {
    match (e, fields) {
        (Some(e), Some(f)) => describes(e, id, name, f),
        (None, None) => true,
        _ => false,
    }
}

/// The episode to announce: the previous one if it aired today, else the next.
pub open spec fn chosen(previous: Option<ShowEvent>, next: Option<ShowEvent>, today: int) -> Option<ShowEvent> {
    match previous {
        Some(p) if p.day() == today => Some(p),
        _ => next,
    }
}

fn owned_or_empty(t: &Option<String>) -> (r: String)
    ensures
        r@ == text_or_empty(*t),
{
    match t {
        Some(s) => s.clone(),
        None => String::new(),
    }
}

/// The event for one embedded episode of a show. A missing name reads as empty
/// and a missing or unreadable airstamp as the epoch; the offset is the one
/// this machine's time zone has at the air time.
pub fn parse_show(show_id: i32, show_name: &str, episode: &EpisodeFields) -> (r: ShowEvent)
    ensures
        describes(r, show_id, show_name@, *episode),
{
    let airstamp = owned_or_empty(&episode.airstamp);
    let air_time: i64 = match parse_instant(airstamp.as_str()) {
        Some(t) => t,
        None => 0,
    };
    let utc_offset = local_offset_at(air_time);
    ShowEvent {
        id: show_id,
        name: show_name.to_string(),
        episode_name: owned_or_empty(&episode.name),
        air_time,
        utc_offset,
    }
}

/// Of a show's previous and next episode, the one to announce: the previous
/// one when it aired on `today`, else the next one, if any.
pub fn pick_episode(previous: Option<ShowEvent>, next: Option<ShowEvent>, today: i64) -> (r: Option<ShowEvent>)
    requires
        previous matches Some(p) ==> p.wf(),
    ensures
        r == chosen(previous, next, today as int),
{
    match previous {
        Some(p) => {
            if p.local_day() == today {
                Some(p)
            } else {
                next
            }
        },
        None => next,
    }
}

/// The event to announce for show `show_id`, from what the show API returned.
/// A document without a show name is an error; one without embedded episodes
/// gives no event.
pub fn next_episode(show_id: i32, payload: &ShowPayload, today: i64) -> (r: Result<Option<ShowEvent>, FetchError>)
    ensures
        payload.name is None <==> r matches Err(FetchError::MissingShowName),
        payload.name is None || r is Ok,
        payload.name is Some && payload.embedded is None ==> r matches Ok(None),
        payload.name is Some && payload.embedded is Some ==> exists|
            p: Option<ShowEvent>,
            n: Option<ShowEvent>,
        |
            describes_opt(p, show_id, payload.name.unwrap()@, payload.embedded.unwrap().previous)
                && describes_opt(n, show_id, payload.name.unwrap()@, payload.embedded.unwrap().next)
                && (r matches Ok(e) && e == chosen(p, n, today as int)),
{
    let name = match &payload.name {
        Some(name) => name,
        None => {
            return Err(FetchError::MissingShowName);
        },
    };
    let emb = match &payload.embedded {
        Some(emb) => emb,
        None => {
            return Ok(None);
        },
    };
    let previous = match &emb.previous {
        Some(f) => Some(parse_show(show_id, name.as_str(), f)),
        None => None,
    };
    let next = match &emb.next {
        Some(f) => Some(parse_show(show_id, name.as_str(), f)),
        None => None,
    };
    let ghost (gp, gn) = (previous, next);
    let r = pick_episode(previous, next, today);
    assert(describes_opt(gp, show_id, name@, emb.previous) && describes_opt(gn, show_id, name@, emb.next));
    Ok(r)
}

} // verus!
