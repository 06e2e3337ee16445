//! Daily digest of upcoming TV episodes and of movies on subscribed streaming
//! services: the verified pipeline that selects, orders, filters and renders
//! what the fetchers brought back.
//!
//! - `show`: the episode to announce for one show.
//! - `pipeline`: the all-or-nothing join of the show fetches, the week's
//!   horizon and the stable order by air time.
//! - `movie`: the platforms that offer a movie and those the subscriber has.
//! - `render`: the digest as plain text or markup.
//! - `clock`: instants and local days, and the chrono calls on them.
//! - `laws`: what holds of the pipeline over all inputs.

mod clock;
mod laws;
mod movie;
mod pipeline;
mod render;
mod show;

pub use clock::{day_of, local_day, today_at, MAX_INSTANT, MIN_INSTANT, SECONDS_PER_DAY};
pub use laws::{law_common_platforms, law_digest_partition, law_horizon_boundary, law_unmatched_movie_dropped};
pub use movie::{
    common, offering_platforms, qualify_movies, qualifying, qualifying_platforms, MovieAvailability,
    MovieMatch, ServiceOffer,
};
pub use pipeline::{
    collect_shows, kept_events, others, sort_by_time, sorted_by_time, todays, FUTURE_DAY_LIMIT,
};
pub use render::{digest_text, render_digest, subject_line, Style};
pub use show::{
    next_episode, parse_show, pick_episode, Embedded, EpisodeFields, FetchError, ShowEvent, ShowPayload,
};
