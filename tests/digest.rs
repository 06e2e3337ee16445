use tv_notifier::{
    offering_platforms, qualify_movies, qualifying_platforms, render_digest, subject_line,
    MovieAvailability, MovieMatch, ServiceOffer, ShowEvent, Style,
};

const DAY: i64 = 86_400;
// 2024-03-02T20:00:00Z, a Saturday.
const SAT_8PM: i64 = 1_709_409_600;
const SAT: i64 = 19_784;

fn event(id: i32, name: &str, episode: &str, air_time: i64) -> ShowEvent {
    ShowEvent {
        id,
        name: name.to_string(),
        episode_name: episode.to_string(),
        air_time,
        utc_offset: 0,
    }
}

fn strings(v: &[&str]) -> Vec<String> {
    v.iter().map(|s| s.to_string()).collect()
}

fn offer(service: &str, kind: &str, addon: Option<&str>) -> ServiceOffer {
    ServiceOffer {
        service: service.to_string(),
        streaming_type: kind.to_string(),
        addon: addon.map(|a| a.to_string()),
    }
}

#[test]
fn plain_digest_partitions_today_and_future() {
    let shows = vec![
        event(1, "Severance", "Cold Harbor", SAT_8PM),
        event(2, "Andor", "One Way Out", SAT_8PM + DAY + 3600),
    ];
    let text = render_digest(&shows, &vec![], SAT, Style::Plain, "https://example.org");
    assert_eq!(
        text,
        "Today's shows:\nSat. Mar. 02  8:00 PM: Severance (Cold Harbor)\n\n\
         Future shows:\nSun. Mar. 03  9:00 PM: Andor (One Way Out)\n"
    );
}

#[test]
fn plain_digest_with_nothing_today() {
    let shows = vec![event(2, "Andor", "One Way Out", SAT_8PM + DAY)];
    let text = render_digest(&shows, &vec![], SAT, Style::Plain, "");
    assert_eq!(
        text,
        "Today's shows:\nNothing airing today.\n\nFuture shows:\nSun. Mar. 03  8:00 PM: Andor (One Way Out)\n"
    );
    let empty = render_digest(&vec![], &vec![], SAT, Style::Plain, "");
    assert_eq!(empty, "Today's shows:\nNothing airing today.\n\n");
}

#[test]
fn tomorrow_at_eight_renders_in_the_future_section() {
    let shows = vec![event(9, "The Bear", "Fishes", SAT_8PM)];
    let text = render_digest(&shows, &vec![], SAT - 1, Style::Plain, "");
    assert_eq!(
        text,
        "Today's shows:\nNothing airing today.\n\nFuture shows:\nSat. Mar. 02  8:00 PM: The Bear (Fishes)\n"
    );
}

#[test]
fn html_digest_links_each_show() {
    let shows = vec![event(44458, "Severance", "Cold Harbor", SAT_8PM)];
    let text = render_digest(&shows, &vec![], SAT, Style::Html, "https://tv.example.org");
    assert_eq!(
        text,
        "<pre><b>Today's shows:<br />Sat. Mar. 02  8:00 PM: \
         <a href=\"https://www.tvmaze.com/shows/44458\">Severance</a> (Cold Harbor)<br /></b><br />\
         <br />Manage subscriptions on <a href=\"https://tv.example.org\">TV Notifier UI</a></pre>"
    );
}

#[test]
fn html_digest_writes_negative_ids_with_a_sign() {
    let shows = vec![event(-12, "X", "Y", SAT_8PM)];
    let text = render_digest(&shows, &vec![], SAT, Style::Html, "u");
    assert!(text.contains("https://www.tvmaze.com/shows/-12\""));
}

#[test]
fn digest_lists_the_qualifying_movies() {
    let movies = vec![MovieMatch { title: "Heat".to_string(), platforms: strings(&["Max", "Netflix"]) }];
    let text = render_digest(&vec![], &movies, SAT, Style::Plain, "");
    assert_eq!(
        text,
        "Today's shows:\nNothing airing today.\n\n\nMovies:\nHeat available on Max, Netflix\n"
    );
}

#[test]
fn rendering_twice_gives_the_same_bytes() {
    let shows = vec![
        event(1, "Severance", "Cold Harbor", SAT_8PM),
        event(2, "Andor", "One Way Out", SAT_8PM + 3 * DAY),
    ];
    let movies = vec![MovieMatch { title: "Heat".to_string(), platforms: strings(&["Max"]) }];
    for style in [Style::Plain, Style::Html] {
        let a = render_digest(&shows, &movies, SAT, style, "https://u");
        let b = render_digest(&shows, &movies, SAT, style, "https://u");
        assert_eq!(a.as_bytes(), b.as_bytes());
    }
}

#[test]
fn subject_names_the_day() {
    assert_eq!(subject_line(0), "Upcoming shows for Thu. Jan. 01");
    assert_eq!(subject_line(SAT), "Upcoming shows for Sat. Mar. 02");
}

#[test]
fn offering_platforms_keeps_subscription_and_addon() {
    let offers = vec![
        offer("netflix", "subscription", None),
        offer("apple", "rent", None),
        offer("prime", "addon", Some("mgm")),
        offer("apple", "buy", None),
        offer("hulu", "addon", None),
    ];
    assert_eq!(offering_platforms(&offers), strings(&["netflix", "mgm", "hulu"]));
    assert!(offering_platforms(&vec![]).is_empty());
}

#[test]
fn qualifying_platforms_is_the_intersection() {
    let r = qualifying_platforms(&strings(&["B", "C"]), &strings(&["A", "B"]));
    assert_eq!(r, strings(&["B"]));
    let r = qualifying_platforms(&strings(&["B", "C"]), &strings(&["D"]));
    assert!(r.is_empty());
    let r = qualifying_platforms(&strings(&["C", "B", "C"]), &strings(&["B", "C", "B"]));
    assert_eq!(r, strings(&["C", "B"]));
}

#[test]
fn qualify_movies_drops_the_unwatchable_and_keys_by_title() {
    let subscribed = strings(&["B", "C"]);
    let movies = vec![
        MovieAvailability { title: "First".to_string(), platforms: strings(&["A", "B"]) },
        MovieAvailability { title: "Second".to_string(), platforms: strings(&["D"]) },
        MovieAvailability { title: "Third".to_string(), platforms: strings(&["C"]) },
        MovieAvailability { title: "First".to_string(), platforms: strings(&["C", "B"]) },
    ];
    let r = qualify_movies(&subscribed, movies);
    assert_eq!(r.len(), 2);
    assert_eq!(r[0].title, "First");
    assert_eq!(r[0].platforms, strings(&["B", "C"]));
    assert_eq!(r[1].title, "Third");
    assert_eq!(r[1].platforms, strings(&["C"]));
}
