use tv_notifier::{
    collect_shows, next_episode, parse_show, render_digest, today_at, Embedded, EpisodeFields,
    FetchError, ShowPayload, Style,
};

fn fields(name: &str, airstamp: &str) -> EpisodeFields {
    EpisodeFields { name: Some(name.to_string()), airstamp: Some(airstamp.to_string()) }
}

fn payload(name: &str, previous: Option<EpisodeFields>, next: Option<EpisodeFields>) -> ShowPayload {
    ShowPayload {
        name: Some(name.to_string()),
        embedded: Some(Embedded { previous, next }),
    }
}

#[test]
fn only_next_episode_tomorrow_lands_in_future_section() {
    let next = fields("Fishes", "2024-03-02T20:00:00Z");
    let today = parse_show(1, "The Bear", &next).local_day() - 1;
    let result = next_episode(1, &payload("The Bear", None, Some(next)), today);
    let shows = collect_shows(vec![result], today).unwrap();
    assert_eq!(shows.len(), 1);
    let text = render_digest(&shows, &vec![], today, Style::Plain, "");
    assert!(text.starts_with("Today's shows:\nNothing airing today.\n\nFuture shows:\n"));
    assert!(text.ends_with(": The Bear (Fishes)\n"));
    if shows[0].utc_offset == 0 {
        assert!(text.contains("Future shows:\nSat. Mar. 02  8:00 PM: The Bear (Fishes)\n"));
    }
}

#[test]
fn previous_episode_today_lands_in_today_section() {
    let prev = fields("Today's", "2024-03-02T12:00:00Z");
    let next = fields("Next week's", "2024-03-09T12:00:00Z");
    let today = parse_show(2, "Andor", &prev).local_day();
    let result = next_episode(2, &payload("Andor", Some(prev), Some(next)), today);
    let shows = collect_shows(vec![result], today).unwrap();
    assert_eq!(shows.len(), 1);
    assert_eq!(shows[0].episode_name, "Today's");
    let text = render_digest(&shows, &vec![], today, Style::Plain, "");
    assert!(text.starts_with("Today's shows:\n"));
    assert!(text.ends_with(": Andor (Today's)\n\n"));
    assert!(!text.contains("Future shows:"));
}

#[test]
fn show_without_embedded_episodes_is_absent() {
    let empty = ShowPayload { name: Some("Gone".to_string()), embedded: None };
    let other = payload("Here", None, Some(fields("Pilot", "2024-03-02T20:00:00Z")));
    let today = parse_show(4, "Here", &fields("", "2024-03-02T20:00:00Z")).local_day();
    let results = vec![next_episode(3, &empty, today), next_episode(4, &other, today)];
    let shows = collect_shows(results, today).unwrap();
    assert_eq!(shows.len(), 1);
    assert_eq!(shows[0].id, 4);
    let text = render_digest(&shows, &vec![], today, Style::Plain, "");
    assert!(!text.contains("Gone"));
}

#[test]
fn one_failed_fetch_among_five_fails_the_run() {
    let today = parse_show(1, "A", &fields("", "2024-03-02T20:00:00Z")).local_day();
    let mut results = Vec::new();
    for id in 1..=5 {
        if id == 3 {
            results.push(Err(FetchError::Transport("connection refused".to_string())));
        } else {
            let p = payload("Show", None, Some(fields("Ep", "2024-03-02T20:00:00Z")));
            results.push(next_episode(id, &p, today));
        }
    }
    assert!(matches!(collect_shows(results, today), Err(FetchError::Transport(_))));
}

#[test]
fn today_is_within_a_day_of_the_utc_date() {
    let now: i64 = 1_709_409_600;
    let day = today_at(now);
    assert!((19_783..=19_785).contains(&day));
}
