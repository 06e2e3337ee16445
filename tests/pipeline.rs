use tv_notifier::{
    collect_shows, local_day, next_episode, parse_show, pick_episode, Embedded, EpisodeFields,
    FetchError, ShowEvent, ShowPayload, FUTURE_DAY_LIMIT,
};

const DAY: i64 = 86_400;

fn event(id: i32, name: &str, episode: &str, air_time: i64) -> ShowEvent {
    ShowEvent {
        id,
        name: name.to_string(),
        episode_name: episode.to_string(),
        air_time,
        utc_offset: 0,
    }
}

fn fields(name: &str, airstamp: &str) -> EpisodeFields {
    EpisodeFields { name: Some(name.to_string()), airstamp: Some(airstamp.to_string()) }
}

fn payload(previous: Option<EpisodeFields>, next: Option<EpisodeFields>) -> ShowPayload {
    ShowPayload {
        name: Some("Severance".to_string()),
        embedded: Some(Embedded { previous, next }),
    }
}

// 2024-03-02T20:00:00Z
const SAT_8PM: i64 = 1_709_409_600;

#[test]
fn local_day_rounds_towards_the_past() {
    assert_eq!(local_day(0, 0), 0);
    assert_eq!(local_day(DAY - 1, 0), 0);
    assert_eq!(local_day(DAY, 0), 1);
    assert_eq!(local_day(-1, 0), -1);
    assert_eq!(local_day(0, -3600), -1);
    assert_eq!(local_day(DAY - 3600, 3600), 1);
    assert_eq!(local_day(SAT_8PM, 0), 19_784);
}

#[test]
fn parse_show_reads_the_airstamp() {
    let e = parse_show(7, "Severance", &fields("Hello, Ms. Cobel", "2024-03-02T20:00:00+00:00"));
    assert_eq!(e.id, 7);
    assert_eq!(e.name, "Severance");
    assert_eq!(e.episode_name, "Hello, Ms. Cobel");
    assert_eq!(e.air_time, SAT_8PM);
    let shifted = parse_show(7, "Severance", &fields("x", "2024-03-02T22:00:00+02:00"));
    assert_eq!(shifted.air_time, SAT_8PM);
}

#[test]
fn parse_show_defaults_missing_fields() {
    let e = parse_show(3, "Show", &EpisodeFields { name: None, airstamp: None });
    assert_eq!(e.episode_name, "");
    assert_eq!(e.air_time, 0);
    let bad = parse_show(3, "Show", &fields("Pilot", "next tuesday"));
    assert_eq!(bad.air_time, 0);
    assert_eq!(bad.episode_name, "Pilot");
}

#[test]
fn pick_prefers_a_previous_episode_that_aired_today() {
    let prev = event(1, "A", "prev", SAT_8PM - 3600);
    let next = event(1, "A", "next", SAT_8PM + 7 * DAY);
    let today = local_day(SAT_8PM, 0);
    let r = pick_episode(Some(prev.clone()), Some(next.clone()), today).unwrap();
    assert_eq!(r.episode_name, "prev");
    let r = pick_episode(Some(prev), Some(next), today + 1).unwrap();
    assert_eq!(r.episode_name, "next");
    assert!(pick_episode(Some(event(1, "A", "old", SAT_8PM - DAY)), None, today).is_none());
    assert!(pick_episode(None, None, today).is_none());
}

#[test]
fn next_episode_only_next_embedded() {
    // A show whose only embedded episode airs tomorrow at 20:00.
    let p = payload(None, Some(fields("Woe's Hollow", "2024-03-02T20:00:00Z")));
    let tomorrow = parse_show(5, "Severance", &fields("Woe's Hollow", "2024-03-02T20:00:00Z"));
    let today = tomorrow.local_day() - 1;
    let e = next_episode(5, &p, today).unwrap().unwrap();
    assert_eq!(e.id, 5);
    assert_eq!(e.name, "Severance");
    assert_eq!(e.episode_name, "Woe's Hollow");
    assert_eq!(e.air_time, SAT_8PM);
    assert_ne!(e.local_day(), today);
}

#[test]
fn next_episode_previous_aired_today() {
    let prev = fields("Today's", "2024-03-02T12:00:00Z");
    let next = fields("Next week's", "2024-03-09T12:00:00Z");
    let today = parse_show(5, "Severance", &prev).local_day();
    let e = next_episode(5, &payload(Some(prev), Some(next)), today).unwrap().unwrap();
    assert_eq!(e.episode_name, "Today's");
    assert_eq!(e.local_day(), today);
}

#[test]
fn next_episode_previous_from_another_day() {
    let prev = fields("Last week's", "2024-02-24T12:00:00Z");
    let next = fields("Next week's", "2024-03-09T12:00:00Z");
    let today = parse_show(5, "Severance", &fields("", "2024-03-02T12:00:00Z")).local_day();
    let e = next_episode(5, &payload(Some(prev), Some(next)), today).unwrap().unwrap();
    assert_eq!(e.episode_name, "Next week's");
}

#[test]
fn next_episode_without_embedded_episodes() {
    let p = ShowPayload { name: Some("Severance".to_string()), embedded: None };
    assert!(matches!(next_episode(5, &p, 19_784), Ok(None)));
    let p = payload(None, None);
    assert!(matches!(next_episode(5, &p, 19_784), Ok(None)));
    let r = collect_shows(vec![next_episode(5, &p, 19_784)], 19_784).unwrap();
    assert!(r.is_empty());
}

#[test]
fn next_episode_without_show_name() {
    let p = ShowPayload { name: None, embedded: None };
    assert!(matches!(next_episode(5, &p, 0), Err(FetchError::MissingShowName)));
}

#[test]
fn collect_orders_by_air_time_stably() {
    let today = local_day(SAT_8PM, 0);
    let results = vec![
        Ok(Some(event(1, "late", "e", SAT_8PM + 2 * DAY))),
        Ok(None),
        Ok(Some(event(2, "tie first", "e", SAT_8PM))),
        Ok(Some(event(3, "early", "e", SAT_8PM - 3600))),
        Ok(Some(event(4, "tie second", "e", SAT_8PM))),
    ];
    let shows = collect_shows(results, today).unwrap();
    let ids: Vec<i32> = shows.iter().map(|e| e.id).collect();
    assert_eq!(ids, vec![3, 2, 4, 1]);
}

#[test]
fn collect_horizon_boundary() {
    let today = local_day(SAT_8PM, 0);
    let results = vec![
        Ok(Some(event(8, "eight days", "e", SAT_8PM + 8 * DAY))),
        Ok(Some(event(7, "seven days", "e", SAT_8PM + FUTURE_DAY_LIMIT * DAY))),
        Ok(Some(event(0, "today", "e", SAT_8PM))),
    ];
    let shows = collect_shows(results, today).unwrap();
    let ids: Vec<i32> = shows.iter().map(|e| e.id).collect();
    assert_eq!(ids, vec![0, 7]);
}

#[test]
fn collect_fails_when_one_fetch_fails() {
    let today = local_day(SAT_8PM, 0);
    let results = vec![
        Ok(Some(event(1, "a", "e", SAT_8PM))),
        Ok(Some(event(2, "b", "e", SAT_8PM))),
        Err(FetchError::Transport("HTTP status server error (502 Bad Gateway)".to_string())),
        Ok(None),
        Err(FetchError::Malformed("expected value".to_string())),
    ];
    match collect_shows(results, today) {
        Err(FetchError::Transport(m)) => assert!(m.contains("502")),
        other => panic!("expected the first transport error, got {:?}", other),
    }
}

#[test]
fn collect_of_nothing_is_empty() {
    assert!(collect_shows(vec![], 0).unwrap().is_empty());
}
