//! The digest as text: today's episodes, the week's later ones, and the movies
//! that can be watched, as plain text or as markup for a rich-text mail.
use vstd::prelude::*;
use vstd::string::StringExecFns;
use crate::clock::{EPOCH_DAY_FROM_CE, day_label, day_of, format_day, format_time, time_label, MAX_INSTANT, MIN_INSTANT};
use crate::movie::{match_views, MovieMatch};
use crate::pipeline::{others, todays};
use crate::show::ShowEvent;

verus! {

/// How the digest is written.
#[derive(Debug, Clone, Copy, PartialEq, Eq, Structural)]
pub enum Style {
    /// Lines of plain text, for the console.
    Plain,
    /// Markup for the body of a rich-text mail, with a link to each show's page.
    Html,
}

pub open spec fn line_break(style: Style) -> Seq<char> {
    match style {
        Style::Plain => "\n"@,
        Style::Html => "<br />"@,
    }
}

pub open spec fn digit_char(d: int) -> char {
    "0123456789"@[d]
}

/// The decimal digits of `n`.
pub open spec fn digits(n: nat) -> Seq<char>
    decreases n,
{
    if n < 10 {
        seq![digit_char(n as int)]
    } else {
        digits(n / 10).push(digit_char((n % 10) as int))
    }
}

/// `n` written in decimal, with a minus sign when negative.
pub open spec fn decimal(n: int) -> Seq<char> {
    if n < 0 {
        seq!['-'] + digits((-n) as nat)
    } else {
        digits(n as nat)
    }
}

/// The show's name, linked to its page in markup.
pub open spec fn show_title(e: ShowEvent, style: Style) -> Seq<char> {
    match style {
        Style::Plain => e.name@,
        Style::Html => "<a href=\"https://www.tvmaze.com/shows/"@ + decimal(e.id as int) + "\">"@ + e.name@
            + "</a>"@,
    }
}

/// `<local time>: <name> (<episode>)` and a line break.
pub open spec fn show_line(e: ShowEvent, style: Style) -> Seq<char> {
    time_label(e.air_time as int, e.utc_offset as int) + ": "@ + show_title(e, style) + " ("@
        + e.episode_name@ + ")"@ + line_break(style)
}

pub open spec fn show_lines(s: Seq<ShowEvent>, style: Style) -> Seq<char>
    decreases s.len(),
{
    if s.len() == 0 {
        Seq::empty()
    } else {
        show_lines(s.drop_last(), style) + show_line(s.last(), style)
    }
}

/// The names separated by `, `.
pub open spec fn joined(names: Seq<Seq<char>>) -> Seq<char>
    decreases names.len(),
{
    if names.len() == 0 {
        Seq::empty()
    } else if names.len() == 1 {
        names[0]
    } else {
        joined(names.drop_last()) + ", "@ + names.last()
    }
}

/// `<title> available on <platforms>` and a line break.
pub open spec fn movie_line(m: (Seq<char>, Seq<Seq<char>>), style: Style) -> Seq<char> {
    m.0 + " available on "@ + joined(m.1) + line_break(style)
}

pub open spec fn movie_lines(ms: Seq<(Seq<char>, Seq<Seq<char>>)>, style: Style) -> Seq<char>
    decreases ms.len(),
{
    if ms.len() == 0 {
        Seq::empty()
    } else {
        movie_lines(ms.drop_last(), style) + movie_line(ms.last(), style)
    }
}

pub open spec fn today_section(shows: Seq<ShowEvent>, today: int, style: Style) -> Seq<char> {
    let t = todays(shows, today);
    let body = if t.len() == 0 {
        match style {
            Style::Plain => "Nothing airing today."@ + line_break(style),
            Style::Html => "<i>Nothing airing today.</i>"@ + line_break(style),
        }
    } else {
        show_lines(t, style)
    };
    match style {
        Style::Plain => "Today's shows:"@ + line_break(style) + body + line_break(style),
        Style::Html => "<pre><b>Today's shows:"@ + line_break(style) + body + "</b>"@ + line_break(style),
    }
}

pub open spec fn future_section(shows: Seq<ShowEvent>, today: int, style: Style) -> Seq<char> {
    let o = others(shows, today);
    if o.len() == 0 {
        Seq::empty()
    } else {
        "Future shows:"@ + line_break(style) + show_lines(o, style)
    }
}

pub open spec fn movie_section(movies: Seq<(Seq<char>, Seq<Seq<char>>)>, style: Style) -> Seq<char> {
    if movies.len() == 0 {
        Seq::empty()
    } else {
        line_break(style) + "Movies:"@ + line_break(style) + movie_lines(movies, style)
    }
}

pub open spec fn footer(style: Style, site_url: Seq<char>) -> Seq<char> {
    match style {
        Style::Plain => Seq::empty(),
        Style::Html => line_break(style) + "Manage subscriptions on <a href=\""@ + site_url
            + "\">TV Notifier UI</a></pre>"@,
    }
}

/// The whole digest.
pub open spec fn digest_text(
    shows: Seq<ShowEvent>,
    movies: Seq<(Seq<char>, Seq<Seq<char>>)>,
    today: int,
    style: Style,
    site_url: Seq<char>,
) -> Seq<char> {
    today_section(shows, today, style) + future_section(shows, today, style) + movie_section(movies, style)
        + footer(style, site_url)
}

pub open spec fn subject_text(today: int) -> Seq<char> {
    "Upcoming shows for "@ + day_label(today + EPOCH_DAY_FROM_CE)
}

pub open spec fn all_wf(shows: Seq<ShowEvent>) -> bool {
    forall|i: int| 0 <= i < shows.len() ==> #[trigger] shows[i].wf()
}

fn push_break(out: &mut String, style: Style)
    ensures
        final(out)@ == old(out)@ + line_break(style),
{
    match style {
        Style::Plain => out.append("\n"),
        Style::Html => out.append("<br />"),
    }
}

fn push_digits(out: &mut String, n: u64)
    ensures
        final(out)@ == old(out)@ + digits(n as nat),
    decreases n,
{
    let table = "0123456789";
    proof {
        reveal_strlit("0123456789");
    }
    if n >= 10 {
        push_digits(out, n / 10);
    }
    let d = (n % 10) as usize;
    let c = table.substring_char(d, d + 1);
    assert(c@ =~= seq![digit_char(d as int)]);
    out.append(c);
    proof {
        if n >= 10 {
            assert(old(out)@ + digits((n / 10) as nat) + c@ =~= old(out)@ + digits(n as nat));
        } else {
            assert(old(out)@ + c@ =~= old(out)@ + digits(n as nat));
        }
    }
}

fn push_decimal(out: &mut String, n: i32)
    ensures
        final(out)@ == old(out)@ + decimal(n as int),
{
    if n < 0 {
        let ghost start = out@;
        proof {
            reveal_strlit("-");
        }
        out.append("-");
        push_digits(out, (-(n as i64)) as u64);
        assert(out@ =~= start + decimal(n as int));
    } else {
        push_digits(out, n as u64);
    }
}

fn push_show_line(out: &mut String, e: &ShowEvent, style: Style)
    requires
        e.wf(),
    ensures
        final(out)@ == old(out)@ + show_line(*e, style),
{
    let ghost start = out@;
    let time = format_time(e.air_time, e.utc_offset);
    out.append(time.as_str());
    out.append(": ");
    match style {
        Style::Plain => out.append(e.name.as_str()),
        Style::Html => {
            out.append("<a href=\"https://www.tvmaze.com/shows/");
            push_decimal(out, e.id);
            out.append("\">");
            out.append(e.name.as_str());
            out.append("</a>");
        },
    }
    out.append(" (");
    out.append(e.episode_name.as_str());
    out.append(")");
    push_break(out, style);
    assert(out@ =~= start + show_line(*e, style));
}

fn push_movie_line(out: &mut String, m: &MovieMatch, style: Style)
    ensures
        final(out)@ == old(out)@ + movie_line(m@, style),
{
    let ghost start = out@;
    out.append(m.title.as_str());
    out.append(" available on ");
    let ghost names = m.platforms.deep_view();
    let mut i: usize = 0;
    while i < m.platforms.len()
        invariant
            i <= m.platforms.len(),
            names == m.platforms.deep_view(),
            out@ == start + m.title@ + " available on "@ + joined(names.take(i as int)),
        decreases m.platforms.len() - i,
    {
        let ghost prefix = names.take(i as int);
        proof {
            assert(names.take(i + 1).drop_last() =~= prefix);
            assert(names.take(i + 1).last() == m.platforms[i as int]@);
        }
        if i > 0 {
            out.append(", ");
        } else {
            assert(prefix =~= Seq::<Seq<char>>::empty());
            assert(names.take(1) =~= seq![names[0]]);
        }
        out.append(m.platforms[i].as_str());
        proof {
            if i > 0 {
                assert(joined(names.take(i + 1)) == joined(prefix) + ", "@ + m.platforms[i as int]@);
            }
        }
        i = i + 1;
        assert(out@ =~= start + m.title@ + " available on "@ + joined(names.take(i as int)));
    }
    assert(names.take(m.platforms.len() as int) =~= names);
    push_break(out, style);
    assert(out@ =~= start + movie_line(m@, style));
}

/// The lines of the events that air on `today` and of the others, with how
/// many there are of each.
fn partition_lines(shows: &Vec<ShowEvent>, today: i64, style: Style) -> (r: (String, String, usize, usize))
    requires
        all_wf(shows@),
    ensures
        r.0@ == show_lines(todays(shows@, today as int), style),
        r.1@ == show_lines(others(shows@, today as int), style),
        r.2 == todays(shows@, today as int).len(),
        r.3 == others(shows@, today as int).len(),
{
    let ghost s = shows@;
    let mut today_lines = String::new();
    let mut other_lines = String::new();
    let mut n_today: usize = 0;
    let mut n_other: usize = 0;
    let mut i: usize = 0;
    while i < shows.len()
        invariant
            i <= shows.len(),
            s == shows@,
            all_wf(s),
            today_lines@ == show_lines(todays(s.take(i as int), today as int), style),
            other_lines@ == show_lines(others(s.take(i as int), today as int), style),
            n_today == todays(s.take(i as int), today as int).len(),
            n_other == others(s.take(i as int), today as int).len(),
            n_today + n_other == i,
        decreases shows.len() - i,
    {
        let e = &shows[i];
        let ghost t = s.take(i + 1);
        let ghost tt = todays(s.take(i as int), today as int);
        let ghost ot = others(s.take(i as int), today as int);
        proof {
            assert(t.drop_last() =~= s.take(i as int));
            assert(t.last() == s[i as int]);
            assert(s[i as int].wf());
            assert(tt.push(*e).drop_last() =~= tt);
            assert(ot.push(*e).drop_last() =~= ot);
            lemma_partition_lengths(s.take(i as int), today as int);
        }
        if e.local_day() == today {
            push_show_line(&mut today_lines, e, style);
            n_today = n_today + 1;
            assert(todays(t, today as int) == tt.push(*e));
            assert(others(t, today as int) == ot);
        } else {
            push_show_line(&mut other_lines, e, style);
            n_other = n_other + 1;
            assert(todays(t, today as int) == tt);
            assert(others(t, today as int) == ot.push(*e));
        }
        i = i + 1;
    }
    assert(s.take(i as int) =~= s);
    (today_lines, other_lines, n_today, n_other)
}

proof fn lemma_partition_lengths(s: Seq<ShowEvent>, today: int)
    ensures
        todays(s, today).len() + others(s, today).len() == s.len(),
    decreases s.len(),
{
    if s.len() > 0 {
        lemma_partition_lengths(s.drop_last(), today);
    }
}

fn push_movie_section(out: &mut String, movies: &Vec<MovieMatch>, style: Style)
    ensures
        final(out)@ == old(out)@ + movie_section(match_views(movies@), style),
{
    let ghost head = out@;
    let ghost ms = match_views(movies@);
    if movies.len() > 0 {
        push_break(out, style);
        out.append("Movies:");
        push_break(out, style);
        let ghost mstart = out@;
        let mut j: usize = 0;
        while j < movies.len()
            invariant
                j <= movies.len(),
                ms == match_views(movies@),
                out@ == mstart + movie_lines(ms.take(j as int), style),
            decreases movies.len() - j,
        {
            proof {
                assert(ms.take(j + 1).drop_last() =~= ms.take(j as int));
                assert(ms.take(j + 1).last() == movies@[j as int]@);
            }
            push_movie_line(out, &movies[j], style);
            j = j + 1;
            assert(out@ =~= mstart + movie_lines(ms.take(j as int), style));
        }
        assert(ms.take(movies.len() as int) =~= ms);
        assert(out@ =~= head + movie_section(ms, style));
    } else {
        assert(out@ =~= head + movie_section(ms, style));
    }
}

/// The digest of the ordered shows and of the qualifying movies: first the
/// episodes that air on `today` (or a line that says none does), then the
/// others when there are any, then the movies; in markup, a closing link to
/// `site_url` where subscriptions are managed.
pub fn render_digest(
    shows: &Vec<ShowEvent>,
    movies: &Vec<MovieMatch>,
    today: i64,
    style: Style,
    site_url: &str,
) -> (r: String)
    requires
        all_wf(shows@),
    ensures
        r@ == digest_text(shows@, match_views(movies@), today as int, style, site_url@),
{
    let ghost s = shows@;
    let (today_lines, other_lines, n_today, n_other) = partition_lines(shows, today, style);
    let mut out = String::new();
    match style {
        Style::Plain => out.append("Today's shows:"),
        Style::Html => out.append("<pre><b>Today's shows:"),
    }
    push_break(&mut out, style);
    if n_today == 0 {
        match style {
            Style::Plain => out.append("Nothing airing today."),
            Style::Html => out.append("<i>Nothing airing today.</i>"),
        }
        push_break(&mut out, style);
    } else {
        out.append(today_lines.as_str());
    }
    match style {
        Style::Plain => {},
        Style::Html => out.append("</b>"),
    }
    push_break(&mut out, style);
    assert(out@ =~= today_section(s, today as int, style));
    if n_other > 0 {
        out.append("Future shows:");
        push_break(&mut out, style);
        out.append(other_lines.as_str());
    }
    assert(out@ =~= today_section(s, today as int, style) + future_section(s, today as int, style));
    push_movie_section(&mut out, movies, style);
    let ghost body = out@;
    match style {
        Style::Plain => {},
        Style::Html => {
            push_break(&mut out, style);
            out.append("Manage subscriptions on <a href=\"");
            out.append(site_url);
            out.append("\">TV Notifier UI</a></pre>");
        },
    }
    assert(out@ =~= body + footer(style, site_url@));
    out
}

/// The subject of the digest mail for `today`.
pub fn subject_line(today: i64) -> (r: String)
    requires
        day_of(MIN_INSTANT as int, -86399) <= today <= day_of(MAX_INSTANT as int, 86399),
    ensures
        r@ == subject_text(today as int),
{
    let mut out = String::from_str("Upcoming shows for ");
    let label = format_day((today + EPOCH_DAY_FROM_CE) as i32);
    out.append(label.as_str());
    out
}

} // verus!
