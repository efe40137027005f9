//! End-to-end tests: small markup documents run through the full
//! extraction pipeline.

use kinoplan::dom::extract_schedule;
use kinoplan::model::Flag;

fn grid_card(title: &str, label: &str) -> String {
    format!(
        "<div class=\"programme-table-main-grid-movieitem\"><h2>{}</h2><span>{}</span></div>",
        title, label
    )
}

fn item(date_attr: Option<&str>, title: &str, anchors: &str) -> String {
    let date = match date_attr {
        Some(d) => format!(" data-date=\"{}\"", d),
        None => String::new(),
    };
    format!(
        "<div class=\"programme-table-main-movie-item movie-item\"{}>\
         <div class=\"movie-item-caption\"><span>{}</span></div>{}</div>",
        date, title, anchors
    )
}

fn anchor(class: &str, time: &str) -> String {
    format!(
        "<label class=\"movie-item-showtime\"><a class=\"{}\">\
         <span class=\"movie-itemshowtime-linktext\">{}</span></a></label>",
        class, time
    )
}

#[test]
fn single_showing_with_known_runtime() {
    let html = format!(
        "<html><body>{}{}</body></html>",
        grid_card("Film A", "Dauer: 120"),
        item(
            Some("2024-05-01"),
            "Film A",
            &anchor("movie-item-showing-lang-OV", "18:00")
        )
    );
    let sched = extract_schedule(&html);
    assert_eq!(sched.days.len(), 1);
    let day = &sched.days[0];
    assert_eq!(day.date.year, 2024);
    assert_eq!(day.date.month, 5);
    assert_eq!(day.date.day, 1);
    assert_eq!(day.shows.len(), 1);
    let show = &day.shows[0];
    assert_eq!(show.title, b"Film A".to_vec());
    assert_eq!(show.runtime_minutes, Some(120));
    assert_eq!(show.start.hour, 18);
    assert_eq!(show.start.minute, 0);
    let end = show.end.expect("end time should be known");
    assert_eq!(end.hour, 20);
    assert_eq!(end.minute, 15);
    assert_eq!(show.flag, Some(Flag::OV));
}

#[test]
fn unknown_runtime_yields_unknown_end() {
    let html = format!(
        "<html><body>{}</body></html>",
        item(Some("2024-06-10"), "Unlisted Film", &anchor("", "20:30"))
    );
    let sched = extract_schedule(&html);
    assert_eq!(sched.days.len(), 1);
    let show = &sched.days[0].shows[0];
    assert_eq!(show.runtime_minutes, None);
    assert_eq!(show.end, None);
    assert_eq!(show.flag, None);
    assert_eq!(show.start.hour, 20);
    assert_eq!(show.start.minute, 30);
}

#[test]
fn missing_date_skips_item() {
    let html = format!(
        "<html><body>{}</body></html>",
        item(None, "Film B", &anchor("", "18:00"))
    );
    let sched = extract_schedule(&html);
    assert_eq!(sched.days.len(), 0);
}

#[test]
fn malformed_date_skips_item() {
    let html = format!(
        "<html><body>{}{}</body></html>",
        item(Some("2024-13-01"), "Film B", &anchor("", "18:00")),
        item(Some("01.05.2024"), "Film C", &anchor("", "19:00"))
    );
    let sched = extract_schedule(&html);
    assert_eq!(sched.days.len(), 0);
}

#[test]
fn malformed_time_skips_anchor_only() {
    let anchors = format!(
        "{}{}{}",
        anchor("", "25:99"),
        anchor("", "18:30"),
        anchor("", "soon")
    );
    let html = format!(
        "<html><body>{}</body></html>",
        item(Some("2024-05-02"), "Film D", &anchors)
    );
    let sched = extract_schedule(&html);
    assert_eq!(sched.days.len(), 1);
    assert_eq!(sched.days[0].shows.len(), 1);
    let show = &sched.days[0].shows[0];
    assert_eq!(show.start.hour, 18);
    assert_eq!(show.start.minute, 30);
}

#[test]
fn both_markers_resolve_to_omu() {
    let class = "movie-item-showing-lang-OmU movie-item-showing-lang-OV";
    let html = format!(
        "<html><body>{}</body></html>",
        item(Some("2024-05-03"), "Film E", &anchor(class, "21:00"))
    );
    let sched = extract_schedule(&html);
    assert_eq!(sched.days[0].shows[0].flag, Some(Flag::OmU));
}

#[test]
fn dates_and_times_are_ordered() {
    let html = format!(
        "<html><body>{}{}{}</body></html>",
        item(Some("2024-05-20"), "Late Day", &anchor("", "17:00")),
        item(
            Some("2024-05-01"),
            "Early Day",
            &format!("{}{}", anchor("", "20:00"), anchor("", "15:00"))
        ),
        item(Some("2024-05-01"), "Early Day Two", &anchor("", "18:00"))
    );
    let sched = extract_schedule(&html);
    assert_eq!(sched.days.len(), 2);
    assert_eq!(sched.days[0].date.day, 1);
    assert_eq!(sched.days[1].date.day, 20);
    let starts: Vec<(u8, u8)> = sched.days[0]
        .shows
        .iter()
        .map(|s| (s.start.hour, s.start.minute))
        .collect();
    assert_eq!(starts, vec![(15, 0), (18, 0), (20, 0)]);
}

#[test]
fn equal_start_times_keep_discovery_order() {
    let html = format!(
        "<html><body>{}{}</body></html>",
        item(Some("2024-05-04"), "First Found", &anchor("", "19:00")),
        item(Some("2024-05-04"), "Second Found", &anchor("", "19:00"))
    );
    let sched = extract_schedule(&html);
    assert_eq!(sched.days.len(), 1);
    assert_eq!(sched.days[0].shows.len(), 2);
    assert_eq!(sched.days[0].shows[0].title, b"First Found".to_vec());
    assert_eq!(sched.days[0].shows[1].title, b"Second Found".to_vec());
}

#[test]
fn later_grid_entry_overwrites_earlier() {
    let html = format!(
        "<html><body>{}{}{}</body></html>",
        grid_card("Film F", "Dauer: 90"),
        grid_card("Film F", "Dauer: 100"),
        item(Some("2024-05-05"), "Film F", &anchor("", "12:00"))
    );
    let sched = extract_schedule(&html);
    let show = &sched.days[0].shows[0];
    assert_eq!(show.runtime_minutes, Some(100));
    // 12:00 + 100 + 15 = 13:55
    let end = show.end.expect("end time should be known");
    assert_eq!((end.hour, end.minute), (13, 55));
}

#[test]
fn zero_runtime_counts_as_unknown() {
    let html = format!(
        "<html><body>{}{}</body></html>",
        grid_card("Film G", "Dauer: 0"),
        item(Some("2024-05-06"), "Film G", &anchor("", "16:00"))
    );
    let sched = extract_schedule(&html);
    let show = &sched.days[0].shows[0];
    assert_eq!(show.runtime_minutes, None);
    assert_eq!(show.end, None);
}

#[test]
fn end_time_wraps_past_midnight() {
    let html = format!(
        "<html><body>{}{}</body></html>",
        grid_card("Night Film", "Dauer: 30"),
        item(Some("2024-05-07"), "Night Film", &anchor("", "23:50"))
    );
    let sched = extract_schedule(&html);
    let show = &sched.days[0].shows[0];
    // 23:50 + 30 + 15 crosses midnight and wraps to 00:35.
    let end = show.end.expect("end time should be known");
    assert_eq!((end.hour, end.minute), (0, 35));
}

#[test]
fn titles_are_trimmed_before_join() {
    let html = format!(
        "<html><body>{}{}</body></html>",
        grid_card("  Film H  ", "Dauer: 80"),
        item(Some("2024-05-08"), "\n Film H \t", &anchor("", "11:00"))
    );
    let sched = extract_schedule(&html);
    let show = &sched.days[0].shows[0];
    assert_eq!(show.title, b"Film H".to_vec());
    assert_eq!(show.runtime_minutes, Some(80));
}

#[test]
fn repeated_anchors_produce_repeated_entries() {
    let anchors = format!("{}{}", anchor("", "19:00"), anchor("", "19:00"));
    let html = format!(
        "<html><body>{}</body></html>",
        item(Some("2024-05-10"), "Film J", &anchors)
    );
    let sched = extract_schedule(&html);
    assert_eq!(sched.days[0].shows.len(), 2);
    assert_eq!(sched.days[0].shows[0].title, sched.days[0].shows[1].title);
}

#[test]
fn empty_title_is_a_valid_key() {
    let card = "<div class=\"programme-table-main-grid-movieitem\">\
                <span>Dauer: 60</span></div>";
    let per_date = format!(
        "<div class=\"programme-table-main-movie-item movie-item\" data-date=\"2024-05-11\">{}</div>",
        anchor("", "10:00")
    );
    let html = format!("<html><body>{}{}</body></html>", card, per_date);
    let sched = extract_schedule(&html);
    // The card has no heading and the item no caption: both fall back to
    // the empty title, so the join succeeds.
    let show = &sched.days[0].shows[0];
    assert_eq!(show.title, b"".to_vec());
    assert_eq!(show.runtime_minutes, Some(60));
    let end = show.end.expect("end time should be known");
    assert_eq!((end.hour, end.minute), (11, 15));
}

#[test]
fn card_without_runtime_label_adds_no_entry() {
    let html = format!(
        "<html><body>{}{}</body></html>",
        grid_card("Film I", "Regie: Jane Doe"),
        item(Some("2024-05-09"), "Film I", &anchor("", "14:00"))
    );
    let sched = extract_schedule(&html);
    let show = &sched.days[0].shows[0];
    assert_eq!(show.runtime_minutes, None);
    assert_eq!(show.end, None);
}
