use khal_notify::dispatcher::interpret_notifier_response;
use khal_notify::errors::DispatchError;
use khal_notify::errors::PatternError;
use khal_notify::event::KhalEvent;
use khal_notify::filter::filter_events;
use khal_notify::formatter::clean_description;
use khal_notify::formatter::format_event;
use khal_notify::patterns::compile_pattern;

const URL_PATTERN: &str = r"(https?://(www\.)?)?[-a-zA-Z0-9@:%._\+~#=]{1,256}\.[a-zA-Z0-9()]{1,6}\b([-a-zA-Z0-9()@:%_\+.~#?&//=]*)";

fn mk_event(title: &str, desc: &str, label: &str, repeat: &str, all_day: bool) -> KhalEvent {
    KhalEvent {
        title: title.to_string(),
        description: desc.to_string(),
        start_end_time_style: label.to_string(),
        repeat_symbol: repeat.to_string(),
        all_day,
    }
}

#[test]
fn formatted_title_without_marker() {
    let e = mk_event("Standup", "", "09:00-09:15", "", false);
    assert_eq!(e.formatted_title(), "Standup");
}

#[test]
fn formatted_title_with_marker() {
    let e = mk_event("Standup", "", "09:00-09:15", "\u{27f3}", false);
    assert_eq!(e.formatted_title(), "Standup \u{27f3}");
}

#[test]
fn filter_drops_all_day_events() {
    let events = vec![
        mk_event("a", "", "", "", false),
        mk_event("b", "", "", "", true),
        mk_event("c", "", "", "", false),
    ];
    let kept = filter_events(events, false);
    assert_eq!(kept.len(), 2);
    assert_eq!(kept[0].title, "a");
    assert_eq!(kept[1].title, "c");
}

#[test]
fn filter_keeps_all_day_when_included() {
    let events = vec![
        mk_event("a", "", "", "", true),
        mk_event("b", "", "", "", false),
    ];
    let kept = filter_events(events, true);
    assert_eq!(kept.len(), 2);
    assert_eq!(kept[0].title, "a");
    assert_eq!(kept[1].title, "b");
}

#[test]
fn filter_is_idempotent_on_filtered_input() {
    let events = vec![
        mk_event("a", "", "", "", false),
        mk_event("b", "", "", "", true),
    ];
    let once = filter_events(events, false);
    let titles: Vec<String> = once.iter().map(|e| e.title.clone()).collect();
    let twice = filter_events(once, false);
    let titles2: Vec<String> = twice.iter().map(|e| e.title.clone()).collect();
    assert_eq!(titles, titles2);
}

#[test]
fn all_day_event_excluded_regardless_of_content() {
    let events = vec![mk_event(
        "Big day",
        "anything at all https://example.com/x",
        "all day",
        "",
        true,
    )];
    let kept = filter_events(events, false);
    assert!(kept.is_empty());
}

#[test]
fn clean_description_strips_patterns_in_order() {
    let strips = vec![
        compile_pattern(r"\[noise\]").unwrap(),
        compile_pattern(r"\s+$").unwrap(),
    ];
    let cleaned = clean_description(&strips, "hello [noise]world[noise]   ");
    assert_eq!(cleaned, "hello world");
}

#[test]
fn bad_pattern_fails_fast() {
    assert_eq!(compile_pattern("[").unwrap_err(), PatternError::InvalidPattern);
}

#[test]
fn short_description_kept_unchanged() {
    let url = compile_pattern(URL_PATTERN).unwrap();
    let strips: Vec<regex::Regex> = Vec::new();
    let desc: String = "d".repeat(50);
    let e = mk_event("t", &desc, "", "", true);
    let n = format_event(&e, &strips, &url, 200);
    assert_eq!(n.display_body, desc);
    assert!(n.extracted_links.is_empty());
}

#[test]
fn truncation_harvests_tail_link() {
    let url = compile_pattern(URL_PATTERN).unwrap();
    let strips: Vec<regex::Regex> = Vec::new();
    let desc = format!(
        "{} see https://example.com/a now {}",
        "m".repeat(100),
        "y".repeat(200)
    );
    let e = mk_event("t", &desc, "", "", true);
    let n = format_event(&e, &strips, &url, 100);
    let expected = format!("{}...<a href=\"https://example.com/a\"></a>", "m".repeat(100));
    assert_eq!(n.display_body, expected);
    assert_eq!(n.extracted_links, vec!["https://example.com/a".to_string()]);
}

#[test]
fn duplicate_tail_links_deduplicated() {
    let url = compile_pattern(URL_PATTERN).unwrap();
    let strips: Vec<regex::Regex> = Vec::new();
    let desc = format!(
        "{} https://ex.com/b then https://ex.com/b again",
        "a".repeat(10)
    );
    let e = mk_event("t", &desc, "", "", true);
    let n = format_event(&e, &strips, &url, 5);
    assert_eq!(n.extracted_links, vec!["https://ex.com/b".to_string()]);
}

#[test]
fn tail_links_sorted_lexicographically() {
    let url = compile_pattern(URL_PATTERN).unwrap();
    let strips: Vec<regex::Regex> = Vec::new();
    let desc = format!(
        "{} https://zzz.org/1 and https://aaa.org/2",
        "a".repeat(10)
    );
    let e = mk_event("t", &desc, "", "", true);
    let n = format_event(&e, &strips, &url, 5);
    assert_eq!(
        n.extracted_links,
        vec!["https://aaa.org/2".to_string(), "https://zzz.org/1".to_string()]
    );
}

#[test]
fn truncation_counts_grapheme_clusters_not_code_points() {
    let url = compile_pattern(URL_PATTERN).unwrap();
    let strips: Vec<regex::Regex> = Vec::new();
    // Each cluster is an `e` followed by a combining acute accent.
    let cluster = "e\u{301}";
    let desc = cluster.repeat(10);
    let e = mk_event("t", &desc, "", "", true);
    let n = format_event(&e, &strips, &url, 3);
    assert_eq!(n.display_body, format!("{}...", cluster.repeat(3)));
}

#[test]
fn timed_event_gets_newline_and_time_range() {
    let url = compile_pattern(URL_PATTERN).unwrap();
    let strips: Vec<regex::Regex> = Vec::new();
    let e = mk_event("t", "details", "10:00-11:00", "", false);
    let n = format_event(&e, &strips, &url, 200);
    assert_eq!(n.display_body, "details\n10:00-11:00");
}

#[test]
fn trailing_newline_not_doubled_before_time_range() {
    let url = compile_pattern(URL_PATTERN).unwrap();
    let strips: Vec<regex::Regex> = Vec::new();
    let e = mk_event("t", "details\n", "10:00-11:00", "", false);
    let n = format_event(&e, &strips, &url, 200);
    assert_eq!(n.display_body, "details\n10:00-11:00");
}

#[test]
fn empty_response_line_means_dismissed() {
    assert_eq!(interpret_notifier_response(3, ""), Ok(None));
}

#[test]
fn in_range_response_picks_action() {
    assert_eq!(interpret_notifier_response(2, "1"), Ok(Some(1)));
}

#[test]
fn out_of_range_response_is_invalid() {
    assert_eq!(
        interpret_notifier_response(2, "2"),
        Err(DispatchError::InvalidNotifierResponse)
    );
}

#[test]
fn non_numeric_response_is_invalid() {
    assert_eq!(
        interpret_notifier_response(2, "yes"),
        Err(DispatchError::InvalidNotifierResponse)
    );
}

#[test]
fn resolve_action_returns_chosen_link() {
    let url = compile_pattern(URL_PATTERN).unwrap();
    let strips: Vec<regex::Regex> = Vec::new();
    let desc = format!(
        "{} https://zzz.org/1 and https://aaa.org/2",
        "a".repeat(10)
    );
    let e = mk_event("t", &desc, "", "", true);
    let n = format_event(&e, &strips, &url, 5);
    assert_eq!(
        n.resolve_action("1").unwrap(),
        Some("https://zzz.org/1".to_string())
    );
    assert_eq!(n.resolve_action("").unwrap(), None);
    assert_eq!(
        n.resolve_action("7").unwrap_err(),
        DispatchError::InvalidNotifierResponse
    );
}

#[test]
fn join_spaced_matches_token_list() {
    let parts = vec!["2024-03-05".to_string(), "14:30".to_string()];
    assert_eq!(khal_notify::text::join_spaced(&parts), "2024-03-05 14:30");
    let one = vec!["10".to_string()];
    assert_eq!(khal_notify::text::join_spaced(&one), "10");
    let none: Vec<String> = Vec::new();
    assert_eq!(khal_notify::text::join_spaced(&none), "");
}

#[test]
fn zero_budget_truncates_to_ellipsis_and_harvests_everything() {
    let url = compile_pattern(URL_PATTERN).unwrap();
    let strips: Vec<regex::Regex> = Vec::new();
    let e = mk_event("t", "go to https://ex.com/c", "", "", true);
    let n = format_event(&e, &strips, &url, 0);
    assert_eq!(n.display_body, "...<a href=\"https://ex.com/c\"></a>");
    assert_eq!(n.extracted_links, vec!["https://ex.com/c".to_string()]);
}

#[test]
fn empty_description_stays_empty_for_all_day() {
    let url = compile_pattern(URL_PATTERN).unwrap();
    let strips: Vec<regex::Regex> = Vec::new();
    let e = mk_event("t", "", "", "", true);
    let n = format_event(&e, &strips, &url, 200);
    assert_eq!(n.display_body, "");
    assert!(n.extracted_links.is_empty());
}

#[test]
fn empty_description_still_gets_time_range() {
    let url = compile_pattern(URL_PATTERN).unwrap();
    let strips: Vec<regex::Regex> = Vec::new();
    let e = mk_event("t", "", "09:00-10:00", "", false);
    let n = format_event(&e, &strips, &url, 200);
    assert_eq!(n.display_body, "\n09:00-10:00");
}
