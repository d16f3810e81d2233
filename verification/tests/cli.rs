use chrono::Datelike;
use outl::cli::{
    bar, elapsed_secs_text, journal_after, page_property_matches, parse_not_prop_filters,
    parse_param_list, parse_prop_filters, parse_since_at, qr_columns, Occupancy,
};
use outl::property::PropValue;

fn day(y: i32, m: u32, d: u32) -> i64 {
    chrono::NaiveDate::from_ymd_opt(y, m, d).unwrap().num_days_from_ce() as i64
}

#[test]
fn prop_flags_split_at_the_first_equals_and_trim() {
    let props = vec![" a = b=c ".to_string(), "k=v".to_string()];
    let out = parse_prop_filters(&props, Some("high")).unwrap();
    assert_eq!(
        out,
        vec![
            ("priority".to_string(), "high".to_string()),
            ("a".to_string(), "b=c".to_string()),
            ("k".to_string(), "v".to_string()),
        ]
    );
    let bad = vec!["novalue".to_string()];
    assert_eq!(
        parse_prop_filters(&bad, None).unwrap_err(),
        "--prop must be `KEY=VALUE`, got `novalue`"
    );
}

#[test]
fn not_prop_flags_take_a_key_or_a_pair() {
    let raw = vec![" status ".to_string(), "kind = done".to_string()];
    let out = parse_not_prop_filters(&raw).unwrap();
    assert_eq!(
        out,
        vec![
            ("status".to_string(), None),
            ("kind".to_string(), Some("done".to_string())),
        ]
    );
}

#[test]
fn a_list_property_matches_any_scalar_element() {
    let v = PropValue::List(vec![
        PropValue::Tag("a".into()),
        PropValue::List(vec![PropValue::Text("b".into())]),
    ]);
    assert!(page_property_matches(Some(&v), "a"));
    assert!(!page_property_matches(Some(&v), "b"));
    assert!(page_property_matches(Some(&PropValue::Text("x".into())), "x"));
    assert!(!page_property_matches(None, "x"));
}

#[test]
fn since_accepts_days_back_or_an_iso_date() {
    let today = day(2026, 1, 10);
    assert_eq!(parse_since_at(" 7d ", today), Some(Ok(day(2026, 1, 3))));
    assert_eq!(parse_since_at("2025-12-31", today), Some(Ok(day(2025, 12, 31))));
    assert_eq!(
        parse_since_at("xd", today),
        Some(Err("--since `xd` is not a valid `Nd` form".to_string()))
    );
    assert_eq!(
        parse_since_at("soon", today),
        Some(Err("--since `soon` is neither `Nd` nor ISO YYYY-MM-DD".to_string()))
    );
    assert_eq!(parse_since_at("-3d", today), Some(Ok(day(2026, 1, 13))));
    assert_eq!(parse_since_at("99999999999d", today), None);
}

#[test]
fn undated_journals_fail_a_since_cutoff() {
    assert!(journal_after(Some(10), true, 5));
    assert!(!journal_after(Some(4), true, 5));
    assert!(journal_after(None, false, 5));
    assert!(!journal_after(None, true, 5));
}

#[test]
fn the_progress_bar_fills_one_cell_per_five_percent() {
    assert_eq!(bar(1, 4), "[#####---------------]  25%");
    assert_eq!(bar(0, 0), "[####################] 100%");
    assert_eq!(bar(0, 3), "[--------------------]   0%");
}

#[test]
fn elapsed_time_switches_to_minutes_at_sixty_seconds() {
    assert_eq!(elapsed_secs_text(42), "42s");
    assert_eq!(elapsed_secs_text(60), "1m00s");
    assert_eq!(elapsed_secs_text(187), "3m07s");
}

#[test]
fn qr_width_is_the_widest_line_in_chars() {
    assert_eq!(qr_columns("██ █\n█"), 4);
    assert_eq!(qr_columns(""), 0);
}

#[test]
fn template_params_are_trimmed_and_empty_ones_dropped() {
    assert_eq!(parse_param_list(" a, ,b ,,c"), vec!["a", "b", "c"]);
    assert!(parse_param_list("").is_empty());
}

#[test]
fn a_destination_is_vacant_without_content_or_loose_markdown() {
    let o = Occupancy { pages: 3, first_with_content: None, unreconciled_md: 0 };
    assert!(o.is_vacant());
    let o = Occupancy { pages: 3, first_with_content: Some("notes".into()), unreconciled_md: 0 };
    assert!(!o.is_vacant());
    let o = Occupancy { pages: 0, first_with_content: None, unreconciled_md: 2 };
    assert!(!o.is_vacant());
}
