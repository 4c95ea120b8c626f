use daylog::matcher::{
    extract_date_from_path, match_path_with_pattern, normalize_month_or_day, parse_date_value,
    valid_date_parts, DateField, MatchFailure,
};
use daylog::placeholders::{
    default_date_placeholders, default_import_patterns_by, normalize_date_placeholders,
    validate_pattern, DatePlaceholders,
};
use daylog::render::{now_date_tokens, resolve_commit_message, resolve_output_path_template};

fn pats(v: &[&str]) -> Vec<String> {
    v.iter().map(|s| s.to_string()).collect()
}

#[test]
fn default_patterns_cover_four_layouts() {
    let ph = default_date_placeholders();
    let p = default_import_patterns_by(&ph);
    assert_eq!(
        p,
        vec![
            "{yyyy}/{MM}/{dd}.md",
            "{yyyy}/{MM}-{dd}.md",
            "{yyyy}-{MM}-{dd}.md",
            "{yyyy}_{MM}_{dd}.md"
        ]
    );
}

#[test]
fn trailing_segments_give_padded_date() {
    let ph = default_date_placeholders();
    let r = extract_date_from_path("notes/deep/2024/01/09.md", &pats(&["{yyyy}/{MM}/{dd}.md"]), &ph);
    assert_eq!(r.unwrap(), "2024-01-09");
}

#[test]
fn single_digit_tokens_are_padded() {
    let ph = default_date_placeholders();
    let r = extract_date_from_path("2024-3-6.md", &pats(&["{yyyy}-{M}-{d}.md"]), &ph);
    assert_eq!(r.unwrap(), "2024-03-06");
}

#[test]
fn first_matching_pattern_wins() {
    let ph = default_date_placeholders();
    let patterns = default_import_patterns_by(&ph);
    assert_eq!(extract_date_from_path("2024/03/05.md", &patterns, &ph).unwrap(), "2024-03-05");
    assert_eq!(extract_date_from_path("2024-03-06.md", &patterns, &ph).unwrap(), "2024-03-06");
    assert_eq!(extract_date_from_path("x/2024_12_31.md", &patterns, &ph).unwrap(), "2024-12-31");
}

#[test]
fn no_pattern_lists_every_reason() {
    let ph = default_date_placeholders();
    let r = extract_date_from_path("readme.md", &pats(&["{yyyy}/{MM}/{dd}.md", "{date}.md"]), &ph);
    let msg = r.unwrap_err();
    assert!(msg.starts_with("path not match patterns: [{yyyy}/{MM}/{dd}.md] "));
    assert!(msg.contains(" | [{date}.md] "));
}

#[test]
fn composite_date_token() {
    let ph = default_date_placeholders();
    let r = match_path_with_pattern("a/20240305.md", "{date}.md", &ph);
    assert_eq!(r.unwrap(), "2024-03-05");
}

#[test]
fn conflicting_month_tokens_fail() {
    let ph = default_date_placeholders();
    let e = match_path_with_pattern("2024/03/4-05.md", "{yyyy}/{MM}/{M}-{dd}.md", &ph).unwrap_err();
    assert_eq!(e.kind, MatchFailure::Conflict(DateField::Month));
    assert!(e.reason.contains("month conflict"));
}

#[test]
fn agreeing_month_tokens_pass() {
    let ph = default_date_placeholders();
    let r = match_path_with_pattern("2024/03/3-05.md", "{yyyy}/{MM}/{M}-{dd}.md", &ph);
    assert_eq!(r.unwrap(), "2024-03-05");
}

#[test]
fn conflicting_day_tokens_fail() {
    let ph = default_date_placeholders();
    let e = match_path_with_pattern("2024-03-05_6.md", "{yyyy}-{MM}-{dd}_{d}.md", &ph).unwrap_err();
    assert_eq!(e.kind, MatchFailure::Conflict(DateField::Day));
}

#[test]
fn date_token_conflicting_with_year() {
    let ph = default_date_placeholders();
    let e = match_path_with_pattern("2023/20240305.md", "{yyyy}/{date}.md", &ph).unwrap_err();
    assert_eq!(e.kind, MatchFailure::DateConflict);
}

#[test]
fn match_failures_by_kind() {
    let ph = default_date_placeholders();
    let k = |p: &str, t: &str| match_path_with_pattern(p, t, &ph).unwrap_err().kind;
    assert_eq!(k("05.md", "{yyyy}/{MM}/{dd}.md"), MatchFailure::TooShort);
    assert_eq!(k("2024/13/05.md", "{yyyy}/{MM}/{dd}.md"), MatchFailure::MonthRange);
    assert_eq!(k("2024/12/32.md", "{yyyy}/{MM}/{dd}.md"), MatchFailure::DayRange);
    assert_eq!(k("24/12/30.md", "{yyyy}/{MM}/{dd}.md"), MatchFailure::YearLength);
    assert_eq!(k("2024/ab/30.md", "{yyyy}/{MM}/{dd}.md"), MatchFailure::NonDigit);
    assert_eq!(k("2024/12/30", "{yyyy}/{MM}/{dd}.md"), MatchFailure::MissingLiteral);
    assert_eq!(k("2024/12/30.txt", "{yyyy}/{MM}/{dd}.md"), MatchFailure::LiteralMismatch);
    assert_eq!(k("2024/12/30.mdx", "{yyyy}/{MM}/{dd}.md"), MatchFailure::LengthMismatch);
    assert_eq!(k("x2024/12/30.md", "y{yyyy}/{MM}/{dd}.md"), MatchFailure::LiteralMismatch);
    assert_eq!(k("2024/12.md", "{yyyy}/{MM}.md"), MatchFailure::Missing(DateField::Day));
    assert_eq!(k("2024/12/30.md", "{yyyy}/{MM}/{x}.md"), MatchFailure::UnsupportedPlaceholder);
    assert_eq!(k("2024/12/30.md", "{yyyy}/{MM}/{dd.md"), MatchFailure::UnclosedPlaceholder);
    assert_eq!(k("a/1234567.md", "{date}.md"), MatchFailure::UnsupportedDate);
}

#[test]
fn month_or_day_normalisation() {
    assert_eq!(normalize_month_or_day("3", 1, 12).unwrap(), "03");
    assert_eq!(normalize_month_or_day("12", 1, 12).unwrap(), "12");
    assert!(normalize_month_or_day("0", 1, 12).is_none());
    assert!(normalize_month_or_day("13", 1, 12).is_none());
    assert!(normalize_month_or_day("123", 1, 31).is_none());
    assert!(normalize_month_or_day("", 1, 31).is_none());
    assert_eq!(normalize_month_or_day("31", 1, 31).unwrap(), "31");
}

#[test]
fn composite_date_forms() {
    let t = |s: &str| parse_date_value(s).map(|(y, m, d)| format!("{}-{}-{}", y, m, d));
    assert_eq!(t("20240305").unwrap(), "2024-03-05");
    assert_eq!(t("2024-3-5").unwrap(), "2024-03-05");
    assert_eq!(t("2024_03_5").unwrap(), "2024-03-05");
    assert_eq!(t("2024.12.31").unwrap(), "2024-12-31");
    assert!(t("20241305").is_none());
    assert!(t("2024/03/05").is_none());
    assert!(t("24-03-05").is_none());
}

#[test]
fn day_is_not_checked_against_month_length() {
    assert!(valid_date_parts("2024", "02", "31"));
    assert!(!valid_date_parts("2024", "00", "10"));
    let ph = default_date_placeholders();
    let r = match_path_with_pattern("2024-02-31.md", "{yyyy}-{MM}-{dd}.md", &ph);
    assert_eq!(r.unwrap(), "2024-02-31");
}

#[test]
fn pattern_must_name_a_whole_date() {
    let ph = default_date_placeholders();
    assert!(validate_pattern("{yyyy}/{MM}.md", &ph).is_err());
    assert!(validate_pattern("{MM}-{dd}.md", &ph).is_err());
    assert!(validate_pattern("{yyyy}/{M}/{d}.md", &ph).is_ok());
    assert!(validate_pattern("{date}.md", &ph).is_ok());
}

fn custom(tokens: [&str; 8]) -> DatePlaceholders {
    DatePlaceholders {
        yyyy: tokens[0].to_string(),
        mm: tokens[1].to_string(),
        m: tokens[2].to_string(),
        dd: tokens[3].to_string(),
        d: tokens[4].to_string(),
        date: tokens[5].to_string(),
        timestamp: tokens[6].to_string(),
        count: tokens[7].to_string(),
    }
}

#[test]
fn schema_is_trimmed_and_checked() {
    let ok = normalize_date_placeholders(custom([
        " {Y} ", "{MM}", "{M}", "{DD}", "{D}", "{date}", "{ts}", "{n}",
    ]))
    .unwrap();
    assert_eq!(ok.yyyy, "{Y}");
    let dup = normalize_date_placeholders(custom([
        "{Y}", "{MM}", "{M}", "{DD}", "{D}", "{date}", "{ts}", "{Y}",
    ]));
    assert!(dup.unwrap_err().contains("duplicate placeholder token '{Y}'"));
    let bad = normalize_date_placeholders(custom([
        "Y", "{MM}", "{M}", "{DD}", "{D}", "{date}", "{ts}", "{n}",
    ]));
    assert!(bad.is_err());
    let empty = normalize_date_placeholders(custom([
        "{Y}", "  ", "{M}", "{DD}", "{D}", "{date}", "{ts}", "{n}",
    ]));
    assert!(empty.is_err());
    let short = normalize_date_placeholders(custom([
        "{}", "{MM}", "{M}", "{DD}", "{D}", "{date}", "{ts}", "{n}",
    ]));
    assert!(short.is_err());
}

#[test]
fn custom_schema_is_used_for_matching() {
    let ph = normalize_date_placeholders(custom([
        "<y>", "<MM>", "<M>", "<DD>", "<D>", "<date>", "<ts>", "<n>",
    ]));
    assert!(ph.is_err());
    let ph = normalize_date_placeholders(custom([
        "{Y}", "{MM}", "{M}", "{DD}", "{D}", "{date}", "{ts}", "{n}",
    ]))
    .unwrap();
    let r = extract_date_from_path("2021/07/04.md", &pats(&["{Y}/{MM}/{DD}.md"]), &ph);
    assert_eq!(r.unwrap(), "2021-07-04");
}

#[test]
fn render_then_extract_gives_the_date_back() {
    let ph = default_date_placeholders();
    let template = "journals/{yyyy}/{MM}-{dd}/{d}.md";
    let path = resolve_output_path_template(template, "2024-03-05", &ph).unwrap();
    assert_eq!(path, "journals/2024/03-05/5.md");
    let back = extract_date_from_path(&path, &pats(&[template]), &ph).unwrap();
    assert_eq!(back, "2024-03-05");
    let path2 = resolve_output_path_template("{yyyy}/{M}/{date}.md", "2023-11-09", &ph).unwrap();
    assert_eq!(path2, "2023/11/2023-11-09.md");
}

#[test]
fn render_rejects_malformed_dates() {
    let ph = default_date_placeholders();
    assert!(resolve_output_path_template("{yyyy}.md", "2024-3-05", &ph).is_err());
    assert!(resolve_output_path_template("{yyyy}.md", "2024/03/05", &ph).is_err());
    assert!(resolve_output_path_template("{yyyy}.md", "20a4-03-05", &ph).is_err());
}

#[test]
fn date_tokens_from_epoch_seconds() {
    let (y, mm, dd, m, d, date) = now_date_tokens(0);
    assert_eq!((y.as_str(), mm.as_str(), dd.as_str(), m.as_str(), d.as_str()), ("1970", "01", "01", "1", "1"));
    assert_eq!(date, "1970-01-01");
    let (_, _, _, _, _, leap) = now_date_tokens(951868799);
    assert_eq!(leap, "2000-02-29");
    let (_, _, _, _, _, eoy) = now_date_tokens(1703980800);
    assert_eq!(eoy, "2023-12-31");
}

#[test]
fn commit_message_substitutes_every_token() {
    let ph = default_date_placeholders();
    let msg = resolve_commit_message(
        "sync {timestamp} count={count} {yyyy}-{MM}-{dd} {M}/{d} {date}",
        3,
        &ph,
        1709646300,
    );
    assert_eq!(msg, "sync 1709646300 count=3 2024-03-05 3/5 2024-03-05");
}

#[test]
fn too_short_reason_names_both_counts() {
    let ph = default_date_placeholders();
    let e = match_path_with_pattern("05.md", "{yyyy}/{MM}/{dd}.md", &ph).unwrap_err();
    assert_eq!(e.reason, "path segment count too short (path=1, pattern=3)");
}

#[test]
fn failure_report_lists_each_pattern_in_order() {
    let ph = default_date_placeholders();
    let r = extract_date_from_path("a/2024/13/05.md", &pats(&["{yyyy}/{MM}/{dd}.md", "{date}.md"]), &ph);
    assert_eq!(
        r.unwrap_err(),
        "path not match patterns: [{yyyy}/{MM}/{dd}.md] month out of range (1..12) | [{date}.md] unsupported date format"
    );
}

#[test]
fn schema_errors_name_the_first_bad_token() {
    let e = normalize_date_placeholders(custom(["{Y}", " ", "x", "{DD}", "{D}", "{date}", "{ts}", "{n}"]));
    assert_eq!(e.unwrap_err(), "datePlaceholders.MM cannot be empty");
    let e = normalize_date_placeholders(custom(["{Y}", "{MM}", "x", "{DD}", "{D}", "{date}", "{ts}", "{n}"]));
    assert_eq!(e.unwrap_err(), "datePlaceholders.M must use brace format like {xxx}");
    let e = normalize_date_placeholders(custom(["{Y}", "{MM}", "{M}", "{MM}", "{D}", "{D}", "{ts}", "{n}"]));
    assert_eq!(e.unwrap_err(), "duplicate placeholder token '{MM}'");
}

#[test]
fn malformed_render_date_is_named() {
    let ph = default_date_placeholders();
    assert_eq!(
        resolve_output_path_template("{yyyy}.md", "2024-3-5", &ph).unwrap_err(),
        "invalid journal date: 2024-3-5"
    );
}
