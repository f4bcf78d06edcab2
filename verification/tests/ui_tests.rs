use mstatui::app::Tab;
use mstatui::config::KeyMap;
use mstatui::text::{decimal_string, pad_left, pad_right, repeat_char, str_eq, truncate};
use chrono::TimeZone;
use mstatui::ui::{
    bar_strings, help_line, humanize, humanize_ago, humanize_at, humanize_reading, list_title,
    max_listen_count, updated_label_at,
    rank_label, release_suffix, status_segment, total_label, updated_label,
};

#[test]
fn ago_texts() {
    assert_eq!(humanize_ago(0).as_deref(), Some("0s ago"));
    assert_eq!(humanize_ago(59).as_deref(), Some("59s ago"));
    assert_eq!(humanize_ago(-5).as_deref(), Some("-5s ago"));
    assert_eq!(humanize_ago(60).as_deref(), Some("1m ago"));
    assert_eq!(humanize_ago(3599).as_deref(), Some("59m ago"));
    assert_eq!(humanize_ago(3600).as_deref(), Some("1h ago"));
    assert_eq!(humanize_ago(86_399).as_deref(), Some("23h ago"));
    assert_eq!(humanize_ago(86_400).as_deref(), Some("1d ago"));
    assert_eq!(humanize_ago(7 * 86_400 - 1).as_deref(), Some("6d ago"));
    assert_eq!(humanize_ago(7 * 86_400), None);
    assert_eq!(humanize_ago(i64::MIN).as_deref(), Some("-9223372036854775808s ago"));
}

#[test]
fn humanize_missing_times() {
    assert_eq!(humanize(0), "—");
    assert_eq!(humanize(-1), "—");
    assert_eq!(humanize(i64::MAX), "—");
}

#[test]
fn humanize_recent_and_old() {
    let now = std::time::SystemTime::now()
        .duration_since(std::time::UNIX_EPOCH)
        .unwrap()
        .as_secs() as i64;
    let s = humanize(now - 120);
    assert!(s == "2m ago" || s == "3m ago" || s == "1m ago", "{}", s);
    let d = humanize(1_000_000_000);
    assert_eq!(d.chars().count(), 10);
    assert!(d.starts_with("2001-09-"));
}

#[test]
fn header_total() {
    assert_eq!(total_label(Some(1234)), "1234 listens");
    assert_eq!(total_label(Some(0)), "0 listens");
    assert_eq!(total_label(None), "—");
}

#[test]
fn help_for_default_keys() {
    assert_eq!(
        help_line(&KeyMap::default()),
        "    q quit · h/l tabs · k/j move · g/G top/bot · r refresh · t range · ⏎ open  "
    );
}

#[test]
fn rank_column() {
    assert_eq!(rank_label(0), " 1. ");
    assert_eq!(rank_label(8), " 9. ");
    assert_eq!(rank_label(9), "10. ");
    assert_eq!(rank_label(122), "123. ");
}

#[test]
fn list_titles() {
    assert_eq!(list_title(Tab::Artists), " Top Artists ");
    assert_eq!(list_title(Tab::Recent), " Recent ");
}

#[test]
fn bar_scale() {
    assert_eq!(max_listen_count(&vec![]), 1);
    assert_eq!(max_listen_count(&vec![0, 0]), 1);
    assert_eq!(max_listen_count(&vec![3, 9, 4]), 9);
}

#[test]
fn bars_fill_their_width() {
    let (f, t) = bar_strings(3, 8);
    assert_eq!(f, "███");
    assert_eq!(t, "·····");
    let (f, t) = bar_strings(30, 8);
    assert_eq!(f, "████████");
    assert_eq!(t, "");
    let (f, t) = bar_strings(0, 4);
    assert_eq!((f.as_str(), t.as_str()), ("", "····"));
    for (filled, width) in [(0, 0), (1, 16), (16, 16), (5, 24)] {
        let (f, t) = bar_strings(filled, width);
        assert_eq!(f.chars().count() + t.chars().count(), width);
    }
}

#[test]
fn truncating() {
    assert_eq!(truncate("short", 32), "short");
    assert_eq!(truncate("abcdef", 6), "abcdef");
    assert_eq!(truncate("abcdefg", 6), "abcde…");
    assert_eq!(truncate("ééééé", 3), "éé…");
    assert_eq!(truncate("abc", 0), "…");
    assert_eq!(truncate("", 0), "");
}

#[test]
fn padding() {
    assert_eq!(pad_right("ab", 5), "ab   ");
    assert_eq!(pad_right("abcdef", 3), "abcdef");
    assert_eq!(pad_right("é", 3), "é  ");
    assert_eq!(pad_left("7", 2), " 7");
    assert_eq!(pad_left("123", 2), "123");
    assert_eq!(format!("{:<5}", "ab"), pad_right("ab", 5));
    assert_eq!(format!("{:>2}", "7"), pad_left("7", 2));
}

#[test]
fn small_text_helpers() {
    assert_eq!(decimal_string(0), "0");
    assert_eq!(decimal_string(u64::MAX), u64::MAX.to_string());
    assert_eq!(repeat_char('x', 3), "xxx");
    assert!(str_eq("abc", "abc"));
    assert!(!str_eq("abc", "abd"));
}

fn is_date_shape(s: &str) -> bool {
    let c: Vec<char> = s.chars().collect();
    let n = c.len();
    if n < 10 || c[n - 6] != '-' || c[n - 3] != '-' {
        return false;
    }
    let digits = |x: &[char]| x.iter().all(|ch| ch.is_ascii_digit());
    let year = &c[..n - 6];
    let year_ok = (year.len() == 4 && digits(year))
        || (year.len() >= 5 && (year[0] == '+' || year[0] == '-') && digits(&year[1..]));
    let month: u32 = c[n - 5..n - 3].iter().collect::<String>().parse().unwrap_or(0);
    let day: u32 = c[n - 2..].iter().collect::<String>().parse().unwrap_or(0);
    year_ok && digits(&c[n - 5..n - 3]) && digits(&c[n - 2..]) && (1..=12).contains(&month) && (1..=31).contains(&day)
}

#[test]
fn humanize_at_fixed_clock() {
    assert_eq!(humanize_at(1000, 1120, 0), "2m ago");
    assert_eq!(humanize_at(1000, 1000, 999), "0s ago");
    assert_eq!(humanize_at(1000, 998, 0), "-2s ago");
    // one second before, with a fraction: truncated toward zero
    assert_eq!(humanize_at(1000, 999, 5), "0s ago");
    assert_eq!(humanize_at(1000, 1000 + 3 * 3600, 0), "3h ago");
    assert_eq!(humanize_at(1000, 1000 + 6 * 86_400, 7), "6d ago");
    assert_eq!(humanize_at(0, 5000, 0), "—");
    assert_eq!(humanize_at(8_210_266_876_800, 5000, 0), "—");
    let d = humanize_at(1000, 1000 + 7 * 86_400, 0);
    assert!(is_date_shape(&d), "{}", d);
    assert!(d.starts_with("1970-01-"));
}

#[test]
fn representable_range_matches_chrono() {
    assert!(chrono::Utc.timestamp_opt(-8_334_601_228_800, 0).single().is_some());
    assert!(chrono::Utc.timestamp_opt(-8_334_601_228_801, 0).single().is_none());
    assert!(chrono::Utc.timestamp_opt(8_210_266_876_799, 0).single().is_some());
    assert!(chrono::Utc.timestamp_opt(8_210_266_876_800, 0).single().is_none());
    assert_ne!(humanize(8_210_266_876_799), "—");
    assert_eq!(humanize(8_210_266_876_800), "—");
}

#[test]
fn humanize_dates_have_date_shape() {
    assert!(is_date_shape(&humanize(1_000_000_000)));
    assert!(is_date_shape(&humanize(1)));
}

#[test]
fn status_bar_segments() {
    assert_eq!(status_segment("ok (week)").as_deref(), Some(" ok (week) "));
    assert_eq!(status_segment(""), None);
    assert_eq!(updated_label(0), " updated: —");
    assert_eq!(updated_label(-3), " updated: —");
    assert!(updated_label(1_000_000_000).starts_with(" updated: 2001-09-"));
    assert_eq!(release_suffix(&Some("Album".to_string())), "  · Album");
    assert_eq!(release_suffix(&None), "");
}

#[test]
fn humanize_with_fixed_readings() {
    assert_eq!(humanize_reading(1000, Ok((1120, 0))), "2m ago");
    assert_eq!(humanize_reading(1000, Ok((1000, 999))), "0s ago");
    assert_eq!(humanize_reading(1000, Ok((1000 + 2 * 86_400, 0))), "2d ago");
    // A reading before the epoch: 5 s before it, and 5.5 s before it.
    assert_eq!(humanize_reading(1, Err((5, 0))), "-6s ago");
    assert_eq!(humanize_reading(1, Err((5, 500_000_000))), "-6s ago");
    assert_eq!(humanize_reading(1, Err((4, 500_000_000))), "-5s ago");
    // A reading chrono cannot represent shows the dash.
    assert_eq!(humanize_reading(1000, Ok((8_210_266_876_800, 0))), "—");
    assert_eq!(humanize_reading(1000, Err((8_334_601_228_801, 0))), "—");
    assert_eq!(humanize_reading(0, Ok((1120, 0))), "—");
    assert_eq!(humanize_reading(-7, Err((1, 0))), "—");
    assert!(is_date_shape(&humanize_reading(1000, Ok((1000 + 7 * 86_400, 0)))));
}

#[test]
fn updated_label_with_fixed_readings() {
    assert_eq!(updated_label_at(1000, Ok((1060, 0))), " updated: 1m ago");
    assert_eq!(updated_label_at(1000, Ok((1000 + 3 * 3600, 12))), " updated: 3h ago");
    assert_eq!(updated_label_at(10, Err((5, 0))), " updated: -15s ago");
    assert_eq!(updated_label_at(0, Ok((1060, 0))), " updated: —");
    assert_eq!(updated_label_at(1000, Ok((9_000_000_000_000, 0))), " updated: —");
}
