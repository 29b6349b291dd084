use macos_task_cleaner_core::app::{sort_by_name, AppTarget};
use macos_task_cleaner_core::preview::{config_source_text, ProtectedAppEntry, TargetAppEntry};
use macos_task_cleaner_core::text::{
    parse_usize_str, push_decimal_i32, split_commas, split_lines, split_words,
    str_eq_ignore_ascii_case, strip_list_punctuation, to_ascii_lower, trim_str,
};
use macos_task_cleaner_core::whitelist::{WhitelistMatch, WhitelistTier};

fn target(pid: i32, name: &str, bundle_id: &str) -> AppTarget {
    AppTarget { pid, name: name.to_string(), bundle_id: bundle_id.to_string() }
}

#[test]
fn trimming_and_splitting() {
    assert_eq!(trim_str("  a b \t\n"), "a b");
    assert_eq!(trim_str("\u{3000}x\u{a0}"), "x");
    assert_eq!(trim_str("   "), "");
    assert_eq!(split_words("  one  two\tthree\n"), vec!["one", "two", "three"]);
    assert!(split_words("   ").is_empty());
    assert_eq!(split_commas("1,,2,"), vec!["1", "", "2", ""]);
    assert_eq!(split_commas(""), vec![""]);
    assert_eq!(split_lines("a\nb\n"), vec!["a", "b", ""]);
}

#[test]
fn number_reading_and_writing() {
    assert_eq!(parse_usize_str("42"), Some(42));
    assert_eq!(parse_usize_str("+7"), Some(7));
    assert_eq!(parse_usize_str("007"), Some(7));
    assert_eq!(parse_usize_str(""), None);
    assert_eq!(parse_usize_str("+"), None);
    assert_eq!(parse_usize_str("-1"), None);
    assert_eq!(parse_usize_str(" 1"), None);
    assert_eq!(parse_usize_str("18446744073709551615"), Some(usize::MAX));
    assert_eq!(parse_usize_str("18446744073709551616"), None);
    let mut out = String::from("pid=");
    push_decimal_i32(&mut out, -2147483648);
    assert_eq!(out, "pid=-2147483648");
    let mut out = String::new();
    push_decimal_i32(&mut out, 0);
    push_decimal_i32(&mut out, 907);
    assert_eq!(out, "0907");
}

#[test]
fn ascii_case_and_punctuation() {
    assert_eq!(to_ascii_lower('Q'), 'q');
    assert_eq!(to_ascii_lower('É'), 'É');
    assert!(str_eq_ignore_ascii_case("Finder", "fINDER"));
    assert!(!str_eq_ignore_ascii_case("Finder", "Finde"));
    assert_eq!(strip_list_punctuation("    \"zh-Hans-CN\","), "zh-Hans-CN");
    assert_eq!(strip_list_punctuation("(\n"), "\n");
    assert_eq!(strip_list_punctuation("(),\" "), "");
}

#[test]
fn running_applications_become_targets() {
    let t = AppTarget::from_running(true, 42, Some("Safari".to_string()), Some("com.apple.Safari".to_string()))
        .unwrap();
    assert_eq!((t.pid, t.name.as_str(), t.bundle_id.as_str()), (42, "Safari", "com.apple.Safari"));
    let t = AppTarget::from_running(true, 7, None, None).unwrap();
    assert_eq!((t.name.as_str(), t.bundle_id.as_str()), ("Unknown", ""));
    assert!(AppTarget::from_running(true, 0, Some("x".to_string()), None).is_none());
    assert!(AppTarget::from_running(true, -3, None, None).is_none());
    assert!(AppTarget::from_running(false, 42, Some("Agent".to_string()), None).is_none());
}

#[test]
fn targets_sort_by_lowercase_name_keeping_ties_in_order() {
    let apps = vec![
        target(1, "zoom", "a"),
        target(2, "Alpha", "b"),
        target(3, "beta", "c"),
        target(4, "alpha", "d"),
        target(5, "Beta", "e"),
    ];
    let sorted = sort_by_name(apps);
    let pids: Vec<i32> = sorted.iter().map(|t| t.pid).collect();
    assert_eq!(pids, vec![2, 4, 3, 5, 1]);
    assert!(sort_by_name(Vec::new()).is_empty());
    let copy = target(9, "n", "b").duplicate();
    assert_eq!((copy.pid, copy.name.as_str(), copy.bundle_id.as_str()), (9, "n", "b"));
}

#[test]
fn preview_rows_and_source() {
    let app = target(5, "Raycast", "com.raycast.macos");
    let m = WhitelistMatch {
        tier: WhitelistTier::L3PersistentUtilities,
        tier_label: "L3: Utilities".to_string(),
        matched_rule: "Bundle ID: com.raycast.macos".to_string(),
        tier_id: "l3_utilities".to_string(),
    };
    let row = ProtectedAppEntry::from_match(&app, &m);
    assert_eq!(row.pid, 5);
    assert_eq!(row.name, "Raycast");
    assert_eq!(row.tier, "L3: Utilities");
    assert_eq!(row.rule, "Bundle ID: com.raycast.macos");
    let row = TargetAppEntry::from_target(&app, false);
    assert_eq!((row.pid, row.bundle_id.as_str(), row.is_alive), (5, "com.raycast.macos", false));
    assert_eq!(config_source_text(Some("/a/b.toml")), "已加载配置: /a/b.toml");
    assert_eq!(config_source_text(None), "内置默认规则 (无外部配置文件)");
}
