use macos_task_cleaner_core::app::AppTarget;
use macos_task_cleaner_core::interactive::{
    is_confirmation, parse_command, parse_idle_command, parse_indices, temporary_keeps,
    whitelist_additions,
    IdleCommand, WizardCommand,
};

fn tokens(list: &[&str]) -> Vec<String> {
    list.iter().map(|s| s.to_string()).collect()
}

fn target(pid: i32, name: &str, bundle_id: &str) -> AppTarget {
    AppTarget { pid, name: name.to_string(), bundle_id: bundle_id.to_string() }
}

#[test]
fn indices_are_one_based_distinct_and_in_range() {
    assert_eq!(parse_indices(&tokens(&["1", "3"]), 3), vec![0, 2]);
    assert_eq!(parse_indices(&tokens(&["2,3", "1,"]), 3), vec![1, 2, 0]);
    assert_eq!(parse_indices(&tokens(&["2", "2", " 2 ,2"]), 5), vec![1]);
    assert_eq!(parse_indices(&tokens(&["0", "4", "x", "-1", ""]), 3), Vec::<usize>::new());
    assert_eq!(parse_indices(&tokens(&["+2"]), 3), vec![1]);
    assert_eq!(parse_indices(&tokens(&["99999999999999999999999"]), 3), Vec::<usize>::new());
    assert_eq!(parse_indices(&tokens(&["1"]), 0), Vec::<usize>::new());
}

#[test]
fn wizard_commands() {
    assert!(matches!(parse_command("   ", 3), WizardCommand::Empty));
    assert!(matches!(parse_command("Q", 3), WizardCommand::Quit));
    assert!(matches!(parse_command("exit", 3), WizardCommand::Quit));
    assert!(matches!(parse_command(" refresh ", 3), WizardCommand::Refresh));
    assert!(matches!(parse_command("p", 3), WizardCommand::ShowProtected));
    assert!(matches!(parse_command("CLEAN", 3), WizardCommand::Clean));
    assert!(matches!(parse_command("f", 3), WizardCommand::Force));
    assert!(matches!(parse_command("hello", 3), WizardCommand::Unknown));
}

#[test]
fn wizard_commands_with_indices() {
    match parse_command("w 1,3", 3) {
        WizardCommand::Whitelist(v) => assert_eq!(v, vec![0, 2]),
        other => panic!("unexpected: {:?}", other),
    }
    assert!(matches!(parse_command("whitelist 9", 3), WizardCommand::WhitelistUsage));
    assert!(matches!(parse_command("w", 3), WizardCommand::WhitelistUsage));
    match parse_command("temp 2 2", 3) {
        WizardCommand::Temporary(v) => assert_eq!(v, vec![1]),
        other => panic!("unexpected: {:?}", other),
    }
    assert!(matches!(parse_command("t abc", 3), WizardCommand::TemporaryUsage));
    match parse_command("3 1", 3) {
        WizardCommand::QuickWhitelist(v) => assert_eq!(v, vec![2, 0]),
        other => panic!("unexpected: {:?}", other),
    }
    assert!(matches!(parse_command("4", 3), WizardCommand::Unknown));
}

#[test]
fn idle_commands_and_confirmations() {
    assert_eq!(parse_idle_command(" P "), IdleCommand::ShowProtected);
    assert_eq!(parse_idle_command("refresh"), IdleCommand::Refresh);
    assert_eq!(parse_idle_command("Quit"), IdleCommand::Quit);
    assert_eq!(parse_idle_command("c"), IdleCommand::Invalid);
    assert!(is_confirmation("y"));
    assert!(is_confirmation("  YES\n"));
    assert!(!is_confirmation(""));
    assert!(!is_confirmation("n"));
    assert!(!is_confirmation("yep"));
}

#[test]
fn whitelist_requests_prefer_bundle_identifiers() {
    let targets = vec![
        target(10, "Slack", "com.tinyspeck.slackmacgap"),
        target(11, "NoBundle", ""),
        target(12, "Chrome", "com.google.Chrome"),
    ];
    let (bundles, names) = whitelist_additions(&targets, &[2, 1, 0]);
    assert_eq!(bundles, vec!["com.google.Chrome".to_string(), "com.tinyspeck.slackmacgap".to_string()]);
    assert_eq!(names, vec!["NoBundle".to_string()]);
    let (bundles, names) = whitelist_additions(&targets, &[]);
    assert!(bundles.is_empty() && names.is_empty());
}

#[test]
fn temporary_skips_keep_bundle_identifiers() {
    let targets = vec![target(10, "Slack", "com.tinyspeck.slackmacgap"), target(11, "Mail", "com.apple.mail")];
    assert_eq!(temporary_keeps(&targets, &[1, 0]), vec!["com.apple.mail".to_string(), "com.tinyspeck.slackmacgap".to_string()]);
    assert!(temporary_keeps(&targets, &[]).is_empty());
}
