use macos_task_cleaner_core::app::AppTarget;
use macos_task_cleaner_core::i18n::Language;
use macos_task_cleaner_core::signal::is_finder;
use macos_task_cleaner_core::whitelist::{
    default_dry_run, default_grace_period, default_tier_id, ConfigEditError, TaskCleanerConfig,
    WhitelistManager, WhitelistTier,
};

fn target(pid: i32, name: &str, bundle_id: &str) -> AppTarget {
    AppTarget { pid, name: name.to_string(), bundle_id: bundle_id.to_string() }
}

fn default_manager(cli_keeps: &[String]) -> WhitelistManager {
    let config = TaskCleanerConfig::default();
    WhitelistManager::new(&config, None, Vec::new(), cli_keeps)
}

#[test]
fn test_whitelist_l1_core_os() {
    let manager = default_manager(&[]);
    let finder = target(100, "访达", "com.apple.finder");
    let res = manager.check_protection(&finder);
    assert!(res.is_some());
    let matched = res.unwrap();
    assert_eq!(matched.tier, WhitelistTier::L1CoreOs);
}

#[test]
fn test_whitelist_l3_utilities() {
    let manager = default_manager(&[]);
    let raycast = target(102, "Raycast", "com.raycast.macos");
    let res = manager.check_protection(&raycast);
    assert!(res.is_some());
    assert_eq!(res.unwrap().tier, WhitelistTier::L3PersistentUtilities);
}

#[test]
fn test_whitelist_l4_cli_keep() {
    let cli_keeps = vec!["com.google.Chrome".to_string(), "Slack".to_string()];
    let manager = default_manager(&cli_keeps);

    let chrome = target(103, "Google Chrome", "com.google.Chrome");
    let res = manager.check_protection(&chrome);
    assert!(res.is_some());
    assert_eq!(res.unwrap().tier, WhitelistTier::L4CliOverride);

    let slack = target(104, "Slack", "com.tinyspeck.slackmacgap");
    let res_slack = manager.check_protection(&slack);
    assert!(res_slack.is_some());
    assert_eq!(res_slack.unwrap().tier, WhitelistTier::L4CliOverride);
}

#[test]
fn test_whitelist_unmatched_target() {
    let manager = default_manager(&[]);
    let unknown = target(99999, "RandomBloatwareApp", "com.random.bloatware");
    assert!(manager.check_protection(&unknown).is_none());
}

#[test]
fn shell_tier_and_caller_lineage() {
    let config = TaskCleanerConfig::default();
    let manager = WhitelistManager::new(&config, None, vec![4242, 1], &[]);
    let ghostty = target(101, "Ghostty", "com.mitchellh.ghostty");
    assert_eq!(manager.check_protection(&ghostty).unwrap().tier, WhitelistTier::L2ContextShell);

    let mine = target(4242, "SomeApp", "com.example.some");
    let m = manager.check_protection(&mine).unwrap();
    assert_eq!(m.tier, WhitelistTier::L2ContextShell);
    assert_eq!(m.tier_id, "l2_context_shell");
    assert_eq!(m.matched_rule, "进程 PID 处于当前调用者会话链路 (4242)");
    let en = manager.check_protection_with_lang(&mine, Language::En).unwrap();
    assert_eq!(en.matched_rule, "PID 4242 in caller session lineage");
    assert_eq!(en.tier_label, "L2: Context Shell");
}

#[test]
fn match_texts_name_the_rule() {
    let manager = default_manager(&["slack".to_string()]);
    let dock = target(5, "Dock", "com.apple.dock");
    let m = manager.check_protection_with_lang(&dock, Language::En).unwrap();
    assert_eq!(m.tier, WhitelistTier::L1CoreOs);
    assert_eq!(m.matched_rule, "Core OS bundle ID: com.apple.dock");
    assert_eq!(m.tier_label, "L1: Core OS");
    assert_eq!(m.tier_id, "l1_core_os");

    let code = target(6, "Code", "");
    let m = manager.check_protection_with_lang(&code, Language::ZhHant).unwrap();
    assert_eq!(m.matched_rule, "终端/IDE 应用名: Code");
    assert_eq!(m.tier_label, "L2:工作階段終端");

    let slack = target(7, "Slack", "com.tinyspeck.slackmacgap");
    let m = manager.check_protection_with_lang(&slack, Language::En).unwrap();
    assert_eq!(m.matched_rule, "CLI -k keep rule matched: Slack / com.tinyspeck.slackmacgap");
}

#[test]
fn user_config_entries_are_trimmed_and_names_ignore_case() {
    let mut config = TaskCleanerConfig::default();
    config.whitelist.bundle_ids.push("  com.spotify.client ".to_string());
    config.whitelist.names.push("telegram".to_string());
    let manager = WhitelistManager::new(&config, Some("/tmp/c.toml".to_string()), Vec::new(), &[]);
    assert_eq!(manager.loaded_config_path.as_deref(), Some("/tmp/c.toml"));

    let spotify = target(20, "Spotify", "com.spotify.client");
    let m = manager.check_protection_with_lang(&spotify, Language::En).unwrap();
    assert_eq!(m.tier, WhitelistTier::L4UserConfig);
    assert_eq!(m.matched_rule, "User config bundle ID: com.spotify.client");

    let telegram = target(21, "Telegram", "ru.keepcoder.Telegram");
    let m = manager.check_protection(&telegram).unwrap();
    assert_eq!(m.tier, WhitelistTier::L4UserConfig);
    assert_eq!(m.matched_rule, "用户配置应用名: Telegram");
}

#[test]
fn removal_records_unprotect_presets_but_not_critical_daemons() {
    let mut config = TaskCleanerConfig::default();
    config.whitelist.disabled_rules.push("GHOSTTY".to_string());
    config.whitelist.disabled_rules.push("dock".to_string());
    let manager = WhitelistManager::new(&config, None, vec![77], &[]);
    let ghostty = target(101, "Ghostty", "com.mitchellh.ghostty");
    assert!(manager.check_protection(&ghostty).is_none());
    let dock = target(102, "Dock", "com.apple.dock");
    assert_eq!(manager.check_protection(&dock).unwrap().tier, WhitelistTier::L1CoreOs);
    // the caller's lineage wins over removal records
    let lineage_ghostty = target(77, "Ghostty", "com.mitchellh.ghostty");
    assert_eq!(
        manager.check_protection(&lineage_ghostty).unwrap().tier,
        WhitelistTier::L2ContextShell
    );
}

#[test]
fn critical_daemons_and_core_members() {
    assert!(WhitelistManager::is_critical_system_daemon("  WINDOWSERVER "));
    assert!(WhitelistManager::is_critical_system_daemon("com.apple.Dock"));
    assert!(!WhitelistManager::is_critical_system_daemon("Finder"));
    assert!(!WhitelistManager::is_critical_system_daemon("com.apple.finder"));
    assert!(WhitelistManager::is_l1_core_os("finder"));
    assert!(WhitelistManager::is_l1_core_os("访达"));
    assert!(WhitelistManager::is_l1_core_os("loginwindow"));
    assert!(!WhitelistManager::is_l1_core_os("Safari"));
    assert!(is_finder(" FINDER "));
    assert!(is_finder("访达"));
    assert!(!is_finder("Finder2"));
}

#[test]
fn config_defaults() {
    assert_eq!(default_grace_period(), 400);
    assert!(default_dry_run());
    assert_eq!(default_tier_id(), "unknown");
    let c = TaskCleanerConfig::default();
    assert_eq!(c.general.grace_period_ms, 400);
    assert!(c.general.default_dry_run);
    assert!(c.general.language.is_none());
    assert!(c.whitelist.bundle_ids.is_empty());
}

#[test]
fn adding_identifiers_once() {
    let mut config = TaskCleanerConfig::default();
    assert!(WhitelistManager::add_identifier_to_config(&mut config, "com.spotify.client"));
    assert!(!WhitelistManager::add_identifier_to_config(&mut config, "COM.SPOTIFY.CLIENT"));
    assert!(WhitelistManager::add_identifier_to_config(&mut config, "网易云音乐"));
    // a name with a dot and a space is a name
    assert!(WhitelistManager::add_identifier_to_config(&mut config, " Mr. Robot "));
    assert_eq!(config.whitelist.bundle_ids, vec!["com.spotify.client".to_string()]);
    assert_eq!(config.whitelist.names, vec!["网易云音乐".to_string(), "Mr. Robot".to_string()]);
    assert!(!WhitelistManager::add_identifier_to_config(&mut config, "   "));
}

#[test]
fn append_lifts_removals_and_counts_new_entries() {
    let mut config = TaskCleanerConfig::default();
    config.whitelist.disabled_rules = vec!["Slack".to_string(), "Other".to_string()];
    let added = WhitelistManager::append_to_user_config(
        &mut config,
        &["com.a.b".to_string(), " ".to_string(), "com.a.b".to_string()],
        &["slack".to_string()],
    );
    assert_eq!(added, 2);
    assert_eq!(config.whitelist.bundle_ids, vec!["com.a.b".to_string()]);
    assert_eq!(config.whitelist.names, vec!["slack".to_string()]);
    assert_eq!(config.whitelist.disabled_rules, vec!["Other".to_string()]);
    // appending the same again changes nothing
    let again = WhitelistManager::append_to_user_config(
        &mut config,
        &["com.a.b".to_string(), " ".to_string(), "com.a.b".to_string()],
        &["slack".to_string()],
    );
    assert_eq!(again, 0);
    assert_eq!(config.whitelist.disabled_rules, vec!["Other".to_string()]);
}

#[test]
fn removing_identifiers_and_refusing_daemons() {
    let mut config = TaskCleanerConfig::default();
    WhitelistManager::add_identifier_to_config(&mut config, "com.spotify.client");
    let r = WhitelistManager::remove_identifier_from_config(&mut config, " COM.spotify.client ");
    assert!(matches!(r, Ok(true)));
    assert!(config.whitelist.bundle_ids.is_empty());
    // not a preset: nothing is recorded as removed
    assert!(config.whitelist.disabled_rules.is_empty());
    let r2 = WhitelistManager::remove_identifier_from_config(&mut config, "com.spotify.client");
    assert!(matches!(r2, Ok(false)));
    // a preset is recorded once, ASCII case ignored
    let r3 = WhitelistManager::remove_identifier_from_config(&mut config, " iterm2 ");
    assert!(matches!(r3, Ok(true)));
    assert_eq!(config.whitelist.disabled_rules, vec!["iterm2".to_string()]);
    let r4 = WhitelistManager::remove_identifier_from_config(&mut config, "ITERM2");
    assert!(matches!(r4, Ok(false)));

    let before = config.whitelist.disabled_rules.clone();
    let refused = WhitelistManager::remove_identifier_from_config(&mut config, "Dock");
    match refused {
        Err(e) => {
            assert!(matches!(&e, ConfigEditError::CriticalDaemonProtected(t) if t == "Dock"));
            assert_eq!(e.message(), "系统底层守护服务 (Dock) 属于核心常驻体系，禁止从白名单移除");
        }
        Ok(_) => panic!("removing a critical daemon must be refused"),
    }
    assert_eq!(config.whitelist.disabled_rules, before);
}

#[test]
fn removed_preset_is_no_longer_protected() {
    let mut config = TaskCleanerConfig::default();
    let r = WhitelistManager::remove_identifier_from_config(&mut config, "com.mitchellh.ghostty");
    assert!(matches!(r, Ok(true)));
    let manager = WhitelistManager::new(&config, None, Vec::new(), &[]);
    let ghostty = target(101, "Ghostty", "com.mitchellh.ghostty");
    assert!(manager.check_protection(&ghostty).is_none());

    let mut config = TaskCleanerConfig::default();
    assert!(WhitelistManager::remove_identifier_from_config(&mut config, "com.apple.finder").is_ok());
    let manager = WhitelistManager::new(&config, None, Vec::new(), &[]);
    let finder = target(9999, "Finder", "com.apple.finder");
    assert!(manager.check_protection(&finder).is_none());
}

#[test]
fn language_setting() {
    let mut config = TaskCleanerConfig::default();
    assert!(WhitelistManager::set_language_in_config(&mut config, "ja"));
    assert_eq!(config.general.language.as_deref(), Some("ja"));
    assert!(!WhitelistManager::set_language_in_config(&mut config, "ja"));
    assert!(WhitelistManager::set_language_in_config(&mut config, "AUTO"));
    assert!(config.general.language.is_none());
    assert!(!WhitelistManager::set_language_in_config(&mut config, "auto"));
}

#[test]
fn loaded_configs_drop_removals_of_critical_daemons() {
    let mut config = TaskCleanerConfig::default();
    config.whitelist.disabled_rules =
        vec!["WindowServer".to_string(), "Finder".to_string(), " loginwindow".to_string()];
    WhitelistManager::discard_critical_removals(&mut config);
    assert_eq!(config.whitelist.disabled_rules, vec!["Finder".to_string()]);
}

#[test]
fn splitting_apps_by_protection() {
    let manager = default_manager(&[]);
    let apps = vec![
        target(1, "Safari", "com.apple.Safari"),
        target(2, "Dock", "com.apple.dock"),
        target(3, "Notes", "com.apple.Notes"),
    ];
    let (protected, targets) = manager.split_by_protection(&apps);
    assert_eq!(protected.len(), 1);
    assert_eq!(protected[0].0.pid, 2);
    assert_eq!(protected[0].1.tier, WhitelistTier::L1CoreOs);
    assert_eq!(targets.iter().map(|t| t.pid).collect::<Vec<_>>(), vec![1, 3]);
}

#[test]
fn critical_daemons_without_bundle_ids_are_core() {
    let manager = default_manager(&[]);
    for name in ["loginwindow", "NotificationCenter", "SystemUIServer", "ControlCenter", "WindowServer"] {
        let app = target(300, name, "");
        let m = manager.check_protection_with_lang(&app, Language::En).unwrap();
        assert_eq!(m.tier, WhitelistTier::L1CoreOs);
        assert_eq!(m.matched_rule, format!("Core OS app name: {}", name));
    }
    let by_bundle = target(301, "Something", "com.apple.loginwindow");
    assert_eq!(manager.check_protection(&by_bundle).unwrap().tier, WhitelistTier::L1CoreOs);
}

#[test]
fn keeps_protect_despite_removal_records() {
    let mut config = TaskCleanerConfig::default();
    config.whitelist.disabled_rules.push("com.mitchellh.ghostty".to_string());
    let ghostty = target(101, "Ghostty", "com.mitchellh.ghostty");
    let manager = WhitelistManager::new(&config, None, Vec::new(), &[]);
    assert!(manager.check_protection(&ghostty).is_none());
    let kept = WhitelistManager::new(&config, None, Vec::new(), &["com.mitchellh.ghostty".to_string()]);
    let m = kept.check_protection(&ghostty).unwrap();
    assert_eq!(m.tier, WhitelistTier::L4CliOverride);
    assert_eq!(m.matched_rule, "命令行 -k 参数命中: Ghostty / com.mitchellh.ghostty");
}

#[test]
fn repeated_adds_of_variants_add_nothing() {
    let mut config = TaskCleanerConfig::default();
    assert!(WhitelistManager::add_identifier_to_config(&mut config, "com.spotify.client"));
    let before = config.whitelist.bundle_ids.clone();
    assert!(!WhitelistManager::add_identifier_to_config(&mut config, "com.spotify.client"));
    assert!(!WhitelistManager::add_identifier_to_config(&mut config, "  Com.Spotify.CLIENT\t"));
    assert_eq!(config.whitelist.bundle_ids, before);
    assert!(WhitelistManager::add_identifier_to_config(&mut config, "网易云音乐"));
    assert!(config.whitelist.names.contains(&"网易云音乐".to_string()));
}
