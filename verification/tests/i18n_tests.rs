use macos_task_cleaner_core::i18n::{CoreMessages, Language};
use macos_task_cleaner_core::signal::TerminationStatusCode;
use macos_task_cleaner_core::whitelist::WhitelistTier;

#[test]
fn test_language_from_locale_str() {
    assert_eq!(Language::from_locale_str("en-US"), Language::En);
    assert_eq!(Language::from_locale_str("zh-Hans-CN"), Language::ZhHans);
    assert_eq!(Language::from_locale_str("zh-TW"), Language::ZhHant);
    assert_eq!(Language::from_locale_str("ja_JP"), Language::Ja);
    assert_eq!(Language::from_locale_str("fr-FR"), Language::Fr);
    assert_eq!(Language::from_locale_str("de-DE"), Language::De);
    assert_eq!(Language::from_locale_str("uk_UA"), Language::Uk);
}

#[test]
fn test_whitelist_tier_localization() {
    let t1 = WhitelistTier::L1CoreOs;
    assert_eq!(t1.code(), "L1");
    assert_eq!(t1.identifier(), "l1_core_os");
    assert_eq!(t1.localized_label(Language::En), "L1: Core OS");
    assert_eq!(t1.localized_label(Language::ZhHans), "L1:系统核心");
    assert_eq!(t1.localized_label(Language::ZhHant), "L1:系統核心");
    assert_eq!(t1.localized_label(Language::Ja), "L1:システムコア");

    let t2 = WhitelistTier::L2ContextShell;
    assert_eq!(t2.localized_label(Language::En), "L2: Context Shell");
    assert_eq!(t2.localized_label(Language::ZhHans), "L2:会话终端");

    let t4 = WhitelistTier::L4CliOverride;
    assert_eq!(t4.code(), "CLI");
    assert_eq!(t4.identifier(), "l4_cli_override");
    assert_eq!(t4.localized_label(Language::En), "L4: CLI Override");
}

#[test]
fn test_status_code_localization() {
    let sc = TerminationStatusCode::SuccessSigterm;
    assert_eq!(
        sc.localized_description(Language::En),
        "Terminated gracefully (SIGTERM)"
    );
    assert_eq!(
        sc.localized_description(Language::ZhHans),
        "标准终止成功 (SIGTERM)"
    );

    let sc_daemon = TerminationStatusCode::SkippedCriticalDaemon;
    assert_eq!(
        sc_daemon.localized_description(Language::En),
        "Critical system daemon protected, skipped"
    );
}

#[test]
fn locale_parsing_lower_cases_through_unicode_mapping() {
    // Upper-case identifiers only match after lower-casing.
    assert_eq!(Language::from_locale_str("ZH-TW"), Language::ZhHant);
    assert_eq!(Language::from_locale_str("ZH_HANT"), Language::ZhHant);
    assert_eq!(Language::from_locale_str("NB-NO"), Language::Nb);
    assert_eq!(Language::from_locale_str("no"), Language::Nb);
    assert_eq!(Language::from_locale_str("zh-cht"), Language::ZhHant);
    assert_eq!(Language::from_locale_str(""), Language::En);
    assert_eq!(Language::from_locale_str("xx-YY"), Language::En);
    assert_eq!(Language::from_lowercase_locale("pt_br"), Language::Pt);
}

#[test]
fn every_code_reads_back_as_its_language() {
    let all = [
        Language::En, Language::ZhHans, Language::ZhHant, Language::Ja, Language::Ko,
        Language::Fr, Language::De, Language::Es, Language::Pt, Language::It, Language::Ru,
        Language::Nl, Language::Pl, Language::Tr, Language::Ar, Language::Th, Language::Vi,
        Language::Id, Language::Sv, Language::Da, Language::Nb, Language::Fi, Language::Cs,
        Language::Uk,
    ];
    for l in all {
        assert_eq!(Language::from_locale_str(l.code()), l);
    }
    assert_eq!(Language::ZhHans.code(), "zh-Hans");
    assert_eq!(Language::default(), Language::En);
}

#[test]
fn tier_identifiers_are_distinct() {
    let tiers = [
        WhitelistTier::L1CoreOs,
        WhitelistTier::L2ContextShell,
        WhitelistTier::L3PersistentUtilities,
        WhitelistTier::L4UserConfig,
        WhitelistTier::L4CliOverride,
    ];
    for (i, a) in tiers.iter().enumerate() {
        for (j, b) in tiers.iter().enumerate() {
            assert_eq!(i == j, a.identifier() == b.identifier());
        }
    }
    assert_eq!(WhitelistTier::L3PersistentUtilities.code(), "L3");
    assert_eq!(WhitelistTier::L4UserConfig.label(), "L4:用户配置");
}

#[test]
fn status_descriptions_fall_back_to_english() {
    assert_eq!(
        TerminationStatusCode::FailedKill.localized_description(Language::De),
        "Force termination failed (SIGKILL)"
    );
    assert_eq!(
        TerminationStatusCode::Unknown.localized_description(Language::Ja),
        "不明な状態"
    );
}

#[test]
fn core_messages_format_numbers_and_details() {
    assert_eq!(
        CoreMessages::caller_lineage_error(123, Language::En),
        "Process PID 123 belongs to the caller session lineage"
    );
    assert_eq!(
        CoreMessages::caller_lineage_error(-45, Language::ZhHans),
        "进程 PID -45 属于当前调用者祖先会话链路"
    );
    assert_eq!(
        CoreMessages::caller_lineage_error(i32::MIN, Language::Fr),
        "Process PID -2147483648 belongs to the caller session lineage"
    );
    assert_eq!(
        CoreMessages::purge_failed_error(Some(3), "boom", Language::En),
        "purge failed (exit code Some(3)): boom"
    );
    assert_eq!(
        CoreMessages::purge_failed_error(None, "x", Language::ZhHans),
        "purge 执行失败 (退出码 None): x"
    );
    assert_eq!(
        CoreMessages::critical_daemon_error(Language::Ja),
        "重要なシステムデーモンは終了できません"
    );
    assert!(CoreMessages::finder_timeout_error(Language::En).starts_with("Finder did not respond"));
}

#[test]
fn locale_environment_values() {
    assert_eq!(Language::from_env_locale(" de_DE.UTF-8 "), Some(Language::De));
    assert_eq!(Language::from_env_locale("C"), None);
    assert_eq!(Language::from_env_locale("POSIX"), None);
    assert_eq!(Language::from_env_locale("   "), None);
}

#[test]
fn apple_languages_printout() {
    let text = "(\n    \"ja-JP\",\n    \"en-US\"\n)\n";
    assert_eq!(Language::from_apple_languages(text), Some(Language::Ja));
    assert_eq!(Language::from_apple_languages("(\n)\n"), None);
    assert_eq!(Language::from_apple_languages(""), None);
}

#[test]
fn locale_case_and_separator_do_not_matter() {
    for s in ["en_US", "zh_TW", "zh-hans-CN", "ja_JP", "pt_BR", "nb_NO"] {
        assert_eq!(Language::from_locale_str(s), Language::from_locale_str(&s.to_ascii_uppercase()));
        assert_eq!(Language::from_locale_str(s), Language::from_locale_str(&s.replace('_', "-")));
    }
}

#[test]
fn tier_labels_carry_prefixes_and_differ() {
    let tiers = [
        (WhitelistTier::L1CoreOs, "L1:"),
        (WhitelistTier::L2ContextShell, "L2:"),
        (WhitelistTier::L3PersistentUtilities, "L3:"),
        (WhitelistTier::L4UserConfig, "L4:"),
        (WhitelistTier::L4CliOverride, "L4:"),
    ];
    for lang in [Language::En, Language::ZhHant, Language::Th, Language::Uk] {
        for (t, p) in tiers {
            assert!(t.localized_label(lang).starts_with(p));
            for (u, _) in tiers {
                if t != u {
                    assert_ne!(t.localized_label(lang), u.localized_label(lang));
                }
            }
        }
    }
}

#[test]
fn unicode_lower_casing_reaches_the_prefix_match() {
    // KELVIN SIGN lower-cases to an ASCII 'k' under the Unicode mapping.
    assert_eq!(Language::from_locale_str("\u{212A}O"), Language::Ko);
    assert_eq!(Language::from_locale_str("\u{212A}o_kr"), Language::Ko);
    // letter case and separators never matter, also beside non-ASCII text
    for s in ["\u{212A}o_KR", "İt_it", "zh_Hant_台灣"] {
        assert_eq!(Language::from_locale_str(s), Language::from_locale_str(&s.to_ascii_uppercase()));
        assert_eq!(Language::from_locale_str(s), Language::from_locale_str(&s.replace('_', "-")));
    }
}
