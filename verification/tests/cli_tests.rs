use macos_task_cleaner_core::cli::{parse_cli_args, CliError};

fn args(list: &[&str]) -> Vec<String> {
    list.iter().map(|s| s.to_string()).collect()
}

#[test]
fn no_arguments_give_default_options() {
    let cli = parse_cli_args(&[]).unwrap();
    assert_eq!(cli.dry_run, None);
    assert!(!cli.force);
    assert!(!cli.purge);
    assert!(!cli.json);
    assert_eq!(cli.config_path, None);
    assert!(cli.cli_keeps.is_empty());
    assert!(!cli.init_config);
    assert!(!cli.show_help);
    assert!(!cli.show_version);
}

#[test]
fn short_and_long_options() {
    let cli = parse_cli_args(&args(&["-n", "--purge", "--json", "-c", "/tmp/x.toml"])).unwrap();
    assert_eq!(cli.dry_run, Some(true));
    assert!(cli.purge);
    assert!(cli.json);
    assert_eq!(cli.config_path.as_deref(), Some("/tmp/x.toml"));

    let cli = parse_cli_args(&args(&["--execute", "--init-config", "-h", "-v"])).unwrap();
    assert_eq!(cli.dry_run, Some(false));
    assert!(cli.init_config);
    assert!(cli.show_help);
    assert!(cli.show_version);
}

#[test]
fn force_implies_execution_and_later_options_win() {
    let cli = parse_cli_args(&args(&["-f"])).unwrap();
    assert!(cli.force);
    assert_eq!(cli.dry_run, Some(false));

    let cli = parse_cli_args(&args(&["--force", "--dry-run"])).unwrap();
    assert!(cli.force);
    assert_eq!(cli.dry_run, Some(true));

    let cli = parse_cli_args(&args(&["-c", "a.toml", "--config", "b.toml"])).unwrap();
    assert_eq!(cli.config_path.as_deref(), Some("b.toml"));
}

#[test]
fn keep_values_accumulate_in_order() {
    let cli = parse_cli_args(&args(&["-k", "Slack", "--keep", "com.google.Chrome", "-k", "-n"]))
        .unwrap();
    assert_eq!(cli.cli_keeps, vec!["Slack".to_string(), "com.google.Chrome".to_string(), "-n".to_string()]);
    assert_eq!(cli.dry_run, None);
}

#[test]
fn missing_values_and_unknown_arguments_are_refused() {
    match parse_cli_args(&args(&["-n", "-c"])) {
        Err(CliError::MissingConfigValue) => {}
        other => panic!("unexpected: {:?}", other),
    }
    match parse_cli_args(&args(&["--keep"])) {
        Err(CliError::MissingKeepValue) => {}
        other => panic!("unexpected: {:?}", other),
    }
    match parse_cli_args(&args(&["-n", "--bogus", "-c"])) {
        Err(CliError::UnknownArgument(a)) => assert_eq!(a, "--bogus"),
        other => panic!("unexpected: {:?}", other),
    }
}

#[test]
fn refusal_messages() {
    assert_eq!(CliError::MissingConfigValue.message(), "缺少 --config 参数值");
    assert_eq!(CliError::MissingKeepValue.message(), "缺少 --keep 参数值");
    assert_eq!(CliError::UnknownArgument("-x".to_string()).message(), "未知参数: -x");
}

#[test]
fn explicit_mode_wins_over_the_configured_default() {
    let cli = parse_cli_args(&[]).unwrap();
    assert!(cli.is_dry_run(true));
    assert!(!cli.is_dry_run(false));
    let cli = parse_cli_args(&args(&["-e"])).unwrap();
    assert!(!cli.is_dry_run(true));
    let cli = parse_cli_args(&args(&["--dry-run"])).unwrap();
    assert!(cli.is_dry_run(false));
    let cli = parse_cli_args(&args(&["-f"])).unwrap();
    assert!(!cli.is_dry_run(true));
}
