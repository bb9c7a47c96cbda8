use mso::config::{Config, ThemeConfig, Preset, RunConfig, resolve_run, default_restart, default_log_retention, join_path, mso_dir_for, hex_color_valid};
use mso::protocol::RestartPolicy;

fn config() -> Config {
    Config { restart_policy: "no".into(), silence_secs: None, log_retention_days: 30, theme: None }
}

#[test]
fn defaults() {
    assert_eq!(default_restart(), "no");
    assert_eq!(default_log_retention(), 30);
    let c = Config::default();
    assert_eq!(c.restart_policy, "no");
    assert!(c.validate().is_empty());
}

#[test]
fn validate_reports_each_problem_in_order() {
    let c = Config {
        restart_policy: "sometimes".into(),
        silence_secs: Some(86401),
        log_retention_days: 0,
        theme: Some(ThemeConfig { accent: Some("#00CCFF".into()), bg_dark: Some("00CCFF".into()), bg_mid: Some("#00CCFG".into()) }),
    };
    assert_eq!(c.validate(), vec![
        "restart_policy must be 'no' or 'always'".to_string(),
        "silence_secs must be ≤ 86400".to_string(),
        "log_retention_days must be > 0".to_string(),
        "theme.bg_dark must be a valid hex color like #00CCFF".to_string(),
        "theme.bg_mid must be a valid hex color like #00CCFF".to_string(),
    ]);
}

#[test]
fn validate_accepts_limits() {
    let mut c = config();
    c.restart_policy = "always".into();
    c.silence_secs = Some(86400);
    c.log_retention_days = 1;
    assert!(c.validate().is_empty());
    assert!(hex_color_valid("#abcDEF"));
    assert!(!hex_color_valid("#abcDE"));
}

#[test]
fn paths_under_home() {
    assert_eq!(mso_dir_for(Some("/home/u")), "/home/u/.mso");
    assert_eq!(join_path("/home/u/.mso", "mso.sock"), "/home/u/.mso/mso.sock");
}

fn run(restart: Option<&str>, silence: Option<u64>, tags: &[&str], hc: Option<&str>) -> RunConfig {
    RunConfig {
        silence,
        restart: restart.map(|s| s.to_string()),
        command: vec!["sleep".into(), "1".into()],
        tags: tags.iter().map(|t| t.to_string()).collect(),
        health_check: hc.map(|s| s.to_string()),
        health_interval: 10,
        health_timeout: 5,
        health_max_failures: 3,
        log_file: None,
        preset: None,
    }
}

fn preset() -> Preset {
    Preset {
        command: vec![],
        restart_policy: "always".into(),
        tags: vec!["p".into()],
        silence_secs: Some(9),
        health_check: Some("http://p/health".into()),
        health_interval: None,
        health_timeout: None,
        health_max_failures: None,
    }
}

#[test]
fn flags_come_first() {
    let plan = resolve_run(&run(Some("no"), Some(1), &["t"], Some("http://x")), &config(), Some(&preset()));
    assert_eq!(plan.silence, Some(1));
    assert_eq!(plan.restart_policy, RestartPolicy::No);
    assert_eq!(plan.tags, vec!["t"]);
    let hc = plan.health_check.unwrap();
    assert_eq!(hc.url, "http://x");
    assert_eq!(hc.interval_secs, 10);
    assert_eq!(hc.timeout_secs, 5);
    assert_eq!(hc.max_failures, 3);
    assert_eq!(plan.command, vec!["sleep", "1"]);
}

#[test]
fn preset_fills_gaps() {
    let plan = resolve_run(&run(None, None, &[], None), &config(), Some(&preset()));
    assert_eq!(plan.silence, Some(9));
    assert_eq!(plan.restart_policy, RestartPolicy::Always);
    assert_eq!(plan.tags, vec!["p"]);
    assert_eq!(plan.health_check.unwrap().url, "http://p/health");
}

#[test]
fn config_silence_beats_preset_but_preset_restart_beats_config() {
    let mut c = config();
    c.silence_secs = Some(4);
    c.restart_policy = "no".into();
    let plan = resolve_run(&run(None, None, &[], None), &c, Some(&preset()));
    assert_eq!(plan.silence, Some(4));
    assert_eq!(plan.restart_policy, RestartPolicy::Always);
    let plan = resolve_run(&run(None, None, &[], None), &c, None);
    assert_eq!(plan.restart_policy, RestartPolicy::No);
    assert!(plan.tags.is_empty());
    assert!(plan.health_check.is_none());
}
