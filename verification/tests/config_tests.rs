use kraken::config::{
    bump_flags_conflict, ensure_kraken_config, resolve_date_format, update_config, Args,
    KrakenConfig, Project, PyProject,
};
use kraken::dates::ChangelogDateFormat;

fn no_flag_args() -> Args {
    Args {
        new_version: "1.0.0".to_string(),
        changelog_date_format: None,
        changelog_path: None,
        bump_after_release: false,
        no_bump_after_release: false,
        commit_changes: false,
        no_commit_changes: false,
    }
}

fn persisted(commit: Option<bool>) -> KrakenConfig {
    KrakenConfig {
        changelog_date_format: Some(ChangelogDateFormat::Auto),
        changelog_path: Some("CHANGELOG.md".to_string()),
        bump_after_release: Some(true),
        commit_changes: commit,
    }
}

#[test]
fn defaults() {
    let d = KrakenConfig::default();
    assert_eq!(d.changelog_date_format, Some(ChangelogDateFormat::Auto));
    assert_eq!(d.changelog_path.as_deref(), Some("CHANGELOG.md"));
    assert_eq!(d.bump_after_release, Some(true));
    assert_eq!(d.commit_changes, Some(true));
}

#[test]
fn commit_flag_wins_over_persisted() {
    let mut args = no_flag_args();
    args.commit_changes = true;
    let mut cfg = persisted(Some(false));
    update_config(&args, &mut cfg);
    assert_eq!(cfg.commit_changes, Some(true));
}

#[test]
fn no_commit_flag_wins_regardless() {
    let mut args = no_flag_args();
    args.commit_changes = true;
    args.no_commit_changes = true;
    let mut cfg = persisted(Some(true));
    update_config(&args, &mut cfg);
    assert_eq!(cfg.commit_changes, Some(false));

    let mut cfg2 = persisted(Some(false));
    let mut args2 = no_flag_args();
    args2.no_commit_changes = true;
    update_config(&args2, &mut cfg2);
    assert_eq!(cfg2.commit_changes, Some(false));
}

#[test]
fn persisted_commit_survives_without_flags() {
    let args = no_flag_args();
    let mut cfg = persisted(Some(false));
    update_config(&args, &mut cfg);
    assert_eq!(cfg.commit_changes, Some(false));
}

#[test]
fn bump_flags_layering() {
    let mut args = no_flag_args();
    args.bump_after_release = true;
    let mut cfg = persisted(Some(true));
    cfg.bump_after_release = Some(false);
    update_config(&args, &mut cfg);
    assert_eq!(cfg.bump_after_release, Some(true));

    let mut args2 = no_flag_args();
    args2.no_bump_after_release = true;
    let mut cfg2 = persisted(Some(true));
    update_config(&args2, &mut cfg2);
    assert_eq!(cfg2.bump_after_release, Some(false));
}

#[test]
fn cli_format_and_path_override() {
    let mut args = no_flag_args();
    args.changelog_date_format = Some(ChangelogDateFormat::Long);
    args.changelog_path = Some("docs/HISTORY.md".to_string());
    let mut cfg = persisted(Some(true));
    update_config(&args, &mut cfg);
    assert_eq!(cfg.changelog_date_format, Some(ChangelogDateFormat::Long));
    assert_eq!(cfg.changelog_path.as_deref(), Some("docs/HISTORY.md"));
}

#[test]
fn missing_path_falls_back_to_default() {
    let args = no_flag_args();
    let mut cfg = persisted(Some(true));
    cfg.changelog_path = None;
    update_config(&args, &mut cfg);
    assert_eq!(cfg.changelog_path.as_deref(), Some("CHANGELOG.md"));
}

#[test]
fn conflicting_bump_flags_detected() {
    let mut args = no_flag_args();
    args.bump_after_release = true;
    args.no_bump_after_release = true;
    assert!(bump_flags_conflict(&args));
    let mut only_one = no_flag_args();
    only_one.bump_after_release = true;
    assert!(!bump_flags_conflict(&only_one));
}

#[test]
fn auto_format_resolved_from_contents() {
    let mut cfg = persisted(Some(true));
    resolve_date_format(&mut cfg, "## 1.0.0 - 2025-06-21\n");
    assert_eq!(cfg.changelog_date_format, Some(ChangelogDateFormat::Short));

    let mut cfg_long = persisted(Some(true));
    resolve_date_format(&mut cfg_long, "## 1.0.0 - June 21, 2025\n");
    assert_eq!(cfg_long.changelog_date_format, Some(ChangelogDateFormat::Long));
}

#[test]
fn failed_detection_leaves_format_unresolved() {
    let mut cfg = persisted(Some(true));
    resolve_date_format(&mut cfg, "nothing dated\n");
    assert_eq!(cfg.changelog_date_format, Some(ChangelogDateFormat::Auto));
}

#[test]
fn concrete_format_is_kept() {
    let mut cfg = persisted(Some(true));
    cfg.changelog_date_format = Some(ChangelogDateFormat::Long);
    resolve_date_format(&mut cfg, "## 1.0.0 - 2025-06-21\n");
    assert_eq!(cfg.changelog_date_format, Some(ChangelogDateFormat::Long));
}

#[test]
fn missing_kraken_section_gets_defaults() {
    let mut p = PyProject {
        project: Project {
            name: "demo".to_string(),
            version: "0.1.0".to_string(),
        },
        kraken: None,
    };
    ensure_kraken_config(&mut p);
    let k = p.kraken.unwrap();
    assert_eq!(k.changelog_date_format, Some(ChangelogDateFormat::Auto));
    assert_eq!(k.changelog_path.as_deref(), Some("CHANGELOG.md"));
}

#[test]
fn present_kraken_section_is_kept() {
    let mut p = PyProject {
        project: Project {
            name: "demo".to_string(),
            version: "0.1.0".to_string(),
        },
        kraken: Some(KrakenConfig {
            changelog_date_format: Some(ChangelogDateFormat::Short),
            changelog_path: Some("NEWS.md".to_string()),
            bump_after_release: Some(false),
            commit_changes: Some(false),
        }),
    };
    ensure_kraken_config(&mut p);
    let k = p.kraken.unwrap();
    assert_eq!(k.changelog_date_format, Some(ChangelogDateFormat::Short));
    assert_eq!(k.changelog_path.as_deref(), Some("NEWS.md"));
    assert_eq!(k.bump_after_release, Some(false));
    assert_eq!(k.commit_changes, Some(false));
}
