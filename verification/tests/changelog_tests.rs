use kraken::changelog::{apply_changelog_update, determine_changelog_date_format, update_changelog};
use kraken::config::KrakenConfig;
use kraken::dates::{format_date, ChangelogDateFormat};
use kraken::errors::ReleaseError;

#[test]
fn detect_short_format() {
    let text = "# Changelog\n\n## 1.0.0 - 2025-06-21\n\n- first release\n";
    assert_eq!(
        determine_changelog_date_format(text),
        Ok(ChangelogDateFormat::Short)
    );
}

#[test]
fn detect_long_format() {
    let text = "# Changelog\n\n## 1.0.0 - June 21, 2025\n\n- first release\n";
    assert_eq!(
        determine_changelog_date_format(text),
        Ok(ChangelogDateFormat::Long)
    );
}

#[test]
fn detect_long_format_padded_day() {
    let text = "## 0.2.0 - June 05, 2025\n";
    assert_eq!(
        determine_changelog_date_format(text),
        Ok(ChangelogDateFormat::Long)
    );
}

#[test]
fn detect_nothing() {
    let text = "# Changelog\n\nNothing released yet.\n";
    assert_eq!(
        determine_changelog_date_format(text),
        Err(ReleaseError::NoDateFormatFound)
    );
}

#[test]
fn detect_short_takes_priority() {
    let text = "## 2.0.0 - June 21, 2025\n## 1.0.0 - 2024-01-02\n";
    assert_eq!(
        determine_changelog_date_format(text),
        Ok(ChangelogDateFormat::Short)
    );
}

#[test]
fn detect_needs_heading_marker() {
    let text = "1.0.0 - 2025-06-21\n";
    assert_eq!(
        determine_changelog_date_format(text),
        Err(ReleaseError::NoDateFormatFound)
    );
}

#[test]
fn detect_date_must_be_trailing() {
    let text = "## 2025-06-21 - notes\n";
    assert_eq!(
        determine_changelog_date_format(text),
        Err(ReleaseError::NoDateFormatFound)
    );
}

#[test]
fn detect_loose_date_suffix_is_rejected() {
    let text = "## 1.0.0 - 2025-06-21 beta\n";
    assert_eq!(
        determine_changelog_date_format(text),
        Err(ReleaseError::NoDateFormatFound)
    );
}

#[test]
fn update_round_trip_short() {
    let text = "# Changelog\n\n## Next release\n\n- a change\n";
    let updated = apply_changelog_update(text, "1.2.0", "2025-06-21").unwrap();
    assert_eq!(updated, "# Changelog\n\n## 1.2.0 - 2025-06-21\n\n- a change\n");
    assert_eq!(
        determine_changelog_date_format(&updated),
        Ok(ChangelogDateFormat::Short)
    );
}

#[test]
fn update_second_run_fails() {
    let text = "## Next release\n\n- a change\n";
    let updated = apply_changelog_update(text, "1.2.0", "2025-06-21").unwrap();
    assert_eq!(
        apply_changelog_update(&updated, "1.3.0", "2025-06-22"),
        Err(ReleaseError::NextReleaseHeaderNotFound)
    );
}

#[test]
fn update_without_heading_fails() {
    let text = "# Changelog\n\n## 1.0.0 - 2025-01-01\n";
    assert_eq!(
        apply_changelog_update(text, "1.2.0", "2025-06-21"),
        Err(ReleaseError::NextReleaseHeaderNotFound)
    );
}

#[test]
fn update_is_case_insensitive_and_keeps_marker() {
    let text = "### NEXT VERSION (unreleased)\nbody\n";
    let updated = apply_changelog_update(text, "0.9.0", "June 21, 2025").unwrap();
    assert_eq!(updated, "### 0.9.0 - June 21, 2025\nbody\n");
}

#[test]
fn update_replaces_only_first_heading() {
    let text = "## Next release\n\n## Next release\n";
    let updated = apply_changelog_update(text, "1.0.0", "2025-06-21").unwrap();
    assert_eq!(updated, "## 1.0.0 - 2025-06-21\n\n## Next release\n");
}

#[test]
fn update_keeps_text_without_trailing_newline() {
    let text = "## Next release";
    let updated = apply_changelog_update(text, "1.0.0", "2025-06-21").unwrap();
    assert_eq!(updated, "## 1.0.0 - 2025-06-21");
}

#[test]
fn update_changelog_rejects_unresolved_format() {
    let config = KrakenConfig {
        changelog_date_format: Some(ChangelogDateFormat::Auto),
        changelog_path: Some("CHANGELOG.md".to_string()),
        bump_after_release: Some(true),
        commit_changes: Some(true),
    };
    assert_eq!(
        update_changelog("1.0.0", &config, "## Next release\n"),
        Err(ReleaseError::UnsupportedDateFormat)
    );
    let config_none = KrakenConfig {
        changelog_date_format: None,
        ..config
    };
    assert_eq!(
        update_changelog("1.0.0", &config_none, "## Next release\n"),
        Err(ReleaseError::UnsupportedDateFormat)
    );
}

#[test]
fn update_changelog_uses_current_date_short() {
    let config = KrakenConfig {
        changelog_date_format: Some(ChangelogDateFormat::Short),
        changelog_path: Some("CHANGELOG.md".to_string()),
        bump_after_release: Some(true),
        commit_changes: Some(true),
    };
    let updated = update_changelog("1.2.0", &config, "## Next release\n").unwrap();
    assert!(updated.starts_with("## 1.2.0 - "));
    assert!(updated.ends_with("\n"));
    assert_eq!(
        determine_changelog_date_format(&updated),
        Ok(ChangelogDateFormat::Short)
    );
}

#[test]
fn update_changelog_missing_heading() {
    let config = KrakenConfig {
        changelog_date_format: Some(ChangelogDateFormat::Long),
        changelog_path: Some("CHANGELOG.md".to_string()),
        bump_after_release: Some(true),
        commit_changes: Some(true),
    };
    assert_eq!(
        update_changelog("1.2.0", &config, "# Changelog\n"),
        Err(ReleaseError::NextReleaseHeaderNotFound)
    );
}

#[test]
fn format_date_short() {
    assert_eq!(
        format_date(ChangelogDateFormat::Short, 2025, 6, 21).unwrap(),
        "2025-06-21"
    );
}

#[test]
fn format_date_long() {
    assert_eq!(
        format_date(ChangelogDateFormat::Long, 2025, 6, 21).unwrap(),
        "June 21, 2025"
    );
}

#[test]
fn format_date_long_pads_day() {
    assert_eq!(
        format_date(ChangelogDateFormat::Long, 2025, 12, 5).unwrap(),
        "December 05, 2025"
    );
}

#[test]
fn format_date_pads_year() {
    assert_eq!(
        format_date(ChangelogDateFormat::Short, 999, 1, 2).unwrap(),
        "0999-01-02"
    );
}

#[test]
fn format_date_rejects_auto() {
    assert_eq!(
        format_date(ChangelogDateFormat::Auto, 2025, 6, 21),
        Err(ReleaseError::UnsupportedDateFormat)
    );
}

#[test]
fn error_messages() {
    assert_eq!(
        ReleaseError::NoDateFormatFound.message(),
        "No valid date format found in the changelog file."
    );
    assert_eq!(
        ReleaseError::NextReleaseHeaderNotFound.message(),
        "Next release header not found in the changelog."
    );
    assert_eq!(
        ReleaseError::UnsupportedDateFormat.message(),
        "Unsupported date format for changelog."
    );
}
