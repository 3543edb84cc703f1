use vstd::prelude::*;

use crate::changelog::{determine_changelog_date_format, doc_has_long, doc_has_short};
use crate::dates::ChangelogDateFormat;

verus! {

/// Command-line input, already parsed and validated: one required version
/// string and the optional overrides for the persisted configuration.
pub struct Args {
    /// Version to release.
    pub new_version: String,
    /// Changelog date format.
    pub changelog_date_format: Option<ChangelogDateFormat>,
    /// Path to the changelog file.
    pub changelog_path: Option<String>,
    /// Bump the version after release.
    pub bump_after_release: bool,
    /// Do not bump the version after release.
    pub no_bump_after_release: bool,
    /// Commit changes to the git repository.
    pub commit_changes: bool,
    /// Do not commit changes to the git repository.
    pub no_commit_changes: bool,
}

/// Mathematical image of `Args`.
#[verifier::ext_equal]
pub struct ArgsModel {
    pub new_version: Seq<char>,
    pub changelog_date_format: Option<ChangelogDateFormat>,
    pub changelog_path: Option<Seq<char>>,
    pub bump_after_release: bool,
    pub no_bump_after_release: bool,
    pub commit_changes: bool,
    pub no_commit_changes: bool,
}

impl View for Args {
    type V = ArgsModel;

    open spec fn view(&self) -> ArgsModel {
        ArgsModel {
            new_version: self.new_version@,
            changelog_date_format: self.changelog_date_format,
            changelog_path: match self.changelog_path {
                Some(p) => Some(p@),
                None => None,
            },
            bump_after_release: self.bump_after_release,
            no_bump_after_release: self.no_bump_after_release,
            commit_changes: self.commit_changes,
            no_commit_changes: self.no_commit_changes,
        }
    }
}

/// The positive and negative bump flags contradict each other; such a pair
/// must be rejected before the workflow runs.
pub fn bump_flags_conflict(args: &Args) -> (b: bool)
    ensures
        b == (args.bump_after_release && args.no_bump_after_release),
{
    args.bump_after_release && args.no_bump_after_release
}

/// The project's persisted release settings; a `None` field means the setting
/// was never written down.
pub struct KrakenConfig {
    pub changelog_date_format: Option<ChangelogDateFormat>,
    pub changelog_path: Option<String>,
    pub bump_after_release: Option<bool>,
    pub commit_changes: Option<bool>,
}

/// Mathematical image of `KrakenConfig`.
#[verifier::ext_equal]
pub struct ConfigModel {
    pub changelog_date_format: Option<ChangelogDateFormat>,
    pub changelog_path: Option<Seq<char>>,
    pub bump_after_release: Option<bool>,
    pub commit_changes: Option<bool>,
}

impl View for KrakenConfig {
    type V = ConfigModel;

    open spec fn view(&self) -> ConfigModel {
        ConfigModel {
            changelog_date_format: self.changelog_date_format,
            changelog_path: match self.changelog_path {
                Some(p) => Some(p@),
                None => None,
            },
            bump_after_release: self.bump_after_release,
            commit_changes: self.commit_changes,
        }
    }
}

/// The built-in defaults: auto-detected date format, `CHANGELOG.md`, bump
/// and commit both on.
pub open spec fn default_config() -> ConfigModel {
    ConfigModel {
        changelog_date_format: Some(ChangelogDateFormat::Auto),
        changelog_path: Some("CHANGELOG.md"@),
        bump_after_release: Some(true),
        commit_changes: Some(true),
    }
}

impl Default for KrakenConfig {
    /// The built-in default settings.
    fn default() -> (r: KrakenConfig)
        ensures
            r@ == default_config(),
    {
        let r = KrakenConfig {
            changelog_date_format: Some(ChangelogDateFormat::Auto),
            changelog_path: Some("CHANGELOG.md".to_owned()),
            bump_after_release: Some(true),
            commit_changes: Some(true),
        };
        proof {
            assert(r@ =~= default_config());
        }
        r
    }
}

/// The persisted settings overridden field by field with what the command
/// line supplied, highest precedence last:
/// - an explicit date format or changelog path wins over the persisted one;
/// - a missing changelog path falls back to `CHANGELOG.md`;
/// - for each flag pair, the negative flag forces the setting off, else the
///   positive flag forces it on, else the persisted value stands.
pub open spec fn merged_config(args: ArgsModel, cfg: ConfigModel) -> ConfigModel {
    ConfigModel {
        changelog_date_format: if args.changelog_date_format is Some {
            args.changelog_date_format
        } else {
            cfg.changelog_date_format
        },
        changelog_path: if args.changelog_path is Some {
            args.changelog_path
        } else if cfg.changelog_path is None {
            Some("CHANGELOG.md"@)
        } else {
            cfg.changelog_path
        },
        bump_after_release: if args.no_bump_after_release {
            Some(false)
        } else if args.bump_after_release {
            Some(true)
        } else {
            cfg.bump_after_release
        },
        commit_changes: if args.no_commit_changes {
            Some(false)
        } else if args.commit_changes {
            Some(true)
        } else {
            cfg.commit_changes
        },
    }
}

/// Overrides the persisted configuration with the command-line arguments,
/// field by field, as `merged_config` states.
pub fn update_config(args: &Args, kraken_config: &mut KrakenConfig)
    ensures
        final (kraken_config)@ == merged_config(args@, old(kraken_config)@),
{
    if let Some(f) = args.changelog_date_format {
        kraken_config.changelog_date_format = Some(f);
    }
    if let Some(p) = &args.changelog_path {
        kraken_config.changelog_path = Some(p.clone());
    } else if kraken_config.changelog_path.is_none() {
        kraken_config.changelog_path = Some("CHANGELOG.md".to_owned());
    }
    if args.no_bump_after_release {
        kraken_config.bump_after_release = Some(false);
    } else if args.bump_after_release {
        kraken_config.bump_after_release = Some(true);
    }
    if args.no_commit_changes {
        kraken_config.commit_changes = Some(false);
    } else if args.commit_changes {
        kraken_config.commit_changes = Some(true);
    }
    proof {
        assert(kraken_config@ =~= merged_config(args@, old(kraken_config)@));
    }
}

/// An explicit `--commit-changes` flag wins over any persisted setting.
pub proof fn lemma_commit_flag_wins(args: ArgsModel, cfg: ConfigModel)
    requires
        args.commit_changes,
        !args.no_commit_changes,
    ensures
        merged_config(args, cfg).commit_changes == Some(true),
{
}

/// An explicit `--no-commit-changes` flag forces the setting off, whatever
/// the persisted value says.
pub proof fn lemma_no_commit_flag_wins(args: ArgsModel, cfg: ConfigModel)
    requires
        args.no_commit_changes,
    ensures
        merged_config(args, cfg).commit_changes == Some(false),
{
}

/// The configuration after auto-detection: the `Auto` sentinel is replaced by
/// the notation the changelog text shows; when the text shows neither, the
/// sentinel stays, to be rejected when a date is rendered.
pub open spec fn resolved_config(cfg: ConfigModel, s: Seq<char>) -> ConfigModel {
    if cfg.changelog_date_format == Some(ChangelogDateFormat::Auto) {
        if doc_has_short(s) {
            ConfigModel { changelog_date_format: Some(ChangelogDateFormat::Short), ..cfg }
        } else if doc_has_long(s) {
            ConfigModel { changelog_date_format: Some(ChangelogDateFormat::Long), ..cfg }
        } else {
            cfg
        }
    } else {
        cfg
    }
}

/// When the merged date format is still `Auto`, detects the concrete notation
/// from the changelog text and stores it, as `resolved_config` states.
pub fn resolve_date_format(kraken_config: &mut KrakenConfig, contents: &str)
    ensures
        final (kraken_config)@ == resolved_config(old(kraken_config)@, contents@),
{
    let is_auto = match kraken_config.changelog_date_format {
        Some(ChangelogDateFormat::Auto) => true,
        _ => false,
    };
    if is_auto {
        match determine_changelog_date_format(contents) {
            Ok(f) => {
                kraken_config.changelog_date_format = Some(f);
            },
            Err(_) => {},
        }
    }
    proof {
        assert(kraken_config@ =~= resolved_config(old(kraken_config)@, contents@));
    }
}

/// The project section of the manifest: its name and current version.
pub struct Project {
    pub name: String,
    pub version: String,
}

/// Mathematical image of `Project`.
#[verifier::ext_equal]
pub struct ProjectModel {
    pub name: Seq<char>,
    pub version: Seq<char>,
}

impl View for Project {
    type V = ProjectModel;

    open spec fn view(&self) -> ProjectModel {
        ProjectModel { name: self.name@, version: self.version@ }
    }
}

/// What the release workflow reads from the project manifest: the project
/// itself and the optional persisted release settings.
pub struct PyProject {
    pub project: Project,
    pub kraken: Option<KrakenConfig>,
}

/// Mathematical image of `PyProject`.
#[verifier::ext_equal]
pub struct PyProjectModel {
    pub project: ProjectModel,
    pub kraken: Option<ConfigModel>,
}

impl View for PyProject {
    type V = PyProjectModel;

    open spec fn view(&self) -> PyProjectModel {
        PyProjectModel {
            project: self.project@,
            kraken: match self.kraken {
                Some(c) => Some(c@),
                None => None,
            },
        }
    }
}

/// Fills a manifest without persisted release settings with the defaults;
/// settings that are present are kept as they are.
pub fn ensure_kraken_config(pyproject: &mut PyProject)
    ensures
        final (pyproject)@.project == old(pyproject)@.project,
        old(pyproject)@.kraken is Some ==> final (pyproject)@ == old(pyproject)@,
        old(pyproject)@.kraken is None ==> final (pyproject)@.kraken == Some(default_config()),
{
    if pyproject.kraken.is_none() {
        pyproject.kraken = Some(KrakenConfig::default());
    }
    proof {
        if old(pyproject)@.kraken is Some {
            assert(pyproject@ =~= old(pyproject)@);
        }
    }
}

} // verus!
