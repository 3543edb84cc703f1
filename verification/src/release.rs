use vstd::prelude::*;

use crate::text::{int_seq, int_string, space_token, token_of, trim_of, trim_spec};

verus! {

// ---------------------------------------------------------------------------
// Command outcomes
// ---------------------------------------------------------------------------

/// How running an external command ended: it exited cleanly, it exited with
/// a failure code, or it could not be started at all.
pub enum ExitOutcome {
    Success,
    Code(i32),
    SpawnFailed(String),
}

/// Maps a command's exit state to the workflow's result: success passes,
/// a failure code or a spawn failure becomes an error message built from the
/// step's own failure message.
pub fn interpret_command_outcome(error_message: &str, outcome: &ExitOutcome) -> (r: Result<
    (),
    String,
>)
    ensures
        r is Ok <==> *outcome is Success,
        forall|c: i32|
            *outcome == ExitOutcome::Code(c) ==> r is Err && r->Err_0@ == error_message@
                + ": command returned code "@ + int_seq(c as int),
        forall|e: String|
            *outcome == ExitOutcome::SpawnFailed(e) ==> r is Err && r->Err_0@ == error_message@
                + ": "@ + e@,
{
    match outcome {
        ExitOutcome::Success => Ok(()),
        ExitOutcome::Code(c) => {
            let mut m = error_message.to_owned();
            m.append(": command returned code ");
            m.append(int_string(*c as i64).as_str());
            Err(m)
        },
        ExitOutcome::SpawnFailed(e) => {
            let mut m = error_message.to_owned();
            m.append(": ");
            m.append(e.as_str());
            Err(m)
        },
    }
}

// ---------------------------------------------------------------------------
// Transaction steps
// ---------------------------------------------------------------------------

/// One external command of the release sequence: the program, its arguments,
/// and the message to report when it fails.
pub struct TransactionStep {
    pub program: String,
    pub args: Vec<String>,
    pub failure_message: String,
}

/// Mathematical image of `TransactionStep`.
#[verifier::ext_equal]
pub struct StepModel {
    pub program: Seq<char>,
    pub args: Seq<Seq<char>>,
    pub failure_message: Seq<char>,
}

impl View for TransactionStep {
    type V = StepModel;

    open spec fn view(&self) -> StepModel {
        StepModel {
            program: self.program@,
            args: self.args.deep_view(),
            failure_message: self.failure_message@,
        }
    }
}

pub open spec fn git_add_step_model(file: Seq<char>) -> StepModel {
    StepModel {
        program: "git"@,
        args: seq!["add"@, file],
        failure_message: "Failed to add file to git"@,
    }
}

pub open spec fn commit_step_model(msg: Seq<char>) -> StepModel {
    StepModel {
        program: "git"@,
        args: seq!["commit"@, "-m"@, msg],
        failure_message: "Failed to commit changes to git"@,
    }
}

pub open spec fn push_step_model() -> StepModel {
    StepModel {
        program: "git"@,
        args: seq!["push"@],
        failure_message: "Failed to push changes to git"@,
    }
}

pub open spec fn query_version_step_model() -> StepModel {
    StepModel {
        program: "uv"@,
        args: seq!["version"@, "--short"@],
        failure_message: "Failed to get package version"@,
    }
}

pub open spec fn tag_step_model(v: Seq<char>) -> StepModel {
    StepModel {
        program: "git"@,
        args: seq!["tag"@, "-a"@, v, "-m"@, "Release "@ + v],
        failure_message: "Failed to create git tag"@,
    }
}

pub open spec fn push_tags_step_model() -> StepModel {
    StepModel {
        program: "git"@,
        args: seq!["push"@, "--tags"@],
        failure_message: "Failed to push --tags to git"@,
    }
}

pub open spec fn update_version_step_model(v: Seq<char>) -> StepModel {
    StepModel {
        program: "uv"@,
        args: seq!["version"@, v],
        failure_message: "Failed to update uv version"@,
    }
}

pub open spec fn bump_step_model() -> StepModel {
    StepModel {
        program: "uv"@,
        args: seq!["version"@, "--bump"@, "patch"@, "--bump"@, "alpha"@],
        failure_message: "Failed to bump version to pre-release"@,
    }
}

fn two_arg_vec(a0: &str, a1: &str) -> (v: Vec<String>)
    ensures
        v.deep_view() =~= seq![a0@, a1@],
{
    let mut v: Vec<String> = Vec::new();
    v.push(a0.to_owned());
    v.push(a1.to_owned());
    v
}

fn git_add_step(file: &str) -> (s: TransactionStep)
    ensures
        s@ == git_add_step_model(file@),
{
    let s = TransactionStep {
        program: "git".to_owned(),
        args: two_arg_vec("add", file),
        failure_message: "Failed to add file to git".to_owned(),
    };
    proof {
        assert(s@ =~= git_add_step_model(file@));
    }
    s
}

fn commit_step(msg: &str) -> (s: TransactionStep)
    ensures
        s@ == commit_step_model(msg@),
{
    let mut args: Vec<String> = Vec::new();
    args.push("commit".to_owned());
    args.push("-m".to_owned());
    args.push(msg.to_owned());
    let s = TransactionStep {
        program: "git".to_owned(),
        args,
        failure_message: "Failed to commit changes to git".to_owned(),
    };
    proof {
        assert(s.args.deep_view() =~= seq!["commit"@, "-m"@, msg@]);
        assert(s@ =~= commit_step_model(msg@));
    }
    s
}

fn push_step() -> (s: TransactionStep)
    ensures
        s@ == push_step_model(),
{
    let mut args: Vec<String> = Vec::new();
    args.push("push".to_owned());
    let s = TransactionStep {
        program: "git".to_owned(),
        args,
        failure_message: "Failed to push changes to git".to_owned(),
    };
    proof {
        assert(s.args.deep_view() =~= seq!["push"@]);
        assert(s@ =~= push_step_model());
    }
    s
}

fn query_version_step() -> (s: TransactionStep)
    ensures
        s@ == query_version_step_model(),
{
    let s = TransactionStep {
        program: "uv".to_owned(),
        args: two_arg_vec("version", "--short"),
        failure_message: "Failed to get package version".to_owned(),
    };
    proof {
        assert(s@ =~= query_version_step_model());
    }
    s
}

fn tag_step(v: &str) -> (s: TransactionStep)
    ensures
        s@ == tag_step_model(v@),
{
    let mut annotation = String::from_str("Release ");
    annotation.append(v);
    let mut args: Vec<String> = Vec::new();
    args.push("tag".to_owned());
    args.push("-a".to_owned());
    args.push(v.to_owned());
    args.push("-m".to_owned());
    args.push(annotation);
    let s = TransactionStep {
        program: "git".to_owned(),
        args,
        failure_message: "Failed to create git tag".to_owned(),
    };
    proof {
        assert(s.args.deep_view() =~= seq!["tag"@, "-a"@, v@, "-m"@, "Release "@ + v@]);
        assert(s@ =~= tag_step_model(v@));
    }
    s
}

fn push_tags_step() -> (s: TransactionStep)
    ensures
        s@ == push_tags_step_model(),
{
    let s = TransactionStep {
        program: "git".to_owned(),
        args: two_arg_vec("push", "--tags"),
        failure_message: "Failed to push --tags to git".to_owned(),
    };
    proof {
        assert(s@ =~= push_tags_step_model());
    }
    s
}

/// The step that sets the project's persisted version to `release_version`.
pub fn update_version(release_version: &str) -> (s: TransactionStep)
    ensures
        s@ == update_version_step_model(release_version@),
{
    let s = TransactionStep {
        program: "uv".to_owned(),
        args: two_arg_vec("version", release_version),
        failure_message: "Failed to update uv version".to_owned(),
    };
    proof {
        assert(s@ =~= update_version_step_model(release_version@));
    }
    s
}

/// The step that advances the project past the release: a patch bump plus an
/// alpha pre-release bump.
pub fn bump_to_prerelease() -> (s: TransactionStep)
    ensures
        s@ == bump_step_model(),
{
    let mut args: Vec<String> = Vec::new();
    args.push("version".to_owned());
    args.push("--bump".to_owned());
    args.push("patch".to_owned());
    args.push("--bump".to_owned());
    args.push("alpha".to_owned());
    let s = TransactionStep {
        program: "uv".to_owned(),
        args,
        failure_message: "Failed to bump version to pre-release".to_owned(),
    };
    proof {
        assert(s.args.deep_view() =~= seq![
            "version"@,
            "--bump"@,
            "patch"@,
            "--bump"@,
            "alpha"@,
        ]);
        assert(s@ =~= bump_step_model());
    }
    s
}

/// The commit message of the release commit.
pub fn release_commit_message(version: &str) -> (r: String)
    ensures
        r@ == "Release "@ + version@,
{
    let mut m = String::from_str("Release ");
    m.append(version);
    m
}

/// The commit message of the follow-up commit that records the pre-release
/// bump.
pub fn bump_commit_message(version: &str) -> (r: String)
    ensures
        r@ == "Bump version to "@ + version@,
{
    let mut m = String::from_str("Bump version to ");
    m.append(version);
    m
}

// ---------------------------------------------------------------------------
// The release transaction state machine
// ---------------------------------------------------------------------------

/// Where the release transaction stands: which step runs next, or that it has
/// finished or aborted.
#[derive(Clone, Copy, Debug, PartialEq, Eq, Structural)]
pub enum TransactionPhase {
    StageManifest,
    StageChangelog,
    StageLockfile,
    Commit,
    Push,
    QueryVersion,
    Tag,
    PushTags,
    Done,
    Failed,
}

/// What the transaction asks its caller to do next: run a step and report how
/// it exited, run a step and hand back what it printed, or stop.
pub enum TransactionAction {
    /// Run this command; only its exit state matters.
    Execute(TransactionStep),
    /// Run this command and hand back its standard output.
    Query(TransactionStep),
    /// Every step has succeeded.
    Finished,
    /// A step failed with this message; nothing more may run.
    Aborted(String),
}

/// Mathematical image of `TransactionAction`.
#[verifier::ext_equal]
pub enum ActionModel {
    Execute(StepModel),
    Query(StepModel),
    Finished,
    Aborted(Seq<char>),
}

impl View for TransactionAction {
    type V = ActionModel;

    open spec fn view(&self) -> ActionModel {
        match self {
            TransactionAction::Execute(s) => ActionModel::Execute(s@),
            TransactionAction::Query(s) => ActionModel::Query(s@),
            TransactionAction::Finished => ActionModel::Finished,
            TransactionAction::Aborted(m) => ActionModel::Aborted(m@),
        }
    }
}

/// What the caller reports back: how an executed step ended, or what a query
/// step returned.
pub enum TransactionEvent {
    /// The executed step succeeded, or failed with this message.
    StepDone(Result<(), String>),
    /// The query printed this output, or failed with this message.
    VersionDone(Result<String, String>),
}

/// Mathematical image of `TransactionEvent`.
#[verifier::ext_equal]
pub enum EventModel {
    StepDone(Result<(), Seq<char>>),
    VersionDone(Result<Seq<char>, Seq<char>>),
}

impl View for TransactionEvent {
    type V = EventModel;

    open spec fn view(&self) -> EventModel {
        match self {
            TransactionEvent::StepDone(r) => EventModel::StepDone(
                match r {
                    Ok(u) => Ok(*u),
                    Err(m) => Err(m@),
                },
            ),
            TransactionEvent::VersionDone(r) => EventModel::VersionDone(
                match r {
                    Ok(o) => Ok(o@),
                    Err(m) => Err(m@),
                },
            ),
        }
    }
}

/// The release transaction: a fixed sequence of external commands, run one at
/// a time, abandoned for good at the first failure.
pub struct ReleaseTransaction {
    pub commit_message: String,
    pub tag: bool,
    pub phase: TransactionPhase,
    pub queried_version: Option<String>,
    pub failure: Option<String>,
}

/// Mathematical image of `ReleaseTransaction`.
#[verifier::ext_equal]
pub struct MachineModel {
    pub commit_message: Seq<char>,
    pub tag: bool,
    pub phase: TransactionPhase,
    pub queried_version: Option<Seq<char>>,
    pub failure: Option<Seq<char>>,
}

impl View for ReleaseTransaction {
    type V = MachineModel;

    open spec fn view(&self) -> MachineModel {
        MachineModel {
            commit_message: self.commit_message@,
            tag: self.tag,
            phase: self.phase,
            queried_version: match self.queried_version {
                Some(v) => Some(v@),
                None => None,
            },
            failure: match self.failure {
                Some(m) => Some(m@),
                None => None,
            },
        }
    }
}

/// The transaction neither runs nor will run anything more.
pub open spec fn is_terminal(p: TransactionPhase) -> bool {
    p == TransactionPhase::Done || p == TransactionPhase::Failed
}

/// The tagging phases know the queried version; the failed phase knows why.
pub open spec fn machine_wf(m: MachineModel) -> bool {
    &&& ((m.phase == TransactionPhase::Tag || m.phase == TransactionPhase::PushTags)
        ==> m.queried_version is Some)
    &&& (m.phase == TransactionPhase::Failed ==> m.failure is Some)
}

/// The freshly started transaction, about to stage the first file.
pub open spec fn initial_machine(msg: Seq<char>, tag: bool) -> MachineModel {
    MachineModel {
        commit_message: msg,
        tag,
        phase: TransactionPhase::StageManifest,
        queried_version: None,
        failure: None,
    }
}

/// The phase that follows a successful step: stage the three files, commit,
/// push, then — only when tagging was asked for — query the version, tag, and
/// push the tags.
pub open spec fn advance_phase(p: TransactionPhase, tag: bool) -> TransactionPhase {
    match p {
        TransactionPhase::StageManifest => TransactionPhase::StageChangelog,
        TransactionPhase::StageChangelog => TransactionPhase::StageLockfile,
        TransactionPhase::StageLockfile => TransactionPhase::Commit,
        TransactionPhase::Commit => TransactionPhase::Push,
        TransactionPhase::Push => if tag {
            TransactionPhase::QueryVersion
        } else {
            TransactionPhase::Done
        },
        TransactionPhase::QueryVersion => TransactionPhase::Tag,
        TransactionPhase::Tag => TransactionPhase::PushTags,
        TransactionPhase::PushTags => TransactionPhase::Done,
        TransactionPhase::Done => TransactionPhase::Done,
        TransactionPhase::Failed => TransactionPhase::Failed,
    }
}

/// What the transaction asks for in each phase.
pub open spec fn action_model(m: MachineModel) -> ActionModel {
    match m.phase {
        TransactionPhase::StageManifest => ActionModel::Execute(git_add_step_model("pyproject.toml"@)),
        TransactionPhase::StageChangelog => ActionModel::Execute(git_add_step_model("CHANGELOG.md"@)),
        TransactionPhase::StageLockfile => ActionModel::Execute(git_add_step_model("uv.lock"@)),
        TransactionPhase::Commit => ActionModel::Execute(commit_step_model(m.commit_message)),
        TransactionPhase::Push => ActionModel::Execute(push_step_model()),
        TransactionPhase::QueryVersion => ActionModel::Query(query_version_step_model()),
        TransactionPhase::Tag => ActionModel::Execute(tag_step_model(m.queried_version->0)),
        TransactionPhase::PushTags => ActionModel::Execute(push_tags_step_model()),
        TransactionPhase::Done => ActionModel::Finished,
        TransactionPhase::Failed => ActionModel::Aborted(m.failure->0),
    }
}

/// The transition on one reported event. A terminal transaction absorbs every
/// event; an event of the wrong kind changes nothing; a failure is recorded
/// and ends the transaction; a success advances it one phase, the version
/// query storing its trimmed output for the tag step.
pub open spec fn step_model(m: MachineModel, e: EventModel) -> MachineModel {
    if is_terminal(m.phase) {
        m
    } else if m.phase == TransactionPhase::QueryVersion {
        match e {
            EventModel::VersionDone(res) => match res {
                Ok(out) => MachineModel {
                    phase: TransactionPhase::Tag,
                    queried_version: Some(trim_spec(out)),
                    ..m
                },
                Err(msg) => MachineModel {
                    phase: TransactionPhase::Failed,
                    failure: Some(msg),
                    ..m
                },
            },
            EventModel::StepDone(_) => m,
        }
    } else {
        match e {
            EventModel::StepDone(res) => match res {
                Ok(_) => MachineModel { phase: advance_phase(m.phase, m.tag), ..m },
                Err(msg) => MachineModel {
                    phase: TransactionPhase::Failed,
                    failure: Some(msg),
                    ..m
                },
            },
            EventModel::VersionDone(_) => m,
        }
    }
}

/// Starts the release transaction: stage the manifest, changelog and lockfile,
/// commit with `commit_message`, push, and — when `tag` is set — tag the
/// release under the queried package version and push the tags.
pub fn git_add_commit_tag_push(commit_message: String, tag: bool) -> (t: ReleaseTransaction)
    ensures
        t@ == initial_machine(commit_message@, tag),
        machine_wf(t@),
{
    let t = ReleaseTransaction {
        commit_message,
        tag,
        phase: TransactionPhase::StageManifest,
        queried_version: None,
        failure: None,
    };
    proof {
        assert(t@ =~= initial_machine(t.commit_message@, tag));
    }
    t
}

impl ReleaseTransaction {
    /// What to do next, as `action_model` states.
    pub fn next_action(&self) -> (a: TransactionAction)
        requires
            machine_wf(self@),
        ensures
            a@ == action_model(self@),
    {
        match self.phase {
            TransactionPhase::StageManifest => TransactionAction::Execute(
                git_add_step("pyproject.toml"),
            ),
            TransactionPhase::StageChangelog => TransactionAction::Execute(
                git_add_step("CHANGELOG.md"),
            ),
            TransactionPhase::StageLockfile => TransactionAction::Execute(git_add_step("uv.lock")),
            TransactionPhase::Commit => TransactionAction::Execute(
                commit_step(self.commit_message.as_str()),
            ),
            TransactionPhase::Push => TransactionAction::Execute(push_step()),
            TransactionPhase::QueryVersion => TransactionAction::Query(query_version_step()),
            TransactionPhase::Tag => {
                let v = self.queried_version.as_ref().unwrap();
                TransactionAction::Execute(tag_step(v.as_str()))
            },
            TransactionPhase::PushTags => TransactionAction::Execute(push_tags_step()),
            TransactionPhase::Done => TransactionAction::Finished,
            TransactionPhase::Failed => {
                let m = self.failure.as_ref().unwrap();
                TransactionAction::Aborted(m.clone())
            },
        }
    }

    /// Applies one reported event, as `step_model` states.
    pub fn apply_event(&mut self, event: TransactionEvent)
        ensures
            final (self)@ == step_model(old(self)@, event@),
            machine_wf(old(self)@) ==> machine_wf(final (self)@),
    {
        if self.phase == TransactionPhase::Done || self.phase == TransactionPhase::Failed {
            return ;
        }
        if self.phase == TransactionPhase::QueryVersion {
            match event {
                TransactionEvent::VersionDone(Ok(out)) => {
                    self.queried_version = Some(trim_of(out.as_str()).to_owned());
                    self.phase = TransactionPhase::Tag;
                },
                TransactionEvent::VersionDone(Err(msg)) => {
                    self.failure = Some(msg);
                    self.phase = TransactionPhase::Failed;
                },
                TransactionEvent::StepDone(_) => {},
            }
        } else {
            match event {
                TransactionEvent::StepDone(Ok(_)) => {
                    self.phase = advance_phase_exec(self.phase, self.tag);
                },
                TransactionEvent::StepDone(Err(msg)) => {
                    self.failure = Some(msg);
                    self.phase = TransactionPhase::Failed;
                },
                TransactionEvent::VersionDone(_) => {},
            }
        }
        proof {
            assert(self@ =~= step_model(old(self)@, event@));
        }
    }

    /// The transaction has finished or aborted.
    pub fn is_terminal(&self) -> (b: bool)
        ensures
            b == is_terminal(self@.phase),
    {
        self.phase == TransactionPhase::Done || self.phase == TransactionPhase::Failed
    }
}

fn advance_phase_exec(p: TransactionPhase, tag: bool) -> (q: TransactionPhase)
    ensures
        q == advance_phase(p, tag),
{
    match p {
        TransactionPhase::StageManifest => TransactionPhase::StageChangelog,
        TransactionPhase::StageChangelog => TransactionPhase::StageLockfile,
        TransactionPhase::StageLockfile => TransactionPhase::Commit,
        TransactionPhase::Commit => TransactionPhase::Push,
        TransactionPhase::Push => if tag {
            TransactionPhase::QueryVersion
        } else {
            TransactionPhase::Done
        },
        TransactionPhase::QueryVersion => TransactionPhase::Tag,
        TransactionPhase::Tag => TransactionPhase::PushTags,
        TransactionPhase::PushTags => TransactionPhase::Done,
        TransactionPhase::Done => TransactionPhase::Done,
        TransactionPhase::Failed => TransactionPhase::Failed,
    }
}

// ---------------------------------------------------------------------------
// Laws of the transaction
// ---------------------------------------------------------------------------

/// The transaction after a whole sequence of reported events.
pub open spec fn run_events(m: MachineModel, es: Seq<EventModel>) -> MachineModel
    decreases es.len(),
{
    if es.len() == 0 {
        m
    } else {
        run_events(step_model(m, es[0]), es.subrange(1, es.len() as int))
    }
}

/// A finished or aborted transaction never moves again, whatever is reported.
pub proof fn lemma_terminal_absorbing(m: MachineModel, es: Seq<EventModel>)
    requires
        is_terminal(m.phase),
    ensures
        run_events(m, es) == m,
    decreases es.len(),
{
    if es.len() > 0 {
        lemma_terminal_absorbing(m, es.subrange(1, es.len() as int));
    }
}

/// A failure reported for any running non-query phase aborts the transaction
/// with that message.
pub proof fn lemma_failure_aborts(m: MachineModel, msg: Seq<char>)
    requires
        !is_terminal(m.phase),
        m.phase != TransactionPhase::QueryVersion,
    ensures
        step_model(m, EventModel::StepDone(Err(msg))).phase == TransactionPhase::Failed,
        action_model(step_model(m, EventModel::StepDone(Err(msg)))) == ActionModel::Aborted(msg),
{
}

/// When the staging of the changelog — the second file — fails, the commit,
/// push and tag steps never run: the transaction aborts at once and ignores
/// everything reported afterwards.
pub proof fn lemma_transaction_short_circuit(
    msg: Seq<char>,
    tag: bool,
    err: Seq<char>,
    later: Seq<EventModel>,
)
    ensures
        ({
            let t0 = initial_machine(msg, tag);
            let t1 = step_model(t0, EventModel::StepDone(Ok(())));
            let t2 = step_model(t1, EventModel::StepDone(Err(err)));
            &&& action_model(t0) == ActionModel::Execute(git_add_step_model("pyproject.toml"@))
            &&& action_model(t1) == ActionModel::Execute(git_add_step_model("CHANGELOG.md"@))
            &&& t2.phase == TransactionPhase::Failed
            &&& action_model(t2) == ActionModel::Aborted(err)
            &&& run_events(t2, later) == t2
        }),
{
    let t0 = initial_machine(msg, tag);
    let t1 = step_model(t0, EventModel::StepDone(Ok(())));
    let t2 = step_model(t1, EventModel::StepDone(Err(err)));
    lemma_terminal_absorbing(t2, later);
}

// ---------------------------------------------------------------------------
// The uv version floor
// ---------------------------------------------------------------------------

/// The version string `s` parses as a version.
pub uninterp spec fn version_parseable(s: Seq<char>) -> bool;

/// Version `a` orders strictly before version `b`.
pub uninterp spec fn version_precedes(a: Seq<char>, b: Seq<char>) -> bool;

/// The oldest uv release this workflow works with.
pub open spec fn min_uv_version() -> Seq<char> {
    "0.7.20"@
}

/// Relies on version_compare's `Version::from` and the `<` of its
/// `PartialOrd`: both read nothing but the two version strings, so whether
/// the strings parse and how they order are functions of the strings alone.
#[verifier::external_body]
fn version_lt(a: &str, b: &str) -> (r: Option<bool>)
    ensures
        r is Some <==> (version_parseable(a@) && version_parseable(b@)),
        r is Some ==> r == Some(version_precedes(a@, b@)),
{
    match (version_compare::Version::from(a), version_compare::Version::from(b)) {
        (Some(va), Some(vb)) => Some(va < vb),
        _ => None,
    }
}

/// Checks the uv tool's self-reported version against the floor this workflow
/// needs. `version_output` is what the version query printed; its first
/// space-separated token, after trimming, is the version. An output whose
/// token does not parse is rejected, and so is a version below the floor.
pub fn check_uv_version(version_output: &str) -> (r: Result<String, String>)
    ensures
        ({
            let tok = space_token(trim_spec(version_output@));
            &&& (r is Ok <==> (version_parseable(tok) && version_parseable(min_uv_version())
                && !version_precedes(tok, min_uv_version())))
            &&& (r is Ok ==> r->Ok_0@ == tok)
            &&& (!(version_parseable(tok) && version_parseable(min_uv_version())) ==> r is Err
                && r->Err_0@ == "Failed parsing uv version"@)
            &&& ((version_parseable(tok) && version_parseable(min_uv_version())
                && version_precedes(tok, min_uv_version())) ==> r is Err && r->Err_0@
                == "uv version "@ + tok + " is less than the minimum required version "@
                + min_uv_version())
        }),
{
    let trimmed = trim_of(version_output);
    let tok = token_of(trimmed);
    match version_lt(tok, "0.7.20") {
        None => Err("Failed parsing uv version".to_owned()),
        Some(true) => {
            let mut msg = String::from_str("uv version ");
            msg.append(tok);
            msg.append(" is less than the minimum required version ");
            msg.append("0.7.20");
            Err(msg)
        },
        Some(false) => Ok(tok.to_owned()),
    }
}

} // verus!
