use vstd::prelude::*;
use crate::decimal::{pow10, Decimal};
use crate::report::{block_of, decimal_member, json_object_of, members_valid, MusicLoudness};

verus! {

/// What the file system says a path names.
#[derive(Clone, Copy, Debug, PartialEq, Eq)]
pub enum PathKind {
    Missing,
    Directory,
    File,
}

/// Why an asset, or a whole directory, could not be processed.
#[derive(Clone, Debug, PartialEq, Eq)]
pub enum PipelineError {
    NotFound,
    NotAFile,
    NotADirectory,
    /// The tool ran, but its diagnostic text held no readable report.
    AnalysisUnreadable,
    /// The original could not be renamed to its staged name; it was not touched.
    StageFailed,
    /// The normalization pass failed; the original survives under its staged name.
    EncodeFailed(String),
    /// The tool could not be launched.
    ToolInvocationFailed(String),
}

/// The result of processing one asset.
#[derive(Clone, Debug, PartialEq, Eq)]
pub enum PipelineOutcome {
    Unchanged(String),
    Normalized(String),
    Failed(String, PipelineError),
}

/// The parameters of a normalization pass: it reads `input`, the staged original,
/// and writes `output`, the asset's own path, in linear mode towards `target`.
#[derive(Clone, Debug, PartialEq, Eq)]
pub struct NormalizeRequest {
    pub input: String,
    pub output: String,
    pub target: Decimal,
    pub measured_i: Decimal,
    pub measured_tp: Decimal,
    pub measured_lra: Decimal,
    pub measured_thresh: Decimal,
}

/// Where a run over one asset stands.
#[derive(Clone, Copy, Debug, PartialEq, Eq)]
pub enum Stage {
    Checking,
    Analyzing,
    Staging,
    Encoding,
    Finished,
}

/// What the outside world reports back to a run.
#[derive(Clone, Debug, PartialEq, Eq)]
pub enum Event {
    /// What the asset's path names.
    Checked(PathKind),
    /// The tool could not be launched.
    ToolFailed(String),
    /// The diagnostic text of the analysis pass, whatever its exit status.
    Analyzed(String),
    /// Whether the rename to the staged name succeeded.
    Renamed(bool),
    /// Whether the normalization pass succeeded, and its diagnostic text.
    Encoded(bool, String),
}

/// What a run asks the outside world to do next.
#[derive(Debug, PartialEq, Eq)]
pub enum Action {
    /// Run an analysis pass over the asset.
    Analyze(String),
    /// Rename the asset from the first path to the second.
    Stage(String, String),
    /// Run a normalization pass.
    Normalize(NormalizeRequest),
    /// The run is over, with this result.
    Finish(Result<PipelineOutcome, PipelineError>),
    /// The event does not fit the stage; nothing to do.
    Ignore,
}

/// The staged name of a file: `original-` before its base name.
pub open spec fn staged_name_of(basename: Seq<char>) -> Seq<char> {
    "original-"@ + basename
}

/// The path of a file named `name` in the directory `dir` (empty for the current one).
pub open spec fn joined(dir: Seq<char>, name: Seq<char>) -> Seq<char> {
    if dir.len() == 0 {
        name
    } else {
        dir + "/"@ + name
    }
}

/// `original-` before `basename`.
pub fn staged_name(basename: &str) -> (r: String)
    ensures
        r@ == staged_name_of(basename@),
{
    let mut r = String::from_str("original-");
    r.append(basename);
    proof {
        reveal_strlit("original-");
    }
    r
}

/// The path of `name` in the directory `dir`.
pub fn join(dir: &str, name: &str) -> (r: String)
    ensures
        r@ == joined(dir@, name@),
{
    if dir.unicode_len() == 0 {
        String::from_str(name)
    } else {
        let mut r = String::from_str(dir);
        r.append("/");
        r.append(name);
        r
    }
}

/// The error that a path of the wrong kind gives, where a file is wanted.
pub fn check_file(kind: PathKind) -> (r: Result<(), PipelineError>)
    ensures
        r == match kind {
            PathKind::File => Ok::<(), PipelineError>(()),
            PathKind::Missing => Err(PipelineError::NotFound),
            PathKind::Directory => Err(PipelineError::NotAFile),
        },
{
    match kind {
        PathKind::File => Ok(()),
        PathKind::Missing => Err(PipelineError::NotFound),
        PathKind::Directory => Err(PipelineError::NotAFile),
    }
}

/// The error that a path of the wrong kind gives, where a directory is wanted.
pub fn check_dir(kind: PathKind) -> (r: Result<(), PipelineError>)
    ensures
        r == match kind {
            PathKind::Directory => Ok::<(), PipelineError>(()),
            PathKind::Missing => Err(PipelineError::NotFound),
            PathKind::File => Err(PipelineError::NotADirectory),
        },
{
    match kind {
        PathKind::Directory => Ok(()),
        PathKind::Missing => Err(PipelineError::NotFound),
        PathKind::File => Err(PipelineError::NotADirectory),
    }
}

/// Whether a diagnostic text holds a readable loudness report.
pub open spec fn readable(t: Seq<char>) -> bool {
    block_of(t) matches Some(b) && json_object_of(b) matches Some(m) && members_valid(m)
}

/// Whether `rep` is the loudness report that the diagnostic text `t` holds.
pub open spec fn report_in(t: Seq<char>, rep: MusicLoudness) -> bool {
    block_of(t) matches Some(b) && json_object_of(b) matches Some(m) && rep.wf() && rep.read_from(m)
}

/// A run of the pipeline over one asset: check the path, analyze, decide, and
/// where the asset is too loud, stage the original and normalize.
#[derive(Debug)]
pub struct AssetRun {
    /// The asset's path.
    pub path: String,
    /// The directory that holds the asset (empty for the current one).
    pub dir: String,
    /// The asset's file name.
    pub basename: String,
    /// The loudness, in LKFS, from which on the asset is normalized.
    pub limit: Decimal,
    pub stage: Stage,
    /// The report of the analysis pass, once there is one.
    pub report: Option<MusicLoudness>,
}

impl AssetRun {
    pub open spec fn wf(self) -> bool {
        &&& self.limit.wf()
        &&& (self.stage == Stage::Staging || self.stage == Stage::Encoding) ==> self.report is Some
        &&& self.report matches Some(rep) ==> rep.wf()
    }

    /// The path under which the original is staged.
    pub open spec fn staged_path(self) -> Seq<char> {
        joined(self.dir@, staged_name_of(self.basename@))
    }

    /// `next` is this run, finished with `result`, which `a` reports.
    pub open spec fn finishes(
        self,
        next: Self,
        a: Action,
        result: Result<PipelineOutcome, PipelineError>,
    ) -> bool {
        next.stage == Stage::Finished && next.report == self.report && a == Action::Finish(result)
    }

    /// What one event does to a run: its next state and the action it asks for.
    pub open spec fn steps_to(self, e: Event, next: Self, a: Action) -> bool {
        &&& next.path == self.path
        &&& next.dir == self.dir
        &&& next.basename == self.basename
        &&& next.limit == self.limit
        &&& match (self.stage, e) {
            (Stage::Checking, Event::Checked(PathKind::File)) => next.stage == Stage::Analyzing
                && next.report == self.report && a == Action::Analyze(self.path),
            (Stage::Checking, Event::Checked(PathKind::Missing)) => self.finishes(
                next,
                a,
                Err(PipelineError::NotFound),
            ),
            (Stage::Checking, Event::Checked(PathKind::Directory)) => self.finishes(
                next,
                a,
                Err(PipelineError::NotAFile),
            ),
            (Stage::Analyzing, Event::ToolFailed(m)) => self.finishes(
                next,
                a,
                Err(PipelineError::ToolInvocationFailed(m)),
            ),
            (Stage::Analyzing, Event::Analyzed(t)) => if !readable(t@) {
                self.finishes(next, a, Err(PipelineError::AnalysisUnreadable))
            } else {
                next.report matches Some(rep) && report_in(t@, rep) && if rep.input_i.at_least(
                    self.limit,
                ) {
                    next.stage == Stage::Staging && (a matches Action::Stage(from, to) && from
                        == self.path && to@ == self.staged_path())
                } else {
                    next.stage == Stage::Finished && a == Action::Finish(
                        Ok(PipelineOutcome::Unchanged(self.path)),
                    )
                }
            },
            (Stage::Staging, Event::Renamed(true)) => {
                &&& next.stage == Stage::Encoding
                &&& next.report == self.report
                &&& a matches Action::Normalize(req) && self.report matches Some(rep) && {
                    &&& req.input@ == self.staged_path()
                    &&& req.output == self.path
                    &&& req.target == self.limit
                    &&& req.measured_i == rep.input_i
                    &&& req.measured_tp == rep.input_tp
                    &&& req.measured_lra == rep.input_lra
                    &&& req.measured_thresh == rep.input_thresh
                }
            },
            (Stage::Staging, Event::Renamed(false)) => self.finishes(
                next,
                a,
                Err(PipelineError::StageFailed),
            ),
            (Stage::Encoding, Event::Encoded(true, _)) => self.finishes(
                next,
                a,
                Ok(PipelineOutcome::Normalized(self.path)),
            ),
            (Stage::Encoding, Event::Encoded(false, d)) => self.finishes(
                next,
                a,
                Err(PipelineError::EncodeFailed(d)),
            ),
            (Stage::Encoding, Event::ToolFailed(m)) => self.finishes(
                next,
                a,
                Err(PipelineError::ToolInvocationFailed(m)),
            ),
            _ => next.stage == self.stage && next.report == self.report && a == Action::Ignore,
        }
    }

    /// A run that has yet to check its path.
    pub fn new(path: String, dir: String, basename: String, limit: Decimal) -> (r: AssetRun)
        requires
            limit.wf(),
        ensures
            r.wf(),
            r.path == path && r.dir == dir && r.basename == basename && r.limit == limit,
            r.stage == Stage::Checking && r.report is None,
    {
        AssetRun { path, dir, basename, limit, stage: Stage::Checking, report: None }
    }

    fn finish(&mut self, result: Result<PipelineOutcome, PipelineError>) -> (a: Action)
        ensures
            final(self).path == old(self).path && final(self).dir == old(self).dir,
            final(self).basename == old(self).basename && final(self).limit == old(self).limit,
            old(self).finishes(*final(self), a, result),
    {
        self.stage = Stage::Finished;
        Action::Finish(result)
    }

    /// Takes one event and says what to do next.
    pub fn advance(&mut self, e: Event) -> (a: Action)
        requires
            old(self).wf(),
        ensures
            final(self).wf(),
            old(self).steps_to(e, *final(self), a),
    {
        match (self.stage, e) {
            (Stage::Checking, Event::Checked(kind)) => match check_file(kind) {
                Ok(()) => {
                    self.stage = Stage::Analyzing;
                    Action::Analyze(self.path.clone())
                },
                Err(e) => self.finish(Err(e)),
            },
            (Stage::Analyzing, Event::ToolFailed(m)) => self.finish(
                Err(PipelineError::ToolInvocationFailed(m)),
            ),
            (Stage::Analyzing, Event::Analyzed(t)) => {
                match MusicLoudness::parse(t.as_str()) {
                    Err(_) => self.finish(Err(PipelineError::AnalysisUnreadable)),
                    Ok(rep) => {
                        let loud = rep.input_i.is_at_least(&self.limit);
                        self.report = Some(rep);
                        if loud {
                            self.stage = Stage::Staging;
                            let to = join(self.dir.as_str(), staged_name(self.basename.as_str()).as_str());
                            Action::Stage(self.path.clone(), to)
                        } else {
                            self.stage = Stage::Finished;
                            Action::Finish(Ok(PipelineOutcome::Unchanged(self.path.clone())))
                        }
                    },
                }
            },
            (Stage::Staging, Event::Renamed(true)) => {
                self.stage = Stage::Encoding;
                match &self.report {
                    Some(rep) => {
                        let to = join(self.dir.as_str(), staged_name(self.basename.as_str()).as_str());
                        Action::Normalize(
                            NormalizeRequest {
                                input: to,
                                output: self.path.clone(),
                                target: self.limit,
                                measured_i: rep.input_i,
                                measured_tp: rep.input_tp,
                                measured_lra: rep.input_lra,
                                measured_thresh: rep.input_thresh,
                            },
                        )
                    },
                    None => Action::Ignore,
                }
            },
            (Stage::Staging, Event::Renamed(false)) => self.finish(Err(PipelineError::StageFailed)),
            (Stage::Encoding, Event::Encoded(true, _)) => self.finish(
                Ok(PipelineOutcome::Normalized(self.path.clone())),
            ),
            (Stage::Encoding, Event::Encoded(false, d)) => self.finish(
                Err(PipelineError::EncodeFailed(d)),
            ),
            (Stage::Encoding, Event::ToolFailed(m)) => self.finish(
                Err(PipelineError::ToolInvocationFailed(m)),
            ),
            _ => Action::Ignore,
        }
    }
}

/// The integrated loudness that a diagnostic text reports, as (units, scale).
pub open spec fn measured_loudness(t: Seq<char>) -> Option<(int, nat)> {
    if readable(t) {
        match block_of(t) {
            Some(b) => match json_object_of(b) {
                Some(m) => decimal_member(m, "input_i"@),
                None => None,
            },
            None => None,
        }
    } else {
        None
    }
}

/// Whether the loudness `v`, as (units, scale), is below `limit`.
pub open spec fn below(v: (int, nat), limit: Decimal) -> bool {
    v.0 * pow10(limit.scale as nat) < limit.units * pow10(v.1)
}

/// Whether an action changes a file on disk.
pub open spec fn touches_files(a: Action) -> bool {
    a is Stage || a is Normalize
}

/// An asset whose analysis reports a loudness below the limit is left alone: the
/// run asks for the analysis, then finishes `Unchanged`, and touches no file.
pub proof fn lemma_quiet_asset_unchanged(
    r0: AssetRun,
    t: String,
    r1: AssetRun,
    a1: Action,
    r2: AssetRun,
    a2: Action,
)
    requires
        r0.wf(),
        r0.stage == Stage::Checking,
        measured_loudness(t@) matches Some(v) && below(v, r0.limit),
        r0.steps_to(Event::Checked(PathKind::File), r1, a1),
        r1.steps_to(Event::Analyzed(t), r2, a2),
    ensures
        a1 == Action::Analyze(r0.path),
        a2 == Action::Finish(Ok(PipelineOutcome::Unchanged(r0.path))),
        r2.stage == Stage::Finished,
        !touches_files(a1) && !touches_files(a2),
{
}

/// An asset whose analysis reports a loudness at or above the limit is staged,
/// normalized from its staged original into its own path, and reported
/// `Normalized` when both steps succeed.
pub proof fn lemma_loud_asset_normalized(
    r0: AssetRun,
    t: String,
    r1: AssetRun,
    a1: Action,
    r2: AssetRun,
    a2: Action,
    d: String,
    r3: AssetRun,
    a3: Action,
)
    requires
        r0.wf(),
        r0.stage == Stage::Analyzing,
        measured_loudness(t@) matches Some(v) && !below(v, r0.limit),
        r0.steps_to(Event::Analyzed(t), r1, a1),
        r1.steps_to(Event::Renamed(true), r2, a2),
        r2.steps_to(Event::Encoded(true, d), r3, a3),
    ensures
        a1 matches Action::Stage(from, to) && from == r0.path && to@ == r0.staged_path(),
        a2 matches Action::Normalize(req) && req.input@ == r0.staged_path() && req.output
            == r0.path && req.target == r0.limit,
        a3 == Action::Finish(Ok(PipelineOutcome::Normalized(r0.path))),
{
}

/// A run reports `Normalized` only from the encoding stage, after a successful
/// normalization pass; and it enters that stage only once the original was
/// renamed to its staged name.
pub proof fn lemma_normalized_after_staging(r: AssetRun, e: Event, next: AssetRun, a: Action)
    requires
        r.steps_to(e, next, a),
    ensures
        a matches Action::Finish(Ok(PipelineOutcome::Normalized(_))) ==> r.stage
            == Stage::Encoding && e matches Event::Encoded(true, _),
        next.stage == Stage::Encoding && r.stage != Stage::Encoding ==> r.stage == Stage::Staging
            && e == Event::Renamed(true),
{
}

/// A failed normalization pass ends the run with `EncodeFailed` and asks for
/// nothing more: the staged original is left where it is.
pub proof fn lemma_encode_failure_keeps_original(
    r: AssetRun,
    d: String,
    next: AssetRun,
    a: Action,
)
    requires
        r.stage == Stage::Encoding,
        r.steps_to(Event::Encoded(false, d), next, a),
    ensures
        a == Action::Finish(Err(PipelineError::EncodeFailed(d))),
        !touches_files(a),
        next.stage == Stage::Finished,
{
}

/// Two runs over the same quiet asset, one after the other, behave alike: each
/// finishes `Unchanged` and neither touches a file, so the second sees what
/// the first saw.
pub proof fn lemma_quiet_runs_repeat(
    t: String,
    r0: AssetRun,
    r1: AssetRun,
    a1: Action,
    r2: AssetRun,
    a2: Action,
    s0: AssetRun,
    s1: AssetRun,
    b1: Action,
    s2: AssetRun,
    b2: Action,
)
    requires
        r0.wf(),
        r0.stage == Stage::Checking,
        s0 == r0,
        measured_loudness(t@) matches Some(v) && below(v, r0.limit),
        r0.steps_to(Event::Checked(PathKind::File), r1, a1),
        r1.steps_to(Event::Analyzed(t), r2, a2),
        s0.steps_to(Event::Checked(PathKind::File), s1, b1),
        s1.steps_to(Event::Analyzed(t), s2, b2),
    ensures
        a2 == Action::Finish(Ok(PipelineOutcome::Unchanged(r0.path))),
        b2 == a2,
        !touches_files(a1) && !touches_files(a2) && !touches_files(b1) && !touches_files(b2),
{
    lemma_quiet_asset_unchanged(r0, t, r1, a1, r2, a2);
    lemma_quiet_asset_unchanged(s0, t, s1, b1, s2, b2);
}

} // verus!
