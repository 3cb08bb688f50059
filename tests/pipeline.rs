use loudness_limiter::batch::{is_asset, outcome_of, BatchSummary};
use loudness_limiter::decimal::Decimal;
use loudness_limiter::pipeline::{
    check_dir, check_file, join, staged_name, Action, AssetRun, Event, PathKind, PipelineError,
    PipelineOutcome, Stage,
};

fn report(input_i: &str) -> String {
    format!(
        "[Parsed_loudnorm_0 @ 0x1] \n{{\n\"input_i\" : \"{}\",\n\"input_tp\" : \"-1.20\",\n\
         \"input_lra\" : \"6.40\",\n\"input_thresh\" : \"-20.10\",\n\"output_i\" : \"-14.00\",\n\
         \"output_tp\" : \"-1.50\",\n\"output_lra\" : \"5.00\",\n\"output_thresh\" : \"-24.00\",\n\
         \"normalization_type\" : \"linear\",\n\"target_offset\" : \"0.10\"\n}}\n",
        input_i
    )
}

fn limit() -> Decimal {
    Decimal::parse("-14").unwrap()
}

/// A stub tool: answers each action of a run with the given diagnostics and
/// exit statuses, and records every action asked for.
fn drive(
    path: &str,
    kind: PathKind,
    diagnostics: &str,
    rename_ok: bool,
    encode_ok: bool,
) -> (Result<PipelineOutcome, PipelineError>, Vec<Action>) {
    let mut run = AssetRun::new(path.to_string(), "music".to_string(), "song.mp3".to_string(), limit());
    let mut actions = Vec::new();
    let mut a = run.advance(Event::Checked(kind));
    loop {
        let event = match &a {
            Action::Analyze(_) => Event::Analyzed(diagnostics.to_string()),
            Action::Stage(_, _) => Event::Renamed(rename_ok),
            Action::Normalize(_) => Event::Encoded(encode_ok, "encoder error".to_string()),
            Action::Finish(r) => {
                let r = r.clone();
                actions.push(a);
                return (r, actions);
            }
            Action::Ignore => panic!("ignored event"),
        };
        actions.push(a);
        a = run.advance(event);
    }
}

fn touches_files(actions: &[Action]) -> bool {
    actions.iter().any(|a| matches!(a, Action::Stage(_, _) | Action::Normalize(_)))
}

#[test]
fn loud_asset_is_staged_and_normalized() {
    let (r, actions) = drive("music/song.mp3", PathKind::File, &report("-9.50"), true, true);
    assert_eq!(r, Ok(PipelineOutcome::Normalized("music/song.mp3".to_string())));
    assert_eq!(actions.len(), 4);
    assert_eq!(
        actions[1],
        Action::Stage("music/song.mp3".to_string(), "music/original-song.mp3".to_string())
    );
    match &actions[2] {
        Action::Normalize(req) => {
            assert_eq!(req.input, "music/original-song.mp3");
            assert_eq!(req.output, "music/song.mp3");
            assert_eq!(req.target, limit());
            assert_eq!(req.measured_i, Decimal { units: -950, scale: 2 });
            assert_eq!(req.measured_tp, Decimal { units: -120, scale: 2 });
            assert_eq!(req.measured_lra, Decimal { units: 640, scale: 2 });
            assert_eq!(req.measured_thresh, Decimal { units: -2010, scale: 2 });
        }
        other => panic!("{:?}", other),
    }
}

#[test]
fn asset_at_limit_is_normalized() {
    let (r, _) = drive("music/song.mp3", PathKind::File, &report("-14.00"), true, true);
    assert_eq!(r, Ok(PipelineOutcome::Normalized("music/song.mp3".to_string())));
}

#[test]
fn quiet_asset_is_unchanged() {
    let (r, actions) = drive("music/song.mp3", PathKind::File, &report("-23.54"), true, true);
    assert_eq!(r, Ok(PipelineOutcome::Unchanged("music/song.mp3".to_string())));
    assert!(!touches_files(&actions));
}

#[test]
fn quiet_asset_twice_is_unchanged_twice() {
    let first = drive("music/song.mp3", PathKind::File, &report("-14.01"), true, true);
    let second = drive("music/song.mp3", PathKind::File, &report("-14.01"), true, true);
    assert_eq!(first.0, Ok(PipelineOutcome::Unchanged("music/song.mp3".to_string())));
    assert_eq!(first, second);
    assert!(!touches_files(&first.1));
}

#[test]
fn encode_failure_keeps_staged_original() {
    let (r, actions) = drive("music/song.mp3", PathKind::File, &report("-9.50"), true, false);
    assert_eq!(r, Err(PipelineError::EncodeFailed("encoder error".to_string())));
    assert_eq!(actions.len(), 4);
    assert!(matches!(actions[3], Action::Finish(_)));
}

#[test]
fn stage_failure_reported() {
    let (r, actions) = drive("music/song.mp3", PathKind::File, &report("-9.50"), false, true);
    assert_eq!(r, Err(PipelineError::StageFailed));
    assert_eq!(actions.len(), 3);
}

#[test]
fn unreadable_analysis_reported() {
    let (r, _) = drive("music/song.mp3", PathKind::File, "Conversion failed!", true, true);
    assert_eq!(r, Err(PipelineError::AnalysisUnreadable));
}

#[test]
fn path_checks() {
    assert_eq!(drive("x.mp3", PathKind::Missing, "", true, true).0, Err(PipelineError::NotFound));
    assert_eq!(drive("x.mp3", PathKind::Directory, "", true, true).0, Err(PipelineError::NotAFile));
    assert_eq!(check_file(PathKind::File), Ok(()));
    assert_eq!(check_file(PathKind::Directory), Err(PipelineError::NotAFile));
    assert_eq!(check_dir(PathKind::Directory), Ok(()));
    assert_eq!(check_dir(PathKind::File), Err(PipelineError::NotADirectory));
    assert_eq!(check_dir(PathKind::Missing), Err(PipelineError::NotFound));
}

#[test]
fn tool_launch_failure_reported() {
    let mut run = AssetRun::new("a.mp3".to_string(), String::new(), "a.mp3".to_string(), limit());
    assert_eq!(run.advance(Event::Checked(PathKind::File)), Action::Analyze("a.mp3".to_string()));
    let a = run.advance(Event::ToolFailed("no ffmpeg".to_string()));
    assert_eq!(a, Action::Finish(Err(PipelineError::ToolInvocationFailed("no ffmpeg".to_string()))));
    assert_eq!(run.stage, Stage::Finished);
    assert_eq!(run.advance(Event::Renamed(true)), Action::Ignore);
}

#[test]
fn staged_names() {
    assert_eq!(staged_name("song.mp3"), "original-song.mp3");
    assert_eq!(join("", "original-a.mp3"), "original-a.mp3");
    assert_eq!(join("/tmp/x", "b"), "/tmp/x/b");
}

#[test]
fn asset_names() {
    assert!(is_asset("song.mp3"));
    assert!(is_asset("..mp3"));
    assert!(!is_asset(".mp3"));
    assert!(!is_asset("song.MP3"));
    assert!(!is_asset("song.wav"));
    assert!(!is_asset("mp3"));
}

#[test]
fn batch_continues_past_unreadable_asset() {
    let assets = [("a.mp3", report("-9.00")), ("b.mp3", "garbage".to_string()), ("c.mp3", report("-20.00"))];
    let mut summary = BatchSummary::new();
    let mut attempted = 0;
    for (name, diag) in assets.iter() {
        let (r, _) = drive(name, PathKind::File, diag, true, true);
        attempted += 1;
        summary.record(outcome_of(name.to_string(), r));
    }
    assert_eq!(attempted, 3);
    assert_eq!(summary.processed, 2);
    assert_eq!(summary.failures, vec![("b.mp3".to_string(), PipelineError::AnalysisUnreadable)]);
    assert_eq!(summary.attempted(), 3);
}
