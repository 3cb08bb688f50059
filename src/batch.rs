use vstd::prelude::*;
use crate::pipeline::{PipelineError, PipelineOutcome};

verus! {

/// Whether a file name has the extension of the assets this library processes:
/// `.mp3` after a non-empty stem.
pub open spec fn is_asset_name(name: Seq<char>) -> bool {
    name.len() >= 5 && name.subrange(name.len() - 4, name.len() as int) == ".mp3"@
}

/// Whether a file of this name is an asset to process.
pub fn is_asset(name: &str) -> (r: bool)
    ensures
        r == is_asset_name(name@),
{
    let n = name.unicode_len();
    if n < 5 {
        return false;
    }
    let ext = ".mp3";
    proof {
        reveal_strlit(".mp3");
    }
    let mut k: usize = 0;
    while k < 4
        invariant
            5 <= n == name@.len(),
            ext@ == ".mp3"@,
            ext@.len() == 4,
            k <= 4,
            forall|q: int| 0 <= q < k ==> name@[n - 4 + q] == ext@[q],
        decreases 4 - k,
    {
        if name.get_char(n - 4 + k) != ext.get_char(k) {
            proof {
                assert(name@.subrange(n - 4, n as int)[k as int] != ".mp3"@[k as int]);
            }
            return false;
        }
        k = k + 1;
    }
    proof {
        assert(name@.subrange(n - 4, n as int) =~= ".mp3"@);
    }
    true
}

/// The outcome of processing `path`, with an error folded into `Failed`.
pub fn outcome_of(path: String, result: Result<PipelineOutcome, PipelineError>) -> (r:
    PipelineOutcome)
    ensures
        r == match result {
            Ok(o) => o,
            Err(e) => PipelineOutcome::Failed(path, e),
        },
{
    match result {
        Ok(o) => o,
        Err(e) => PipelineOutcome::Failed(path, e),
    }
}

/// What a run over a directory came to: how many assets were processed, and
/// which failed, in the order they were met.
#[derive(Debug)]
pub struct BatchSummary {
    pub processed: u64,
    pub failures: Vec<(String, PipelineError)>,
}

impl BatchSummary {
    pub fn new() -> (r: BatchSummary)
        ensures
            r.processed == 0,
            r.failures@.len() == 0,
    {
        BatchSummary { processed: 0, failures: Vec::new() }
    }

    /// Adds one asset's outcome: `Unchanged` and `Normalized` count as processed,
    /// `Failed` is listed with its reason.
    pub fn record(&mut self, outcome: PipelineOutcome)
        requires
            old(self).processed < u64::MAX,
        ensures
            match outcome {
                PipelineOutcome::Failed(p, e) => final(self).processed == old(self).processed
                    && final(self).failures@ == old(self).failures@.push((p, e)),
                _ => final(self).processed == old(self).processed + 1 && final(self).failures@
                    == old(self).failures@,
            },
    {
        match outcome {
            PipelineOutcome::Failed(p, e) => self.failures.push((p, e)),
            _ => self.processed = self.processed + 1,
        }
    }

    /// How many assets were attempted.
    pub fn attempted(&self) -> (r: u64)
        requires
            self.processed + self.failures@.len() <= u64::MAX,
        ensures
            r == self.processed + self.failures@.len(),
    {
        self.processed + self.failures.len() as u64
    }
}

} // verus!
