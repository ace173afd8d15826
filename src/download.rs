use vstd::prelude::*;
use vstd::string::StringExecFns;

use crate::text::{decimal, decimal_u64, has_tag, string_views};

verus! {

/// Why writing a file failed.
#[derive(Clone, Copy, Debug, PartialEq, Eq, Structural)]
pub enum DownloadError {
    /// A timeout or a partial write: worth another attempt.
    TransientIO,
    /// Disk full, permission denied and the like.
    PermanentIO,
}

/// How the download of one post ended.
#[derive(Clone, Copy, Debug, PartialEq, Eq, Structural)]
pub enum DownloadStatus {
    Saved,
    SkippedExisting,
    Failed(DownloadError),
}

/// One post to download and the path it goes to.
#[derive(Debug)]
pub struct DownloadJob {
    pub post_id: u64,
    pub destination_path: String,
}

/// The result of one post's download, made once at its end.
#[derive(Debug)]
pub struct DownloadOutcome {
    pub post_id: u64,
    pub destination_path: String,
    pub status: DownloadStatus,
}

pub type JobModel = (u64, Seq<char>);

pub type OutcomeModel = (u64, Seq<char>, DownloadStatus);

impl View for DownloadJob {
    type V = JobModel;

    open spec fn view(&self) -> JobModel {
        (self.post_id, self.destination_path@)
    }
}

impl View for DownloadOutcome {
    type V = OutcomeModel;

    open spec fn view(&self) -> OutcomeModel {
        (self.post_id, self.destination_path@, self.status)
    }
}

pub open spec fn job_models(js: Seq<DownloadJob>) -> Seq<JobModel> {
    js.map_values(|j: DownloadJob| j@)
}

pub open spec fn outcome_models(os: Seq<DownloadOutcome>) -> Seq<OutcomeModel> {
    os.map_values(|o: DownloadOutcome| o@)
}

pub open spec fn transfer_models(
    ts: Seq<Vec<Result<(), DownloadError>>>,
) -> Seq<Seq<Result<(), DownloadError>>> {
    ts.map_values(|t: Vec<Result<(), DownloadError>>| t@)
}

/// The answers given for the transfer of job `i`; none where the list stops short.
pub open spec fn transfer_at(
    ts: Seq<Vec<Result<(), DownloadError>>>,
    i: int,
) -> Seq<Result<(), DownloadError>> {
    if 0 <= i < ts.len() {
        ts[i]@
    } else {
        Seq::<Result<(), DownloadError>>::empty()
    }
}

/// `<root>/<group name>/<post id>.<extension>`.
pub open spec fn destination_spec(
    root: Seq<char>,
    group: Seq<char>,
    id: u64,
    extension: Seq<char>,
) -> Seq<char> {
    root + seq!['/'] + group + seq!['/'] + decimal(id as int) + seq!['.'] + extension
}

/// The path a post of a group is saved to.
pub fn destination(root: &str, group: &str, id: u64, extension: &str) -> (r: String)
    ensures
        r@ == destination_spec(root@, group@, id, extension@),
{
    let mut r = String::from_str(root);
    r.append("/");
    r.append(group);
    r.append("/");
    let digits = decimal_u64(id);
    r.append(digits.as_str());
    r.append(".");
    r.append(extension);
    proof {
        reveal_strlit("/");
        reveal_strlit(".");
    }
    assert(r@ =~= destination_spec(root@, group@, id, extension@));
    r
}

/// How a file transfer ends, given the answers of successive attempts from
/// attempt `i + 1` on and the most attempts allowed: a permanent failure ends
/// it at once, a transient one is retried while attempts remain.
pub open spec fn transfer_status(
    results: Seq<Result<(), DownloadError>>,
    i: nat,
    max: nat,
) -> DownloadStatus
    decreases max - i,
{
    if i < max && i < results.len() {
        match results[i as int] {
            Ok(_) => DownloadStatus::Saved,
            Err(DownloadError::PermanentIO) => DownloadStatus::Failed(DownloadError::PermanentIO),
            Err(DownloadError::TransientIO) => transfer_status(results, i + 1, max),
        }
    } else {
        DownloadStatus::Failed(DownloadError::TransientIO)
    }
}

/// How the download of one post ends: a file already at its path is kept
/// and nothing is fetched.
pub open spec fn status_spec(
    exists: bool,
    results: Seq<Result<(), DownloadError>>,
    max: nat,
) -> DownloadStatus {
    if exists {
        DownloadStatus::SkippedExisting
    } else {
        transfer_status(results, 0, max)
    }
}

/// What to do after a transfer attempt.
#[derive(Clone, Copy, Debug, PartialEq, Eq, Structural)]
pub enum TransferStep {
    Retry,
    Finish(DownloadStatus),
}

/// The download discipline: how many attempts a transfer gets.
#[derive(Clone, Copy, Debug, PartialEq, Eq, Structural)]
pub struct DownloadPolicy {
    pub max_attempts: u32,
}

impl DownloadPolicy {
    /// The step after attempt `attempt` (counting from 1) ended with `result`.
    pub fn after_attempt(&self, attempt: u32, result: Result<(), DownloadError>) -> (r:
        TransferStep)
        ensures
            r == (match result {
                Ok(_) => TransferStep::Finish(DownloadStatus::Saved),
                Err(DownloadError::PermanentIO) => TransferStep::Finish(
                    DownloadStatus::Failed(DownloadError::PermanentIO),
                ),
                Err(DownloadError::TransientIO) => if attempt < self.max_attempts {
                    TransferStep::Retry
                } else {
                    TransferStep::Finish(DownloadStatus::Failed(DownloadError::TransientIO))
                },
            }),
    {
        match result {
            Ok(_) => TransferStep::Finish(DownloadStatus::Saved),
            Err(DownloadError::PermanentIO) => TransferStep::Finish(
                DownloadStatus::Failed(DownloadError::PermanentIO),
            ),
            Err(DownloadError::TransientIO) => if attempt < self.max_attempts {
                TransferStep::Retry
            } else {
                TransferStep::Finish(DownloadStatus::Failed(DownloadError::TransientIO))
            },
        }
    }

    /// How one transfer ends, given the answers of its attempts in order.
    pub fn transfer(&self, results: &Vec<Result<(), DownloadError>>) -> (r: DownloadStatus)
        ensures
            r == transfer_status(results@, 0, self.max_attempts as nat),
    {
        let mut i: usize = 0;
        while i < results.len() && (i as u64) < (self.max_attempts as u64)
            invariant
                i <= results@.len(),
                i <= self.max_attempts,
                transfer_status(results@, 0, self.max_attempts as nat) == transfer_status(
                    results@,
                    i as nat,
                    self.max_attempts as nat,
                ),
                forall|j: int| 0 <= j < i ==> results@[j] == Err::<(), DownloadError>(
                    DownloadError::TransientIO,
                ),
            decreases results@.len() - i,
        {
            match results[i] {
                Ok(_) => {
                    return DownloadStatus::Saved;
                },
                Err(DownloadError::PermanentIO) => {
                    return DownloadStatus::Failed(DownloadError::PermanentIO);
                },
                Err(DownloadError::TransientIO) => {},
            }
            i = i + 1;
        }
        DownloadStatus::Failed(DownloadError::TransientIO)
    }

    /// Downloads every job: `existing` holds the paths present on disk, and
    /// `transfers[i]` the answers of the attempts to fetch job `i`, which are
    /// consulted only where its path is absent.
    pub fn download_all(
        &self,
        jobs: &Vec<DownloadJob>,
        existing: &Vec<String>,
        transfers: &Vec<Vec<Result<(), DownloadError>>>,
    ) -> (r: Vec<DownloadOutcome>)
        ensures
            r@.len() == jobs@.len(),
            forall|i: int|
                0 <= i < jobs@.len() ==> #[trigger] r@[i]@ == (
                    jobs@[i].post_id,
                    jobs@[i].destination_path@,
                    status_spec(
                        string_views(existing@).contains(jobs@[i].destination_path@),
                        transfer_at(transfers@, i),
                        self.max_attempts as nat,
                    ),
                ),
    {
        let mut out: Vec<DownloadOutcome> = Vec::new();
        let mut i: usize = 0;
        while i < jobs.len()
            invariant
                i <= jobs@.len(),
                out@.len() == i,
                forall|k: int|
                    0 <= k < i ==> #[trigger] out@[k]@ == (
                        jobs@[k].post_id,
                        jobs@[k].destination_path@,
                        status_spec(
                            string_views(existing@).contains(jobs@[k].destination_path@),
                            transfer_at(transfers@, k),
                            self.max_attempts as nat,
                        ),
                    ),
            decreases jobs@.len() - i,
        {
            let job = &jobs[i];
            let status = if has_tag(existing, &job.destination_path) {
                DownloadStatus::SkippedExisting
            } else if i < transfers.len() {
                self.transfer(&transfers[i])
            } else {
                let none: Vec<Result<(), DownloadError>> = Vec::new();
                assert(none@ =~= Seq::<Result<(), DownloadError>>::empty());
                self.transfer(&none)
            };
            out.push(
                DownloadOutcome {
                    post_id: job.post_id,
                    destination_path: job.destination_path.clone(),
                    status,
                },
            );
            i = i + 1;
        }
        out
    }
}

/// The paths on disk after a run: those present before, and those saved.
pub open spec fn paths_after(
    existing: Set<Seq<char>>,
    outcomes: Seq<OutcomeModel>,
) -> Set<Seq<char>> {
    existing.union(
        Set::new(
            |p: Seq<char>|
                exists|i: int|
                    0 <= i < outcomes.len() && outcomes[i].1 == p && outcomes[i].2
                        == DownloadStatus::Saved,
        ),
    )
}

/// Running the downloads a second time over the files the first run left,
/// when the first run had no failure, skips every post and fetches nothing,
/// whatever the transfers would have answered.
pub proof fn lemma_rerun_skips_existing(
    jobs: Seq<JobModel>,
    existing: Set<Seq<char>>,
    first: Seq<Seq<Result<(), DownloadError>>>,
    second: Seq<Seq<Result<(), DownloadError>>>,
    max: nat,
)
    requires
        first.len() == jobs.len(),
        second.len() == jobs.len(),
        forall|i: int|
            0 <= i < jobs.len() ==> !(#[trigger] status_spec(
                existing.contains(jobs[i].1),
                first[i],
                max,
            ) is Failed),
    ensures
        ({
            let outcomes = Seq::new(
                jobs.len(),
                |i: int| (jobs[i].0, jobs[i].1, status_spec(existing.contains(jobs[i].1), first[i], max)),
            );
            forall|i: int|
                0 <= i < jobs.len() ==> #[trigger] status_spec(
                    paths_after(existing, outcomes).contains(jobs[i].1),
                    second[i],
                    max,
                ) == DownloadStatus::SkippedExisting
        }),
{
    let outcomes = Seq::new(
        jobs.len(),
        |i: int| (jobs[i].0, jobs[i].1, status_spec(existing.contains(jobs[i].1), first[i], max)),
    );
    assert forall|i: int| 0 <= i < jobs.len() implies paths_after(existing, outcomes).contains(
        jobs[i].1,
    ) by {
        let s = status_spec(existing.contains(jobs[i].1), first[i], max);
        if !existing.contains(jobs[i].1) {
            lemma_transfer_ends(first[i], 0, max);
            assert(outcomes[i].2 == DownloadStatus::Saved);
        }
    }
}

pub proof fn lemma_transfer_ends(results: Seq<Result<(), DownloadError>>, i: nat, max: nat)
    ensures
        transfer_status(results, i, max) == DownloadStatus::Saved || transfer_status(
            results,
            i,
            max,
        ) is Failed,
    decreases max - i,
{
    if i < max && i < results.len() {
        lemma_transfer_ends(results, i + 1, max);
    }
}

} // verus!
