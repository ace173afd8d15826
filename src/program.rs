use vstd::prelude::*;

use crate::blacklist::Blacklist;
use crate::download::{
    destination, destination_spec, lemma_transfer_ends, outcome_models, status_spec, transfer_at, DownloadError,
    DownloadJob, DownloadOutcome, DownloadPolicy, DownloadStatus, JobModel, OutcomeModel,
};
use crate::grabber::{
    answer_models, grab_spec, grabbed_models, lemma_empty_group_contributes_nothing,
    lemma_grab_sound, sound, FetchError, GrabbedModel, GrabbedPost, Grabber, Post,
};
use crate::text::string_views;
use crate::tag::{tag_models, GroupModel};
use crate::request::{base_url, RateLimiter, RetryPolicy};
use crate::tag::{group_models, Group, TagType};

verus! {

/// The most pages fetched for one group.
pub const MAX_PAGES: u32 = 750;

/// Attempts a metadata request gets before the group is given up.
pub const REQUEST_ATTEMPTS: u32 = 5;

/// The first retry delay of a metadata request, in milliseconds.
pub const RETRY_BASE_MS: u64 = 500;

/// The least time between two requests to the service, in milliseconds.
pub const REQUEST_INTERVAL_MS: u64 = 500;

/// Attempts a file transfer gets.
pub const DOWNLOAD_ATTEMPTS: u32 = 3;

/// Everything one run needs once its groups are known.
#[derive(Debug)]
pub struct Session {
    pub base_url: String,
    pub groups: Vec<Group>,
    pub grabber: Grabber,
    pub retry: RetryPolicy,
    pub limiter: RateLimiter,
    pub downloads: DownloadPolicy,
}

/// Handles the flow of a run of the downloader.
#[derive(Debug)]
pub struct Program {
    pub max_pages: u32,
}

impl Program {
    pub fn new() -> (r: Self)
        ensures
            r.max_pages == MAX_PAGES,
    {
        Program { max_pages: MAX_PAGES }
    }

    /// Prepares a run over `groups` with the given blacklist, which groups of
    /// a category in `bypass` skip; the safe domain is used when `safe` holds.
    pub fn start(&self, groups: &[Group], safe: bool, blacklist: Blacklist, bypass: Vec<TagType>) -> (r: Session)
        ensures
            r.base_url@ == (if safe {
                "https://e926.net"@
            } else {
                "https://e621.net"@
            }),
            group_models(r.groups@) == group_models(groups@),
            r.grabber.wf(),
            r.grabber.kept().len() == 0,
            r.grabber.blacklist@ == blacklist@,
            r.grabber.bypass@ == bypass@,
            r.grabber.max_pages == self.max_pages,
            r.retry == (RetryPolicy { max_attempts: REQUEST_ATTEMPTS, base_delay_ms: RETRY_BASE_MS }),
            r.limiter == RateLimiter::spec_new(REQUEST_INTERVAL_MS),
            r.downloads == (DownloadPolicy { max_attempts: DOWNLOAD_ATTEMPTS }),
    {
        let mut copies: Vec<Group> = Vec::new();
        let mut i: usize = 0;
        while i < groups.len()
            invariant
                i <= groups@.len(),
                group_models(copies@) == group_models(groups@).take(i as int),
            decreases groups@.len() - i,
        {
            let g = groups[i].duplicate();
            let ghost before = copies@;
            copies.push(g);
            assert(group_models(copies@) =~= group_models(before).push(groups@[i as int]@));
            i = i + 1;
            assert(group_models(groups@).take(i as int) =~= group_models(groups@).take(
                i - 1,
            ).push(groups@[i - 1]@));
        }
        assert(group_models(groups@).take(i as int) =~= group_models(groups@));
        Session {
            base_url: base_url(safe),
            groups: copies,
            grabber: Grabber::new(blacklist, bypass, self.max_pages),
            retry: RetryPolicy { max_attempts: REQUEST_ATTEMPTS, base_delay_ms: RETRY_BASE_MS },
            limiter: RateLimiter::new(REQUEST_INTERVAL_MS),
            downloads: DownloadPolicy { max_attempts: DOWNLOAD_ATTEMPTS },
        }
    }

    /// A whole run over `groups`: every group is grabbed from the answers
    /// the request sender gave for it (`answers[i]` for group `i`, page 1
    /// first), each kept post becomes a download job under `root`, and the
    /// jobs are downloaded against the paths in `existing`, `transfers[i]`
    /// holding the answers of the attempts to fetch job `i`.
    pub fn run(
        &self,
        groups: &Vec<Group>,
        safe: bool,
        blacklist: Blacklist,
        bypass: Vec<TagType>,
        root: &str,
        answers: &Vec<Vec<Result<Vec<Post>, FetchError>>>,
        existing: &Vec<String>,
        transfers: &Vec<Vec<Result<(), DownloadError>>>,
    ) -> (r: RunReport)
        requires
            answers@.len() == groups@.len(),
        ensures
            r.base_url@ == (if safe {
                "https://e926.net"@
            } else {
                "https://e621.net"@
            }),
            grabbed_models(r.posts@) == grab_spec(
                Seq::empty(),
                group_models(groups@),
                answer_models(answers@),
                blacklist@,
                bypass@,
                self.max_pages as nat,
            ),
            sound(grabbed_models(r.posts@), blacklist@, bypass@),
            forall|j: int|
                0 <= j < r.posts@.len() ==> (#[trigger] r.posts@[j]).group < groups@.len()
                    && groups@[r.posts@[j].group as int].tags@.len() > 0,
            r.outcomes@.len() == r.posts@.len(),
            forall|i: int|
                0 <= i < r.posts@.len() ==> #[trigger] r.outcomes@[i]@ == outcome_spec(
                    grabbed_models(r.posts@)[i],
                    group_models(groups@),
                    root@,
                    string_views(existing@),
                    transfer_at(transfers@, i),
                ),
            (forall|i: int|
                0 <= i < r.posts@.len() ==> string_views(existing@).contains(
                    #[trigger] job_spec(grabbed_models(r.posts@)[i], group_models(groups@), root@).1,
                )) ==> forall|i: int|
                0 <= i < r.outcomes@.len() ==> (#[trigger] r.outcomes@[i]).status
                    == DownloadStatus::SkippedExisting,
            r.summary.grabbed == r.posts@.len(),
            r.summary.filtered == r.dropped,
            r.summary.downloaded + r.summary.skipped_existing + r.summary.failed == r.posts@.len(),
            r.summary.downloaded == count_where(outcome_models(r.outcomes@), |s| is_saved(s)),
            r.summary.skipped_existing == count_where(outcome_models(r.outcomes@), |s| is_skipped(s)),
            r.summary.failed == count_where(outcome_models(r.outcomes@), |s| is_failed(s)),
    {
        let session = self.start(groups.as_slice(), safe, blacklist, bypass);
        let mut grabber = session.grabber;
        assert(grabber.kept() =~= Seq::<GrabbedModel>::empty());
        grabber.grab(groups, answers);
        let n_groups = groups.len();
        proof {
            assert(group_models(groups@).len() == n_groups);
            lemma_grab_sound(
                group_models(groups@),
                answer_models(answers@),
                grabber.blacklist@,
                grabber.bypass@,
                self.max_pages as nat,
            );
            lemma_empty_group_contributes_nothing(
                group_models(groups@),
                answer_models(answers@),
                grabber.blacklist@,
                grabber.bypass@,
                self.max_pages as nat,
            );
            assert forall|j: int| 0 <= j < grabber.grabbed@.len() implies (
            #[trigger] grabber.grabbed@[j]).group < groups@.len()
                && groups@[grabber.grabbed@[j].group as int].tags@.len() > 0 by {
                let ks = grab_spec(
                    Seq::empty(),
                    group_models(groups@),
                    answer_models(answers@),
                    grabber.blacklist@,
                    grabber.bypass@,
                    self.max_pages as nat,
                );
                assert(ks[j] == grabber.grabbed@[j]@);
                let gi = grabber.grabbed@[j].group as int;
                assert(group_models(groups@)[gi] == groups@[gi]@);
                assert(tag_models(groups@[gi].tags@).len() == groups@[gi].tags@.len());
            }
        }
        let jobs = jobs_for(&grabber.grabbed, groups, root);
        let outcomes = session.downloads.download_all(&jobs, existing, transfers);
        let summary = RunSummary::new(grabber.dropped, grabber.grabbed.len(), &outcomes);
        proof {
            lemma_counts_add_up(outcome_models(outcomes@));
            assert(outcome_models(outcomes@).len() == outcomes@.len());
            assert forall|i: int| 0 <= i < grabber.grabbed@.len() implies #[trigger] outcomes@[i]@
                == outcome_spec(
                grabbed_models(grabber.grabbed@)[i],
                group_models(groups@),
                root@,
                string_views(existing@),
                transfer_at(transfers@, i),
            ) by {
                assert(jobs@[i]@ == job_spec(grabbed_models(grabber.grabbed@)[i], group_models(groups@), root@));
            }
            if forall|i: int|
                0 <= i < grabber.grabbed@.len() ==> string_views(existing@).contains(
                    #[trigger] job_spec(grabbed_models(grabber.grabbed@)[i], group_models(groups@), root@).1,
                ) {
                assert forall|i: int| 0 <= i < outcomes@.len() implies (#[trigger] outcomes@[i]).status
                    == DownloadStatus::SkippedExisting by {
                    assert(outcomes@[i]@ == outcome_spec(
                        grabbed_models(grabber.grabbed@)[i],
                        group_models(groups@),
                        root@,
                        string_views(existing@),
                        transfer_at(transfers@, i),
                    ));
                    assert(string_views(existing@).contains(
                        job_spec(grabbed_models(grabber.grabbed@)[i], group_models(groups@), root@).1,
                    ));
                }
            }
        }
        RunReport {
            base_url: session.base_url,
            posts: grabber.grabbed,
            dropped: grabber.dropped,
            outcomes,
            summary,
        }
    }

    /// A whole run over groups given on the command line, without a
    /// blacklist; pools and sets are fetched whole.
    pub fn run_in_arg(
        &self,
        groups: &Vec<Group>,
        safe: bool,
        root: &str,
        answers: &Vec<Vec<Result<Vec<Post>, FetchError>>>,
        existing: &Vec<String>,
        transfers: &Vec<Vec<Result<(), DownloadError>>>,
    ) -> (r: RunReport)
        requires
            answers@.len() == groups@.len(),
        ensures
            r.base_url@ == (if safe {
                "https://e926.net"@
            } else {
                "https://e621.net"@
            }),
            grabbed_models(r.posts@) == grab_spec(
                Seq::empty(),
                group_models(groups@),
                answer_models(answers@),
                Seq::empty(),
                seq![TagType::Pool, TagType::PostSet],
                self.max_pages as nat,
            ),
            sound(grabbed_models(r.posts@), Seq::empty(), seq![TagType::Pool, TagType::PostSet]),
            forall|j: int|
                0 <= j < r.posts@.len() ==> (#[trigger] r.posts@[j]).group < groups@.len()
                    && groups@[r.posts@[j].group as int].tags@.len() > 0,
            r.outcomes@.len() == r.posts@.len(),
            forall|i: int|
                0 <= i < r.posts@.len() ==> #[trigger] r.outcomes@[i]@ == outcome_spec(
                    grabbed_models(r.posts@)[i],
                    group_models(groups@),
                    root@,
                    string_views(existing@),
                    transfer_at(transfers@, i),
                ),
            (forall|i: int|
                0 <= i < r.posts@.len() ==> string_views(existing@).contains(
                    #[trigger] job_spec(grabbed_models(r.posts@)[i], group_models(groups@), root@).1,
                )) ==> forall|i: int|
                0 <= i < r.outcomes@.len() ==> (#[trigger] r.outcomes@[i]).status
                    == DownloadStatus::SkippedExisting,
            r.summary.grabbed == r.posts@.len(),
            r.summary.filtered == r.dropped,
            r.summary.downloaded + r.summary.skipped_existing + r.summary.failed == r.posts@.len(),
    {
        let mut bypass: Vec<TagType> = Vec::new();
        bypass.push(TagType::Pool);
        bypass.push(TagType::PostSet);
        assert(bypass@ =~= seq![TagType::Pool, TagType::PostSet]);
        let bl = Blacklist::empty();
        assert(bl@ =~= Seq::empty());
        self.run(groups, safe, bl, bypass, root, answers, existing, transfers)
    }
}

/// What a run produced: the kept posts, one download outcome per post in the
/// same order, and the counts.
#[derive(Debug)]
pub struct RunReport {
    pub base_url: String,
    pub posts: Vec<GrabbedPost>,
    /// Fetched posts dropped as duplicates or by the blacklist.
    pub dropped: usize,
    pub outcomes: Vec<DownloadOutcome>,
    pub summary: RunSummary,
}

/// The download job of a kept post: it goes to `<root>/<group name>/<id>.<ext>`.
pub open spec fn job_spec(k: GrabbedModel, groups: Seq<GroupModel>, root: Seq<char>) -> JobModel {
    (k.2.id, destination_spec(root, groups[k.0 as int].0, k.2.id, k.2.extension))
}

/// The outcome of a kept post, given the paths on disk and the answers to
/// its transfer attempts.
pub open spec fn outcome_spec(
    k: GrabbedModel,
    groups: Seq<GroupModel>,
    root: Seq<char>,
    existing: Seq<Seq<char>>,
    transfers: Seq<Result<(), DownloadError>>,
) -> OutcomeModel {
    let job = job_spec(k, groups, root);
    (job.0, job.1, status_spec(existing.contains(job.1), transfers, DOWNLOAD_ATTEMPTS as nat))
}

/// A second run over the same kept posts, after a first run that failed no
/// download, finds every file on disk: each post is `SkippedExisting` and no
/// transfer answer matters. The disk before the second run holds what it held
/// before the first, and every file the first run saved.
pub proof fn lemma_second_run_skips(
    kept: Seq<GrabbedModel>,
    groups: Seq<GroupModel>,
    root: Seq<char>,
    before: Seq<Seq<char>>,
    after: Seq<Seq<char>>,
    first: Seq<Vec<Result<(), DownloadError>>>,
    second: Seq<Vec<Result<(), DownloadError>>>,
)
    requires
        forall|i: int|
            0 <= i < kept.len() ==> !(#[trigger] outcome_spec(
                kept[i],
                groups,
                root,
                before,
                transfer_at(first, i),
            ).2 is Failed),
        forall|p: Seq<char>| before.contains(p) ==> after.contains(p),
        forall|i: int|
            0 <= i < kept.len() && #[trigger] outcome_spec(
                kept[i],
                groups,
                root,
                before,
                transfer_at(first, i),
            ).2 == DownloadStatus::Saved ==> after.contains(job_spec(kept[i], groups, root).1),
    ensures
        forall|i: int|
            0 <= i < kept.len() ==> #[trigger] outcome_spec(
                kept[i],
                groups,
                root,
                after,
                transfer_at(second, i),
            ).2 == DownloadStatus::SkippedExisting,
{
    assert forall|i: int| 0 <= i < kept.len() implies #[trigger] outcome_spec(
        kept[i],
        groups,
        root,
        after,
        transfer_at(second, i),
    ).2 == DownloadStatus::SkippedExisting by {
        let o = outcome_spec(kept[i], groups, root, before, transfer_at(first, i));
        lemma_transfer_ends(transfer_at(first, i), 0, DOWNLOAD_ATTEMPTS as nat);
        if !before.contains(job_spec(kept[i], groups, root).1) {
            assert(o.2 == DownloadStatus::Saved);
        }
    }
}

/// The download jobs of the kept posts, in order.
pub fn jobs_for(posts: &Vec<GrabbedPost>, groups: &Vec<Group>, root: &str) -> (r: Vec<DownloadJob>)
    requires
        forall|j: int| 0 <= j < posts@.len() ==> (#[trigger] posts@[j]).group < groups@.len(),
    ensures
        r@.len() == posts@.len(),
        forall|i: int|
            0 <= i < posts@.len() ==> #[trigger] r@[i]@ == job_spec(
                grabbed_models(posts@)[i],
                group_models(groups@),
                root@,
            ),
{
    let mut jobs: Vec<DownloadJob> = Vec::new();
    let mut i: usize = 0;
    while i < posts.len()
        invariant
            i <= posts@.len(),
            jobs@.len() == i,
            forall|j: int| 0 <= j < posts@.len() ==> (#[trigger] posts@[j]).group < groups@.len(),
            forall|j: int|
                0 <= j < i ==> #[trigger] jobs@[j]@ == job_spec(
                    grabbed_models(posts@)[j],
                    group_models(groups@),
                    root@,
                ),
        decreases posts@.len() - i,
    {
        let k = &posts[i];
        let g = &groups[k.group];
        assert(group_models(groups@)[k.group as int] == g@);
        let path = destination(root, g.name.as_str(), k.post.id, k.post.extension.as_str());
        jobs.push(DownloadJob { post_id: k.post.id, destination_path: path });
        i = i + 1;
    }
    jobs
}

/// How many outcomes have a status that `f` accepts.
pub open spec fn count_where(os: Seq<OutcomeModel>, f: spec_fn(DownloadStatus) -> bool) -> nat
    decreases os.len(),
{
    if os.len() == 0 {
        0
    } else {
        count_where(os.drop_last(), f) + if f(os.last().2) {
            1nat
        } else {
            0nat
        }
    }
}

pub open spec fn is_saved(s: DownloadStatus) -> bool {
    s == DownloadStatus::Saved
}

pub open spec fn is_skipped(s: DownloadStatus) -> bool {
    s == DownloadStatus::SkippedExisting
}

pub open spec fn is_failed(s: DownloadStatus) -> bool {
    s is Failed
}

proof fn lemma_count_bound(os: Seq<OutcomeModel>, f: spec_fn(DownloadStatus) -> bool)
    ensures
        count_where(os, f) <= os.len(),
    decreases os.len(),
{
    if os.len() > 0 {
        lemma_count_bound(os.drop_last(), f);
    }
}

/// Every outcome is saved, skipped or failed, and only one of them.
pub proof fn lemma_counts_add_up(os: Seq<OutcomeModel>)
    ensures
        count_where(os, |s| is_saved(s)) + count_where(os, |s| is_skipped(s)) + count_where(
            os,
            |s| is_failed(s),
        ) == os.len(),
    decreases os.len(),
{
    if os.len() > 0 {
        lemma_counts_add_up(os.drop_last());
    }
}

/// The counts a run ends with.
#[derive(Clone, Copy, Debug, PartialEq, Eq, Structural)]
pub struct RunSummary {
    /// Posts kept after deduplication and the blacklist.
    pub grabbed: usize,
    /// Fetched posts dropped as duplicates or by the blacklist.
    pub filtered: usize,
    pub downloaded: usize,
    pub skipped_existing: usize,
    pub failed: usize,
}

impl RunSummary {
    /// The summary of a run that dropped `filtered` fetched posts, kept
    /// `grabbed`, and ended the downloads with `outcomes`.
    pub fn new(filtered: usize, grabbed: usize, outcomes: &Vec<DownloadOutcome>) -> (r: RunSummary)
        ensures
            r.grabbed == grabbed,
            r.filtered == filtered,
            r.downloaded == count_where(outcome_models(outcomes@), |s| is_saved(s)),
            r.skipped_existing == count_where(outcome_models(outcomes@), |s| is_skipped(s)),
            r.failed == count_where(outcome_models(outcomes@), |s| is_failed(s)),
    {
        let ghost os = outcome_models(outcomes@);
        let mut saved: usize = 0;
        let mut skipped: usize = 0;
        let mut failed: usize = 0;
        let mut i: usize = 0;
        assert(os.take(0) =~= Seq::<OutcomeModel>::empty());
        while i < outcomes.len()
            invariant
                i <= outcomes@.len(),
                os == outcome_models(outcomes@),
                saved == count_where(os.take(i as int), |s| is_saved(s)),
                skipped == count_where(os.take(i as int), |s| is_skipped(s)),
                failed == count_where(os.take(i as int), |s| is_failed(s)),
            decreases outcomes@.len() - i,
        {
            proof {
                assert(os.take(i + 1).drop_last() =~= os.take(i as int));
                assert(os.take(i + 1).last() == outcomes@[i as int]@);
                lemma_count_bound(os.take(i as int), |s| is_saved(s));
                lemma_count_bound(os.take(i as int), |s| is_skipped(s));
                lemma_count_bound(os.take(i as int), |s| is_failed(s));
            }
            match outcomes[i].status {
                DownloadStatus::Saved => {
                    saved = saved + 1;
                },
                DownloadStatus::SkippedExisting => {
                    skipped = skipped + 1;
                },
                DownloadStatus::Failed(_) => {
                    failed = failed + 1;
                },
            }
            i = i + 1;
        }
        assert(os.take(i as int) =~= os);
        RunSummary {
            grabbed,
            filtered,
            downloaded: saved,
            skipped_existing: skipped,
            failed,
        }
    }

    /// The process exit code: 0 when no download failed for good.
    pub fn exit_code(&self) -> (r: i32)
        ensures
            r == (if self.failed == 0 {
                0i32
            } else {
                1i32
            }),
    {
        if self.failed == 0 {
            0
        } else {
            1
        }
    }
}

} // verus!
