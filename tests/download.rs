use e621_downloader::download::{
    destination, DownloadError, DownloadJob, DownloadPolicy, DownloadStatus, TransferStep,
};
use e621_downloader::blacklist::Blacklist;
use e621_downloader::grabber::{Post, Rating};
use e621_downloader::program::{Program, RunReport, RunSummary};
use e621_downloader::request::{base_url, AttemptFailure, RateLimiter, RetryDecision, RetryPolicy};
use e621_downloader::grabber::FetchError;
use e621_downloader::tag::{Group, Tag, TagSearchType, TagType};

#[test]
fn destination_is_root_group_id_extension() {
    assert_eq!(destination("downloads", "artists", 1234, "png"), "downloads/artists/1234.png");
    assert_eq!(destination("out", "pool", 0, "webm"), "out/pool/0.webm");
}

fn jobs() -> Vec<DownloadJob> {
    vec![
        DownloadJob { post_id: 1, destination_path: destination("d", "g", 1, "png") },
        DownloadJob { post_id: 2, destination_path: destination("d", "g", 2, "jpg") },
    ]
}

#[test]
fn second_run_skips_everything() {
    let policy = DownloadPolicy { max_attempts: 3 };
    let js = jobs();
    let first = policy.download_all(
        &js,
        &vec![],
        &vec![vec![Ok(())], vec![Err(DownloadError::TransientIO), Ok(())]],
    );
    assert_eq!(first[0].status, DownloadStatus::Saved);
    assert_eq!(first[1].status, DownloadStatus::Saved);
    let on_disk: Vec<String> = first.iter().map(|o| o.destination_path.clone()).collect();
    let second = policy.download_all(
        &js,
        &on_disk,
        &vec![vec![Err(DownloadError::PermanentIO)], vec![Err(DownloadError::PermanentIO)]],
    );
    assert!(second.iter().all(|o| o.status == DownloadStatus::SkippedExisting));
    assert_eq!(second[1].destination_path, "d/g/2.jpg");
}

#[test]
fn transfer_retries_transient_failures() {
    let policy = DownloadPolicy { max_attempts: 2 };
    let t = DownloadError::TransientIO;
    assert_eq!(policy.transfer(&vec![Err(t), Ok(())]), DownloadStatus::Saved);
    assert_eq!(policy.transfer(&vec![Err(t), Err(t), Ok(())]), DownloadStatus::Failed(t));
    assert_eq!(
        policy.transfer(&vec![Err(DownloadError::PermanentIO), Ok(())]),
        DownloadStatus::Failed(DownloadError::PermanentIO)
    );
    assert_eq!(policy.after_attempt(1, Err(t)), TransferStep::Retry);
    assert_eq!(policy.after_attempt(2, Err(t)), TransferStep::Finish(DownloadStatus::Failed(t)));
    assert_eq!(policy.after_attempt(1, Ok(())), TransferStep::Finish(DownloadStatus::Saved));
}

#[test]
fn summary_counts_outcomes() {
    let policy = DownloadPolicy { max_attempts: 1 };
    let js = jobs();
    let existing = vec![String::from("d/g/1.png")];
    let out = policy.download_all(&js, &existing, &vec![vec![], vec![Err(DownloadError::PermanentIO)]]);
    let s = RunSummary::new(3, 2, &out);
    assert_eq!(s.grabbed, 2);
    assert_eq!(s.filtered, 3);
    assert_eq!(s.skipped_existing, 1);
    assert_eq!(s.failed, 1);
    assert_eq!(s.downloaded, 0);
    assert_eq!(s.exit_code(), 1);
    assert_eq!(RunSummary::new(0, 0, &vec![]).exit_code(), 0);
}

#[test]
fn retry_policy_backs_off_then_gives_up() {
    let p = RetryPolicy { max_attempts: 3, base_delay_ms: 100 };
    assert_eq!(p.after_failure(1, AttemptFailure::Timeout), RetryDecision::Retry { delay_ms: 100 });
    assert_eq!(p.after_failure(2, AttemptFailure::ServerError), RetryDecision::Retry { delay_ms: 200 });
    assert_eq!(p.after_failure(3, AttemptFailure::RateLimited), RetryDecision::GiveUp(FetchError::Unavailable));
    assert_eq!(p.after_failure(1, AttemptFailure::ClientError), RetryDecision::GiveUp(FetchError::InvalidQuery));
    let big = RetryPolicy { max_attempts: 100, base_delay_ms: u64::MAX / 2 + 1 };
    assert_eq!(big.delay_after(2), u64::MAX);
}

#[test]
fn rate_limiter_spaces_requests() {
    let mut r = RateLimiter::new(500);
    assert_eq!(r.acquire(1000), 0);
    assert_eq!(r.acquire(1200), 300);
    assert_eq!(r.next_free_ms, 2000);
    assert_eq!(r.acquire(5000), 0);
}

#[test]
fn safe_mode_selects_filtered_domain() {
    assert_eq!(base_url(true), "https://e926.net");
    assert_eq!(base_url(false), "https://e621.net");
}

fn post(id: u64, ext: &str) -> Post {
    Post {
        id,
        md5: String::new(),
        file_url: format!("https://static1.e621.net/{}", id),
        extension: String::from(ext),
        tags: vec![String::from("cat")],
        rating: Rating::Safe,
        score: 0,
    }
}

fn artist_group(name: &str) -> Group {
    let mut g = Group::new(String::from(name));
    g.push_tag(Tag::new(name, TagSearchType::Special, TagType::Artist));
    g
}

fn ids(r: &RunReport) -> Vec<u64> {
    r.posts.iter().map(|k| k.post.id).collect()
}

#[test]
fn run_takes_pages_until_empty_and_downloads_each_post() {
    let program = Program::new();
    let groups = vec![artist_group("foo")];
    let answers = vec![vec![
        Ok(vec![post(1, "png"), post(2, "jpg")]),
        Ok(vec![post(3, "gif")]),
        Ok(vec![]),
        Ok(vec![post(4, "png")]),
    ]];
    let r = program.run_in_arg(&groups, false, "out", &answers, &vec![], &vec![vec![Ok(())], vec![Ok(())], vec![Ok(())]]);
    assert_eq!(r.base_url, "https://e621.net");
    assert_eq!(ids(&r), vec![1, 2, 3]);
    assert_eq!(r.outcomes.len(), 3);
    assert_eq!(r.outcomes[1].destination_path, "out/foo/2.jpg");
    assert!(r.outcomes.iter().all(|o| o.status == DownloadStatus::Saved));
    assert_eq!(r.summary.downloaded, 3);
    assert_eq!(r.summary.grabbed, 3);
}

#[test]
fn run_goes_on_after_an_unavailable_page() {
    let program = Program::new();
    let groups = vec![artist_group("a"), Group::new(String::from("empty")), artist_group("b")];
    let answers = vec![
        vec![Ok(vec![post(1, "png"), post(2, "png")]), Err(FetchError::Unavailable), Ok(vec![post(9, "png")])],
        vec![Ok(vec![post(7, "png")])],
        vec![Ok(vec![post(2, "png"), post(3, "png")]), Ok(vec![])],
    ];
    let r = program.run_in_arg(&groups, true, "d", &answers, &vec![], &vec![]);
    assert_eq!(ids(&r), vec![1, 2, 3]);
    assert_eq!(r.posts[2].group, 2);
    assert_eq!(r.dropped, 1);
    assert_eq!(r.summary.filtered, 1);
    assert_eq!(r.outcomes[2].destination_path, "d/b/3.png");
    assert_eq!(r.summary.failed, 3);
    assert_eq!(r.summary.exit_code(), 1);
}

#[test]
fn second_run_over_saved_files_skips_every_post() {
    let program = Program::new();
    let groups = vec![artist_group("a"), artist_group("b")];
    let answers = vec![
        vec![Ok(vec![post(1, "png"), post(2, "png")]), Ok(vec![])],
        vec![Ok(vec![post(2, "png"), post(3, "webm")]), Ok(vec![])],
    ];
    let first = program.run_in_arg(&groups, false, "out", &answers, &vec![], &vec![vec![Ok(())], vec![Err(DownloadError::TransientIO), Ok(())], vec![Ok(())]]);
    assert_eq!(first.summary.downloaded, 3);
    let on_disk: Vec<String> = first.outcomes.iter().map(|o| o.destination_path.clone()).collect();
    let second = program.run_in_arg(&groups, false, "out", &answers, &on_disk, &vec![]);
    assert_eq!(second.outcomes.len(), 3);
    assert!(second.outcomes.iter().all(|o| o.status == DownloadStatus::SkippedExisting));
    assert_eq!(second.summary.skipped_existing, 3);
    assert_eq!(second.summary.exit_code(), 0);
}

#[test]
fn run_with_blacklist_and_bypass() {
    let program = Program::new();
    let mut pool = Group::new(String::from("pool"));
    pool.push_tag(Tag::new("12", TagSearchType::General, TagType::Pool));
    let groups = vec![artist_group("a"), pool];
    let answers = vec![
        vec![Ok(vec![post(1, "png")]), Ok(vec![])],
        vec![Ok(vec![post(1, "png")]), Ok(vec![])],
    ];
    let r = program.run(&groups, false, Blacklist::compile("cat"), vec![TagType::Pool], "o", &answers, &vec![], &vec![vec![Ok(())]]);
    assert_eq!(ids(&r), vec![1]);
    assert_eq!(r.posts[0].group, 1);
    assert_eq!(r.outcomes[0].destination_path, "o/pool/1.png");
    let none = program.run(&groups, false, Blacklist::compile("cat"), vec![], "o", &answers, &vec![], &vec![]);
    assert!(none.posts.is_empty() && none.outcomes.is_empty());
    assert_eq!(none.summary.filtered, 2);
}

#[test]
fn start_prepares_session() {
    let program = Program::new();
    let mut g = Group::new(String::from("pool"));
    g.push_tag(Tag::new("5", TagSearchType::General, TagType::Pool));
    let s = program.start(&[g], true, Blacklist::empty(), vec![TagType::PostSet]);
    assert_eq!(s.base_url, "https://e926.net");
    assert_eq!(s.groups.len(), 1);
    assert_eq!(s.groups[0].tags[0].name, "5");
    assert_eq!(s.grabber.bypass, vec![TagType::PostSet]);
    assert!(s.grabber.blacklist.rules.is_empty());
}
