use repo_sync::descriptor::RepositoryDescriptor;
use repo_sync::error::ErrorKind;
use repo_sync::lister::{judge, ListError, Lister, ListerStep, PageFetch};

fn repo(name: &str, fork: bool) -> RepositoryDescriptor {
    RepositoryDescriptor::new(
        name.to_string(),
        format!("https://host.example/acme/{}.git", name),
        fork,
    )
}

fn names(list: &[RepositoryDescriptor]) -> Vec<String> {
    list.iter().map(|d| d.name.clone()).collect()
}

/// A service that holds `records` and serves them in pages of `page_size`.
fn page_of(records: &[RepositoryDescriptor], page_size: usize, page: u64) -> Vec<RepositoryDescriptor> {
    let start = ((page as usize - 1) * page_size).min(records.len());
    let end = (start + page_size).min(records.len());
    records[start..end].to_vec()
}

/// Runs a listing against the service; returns what it gave and the pages it asked for.
fn run(
    records: &[RepositoryDescriptor],
    page_size: usize,
    exclude_forks: bool,
) -> (Result<Vec<RepositoryDescriptor>, ListError>, Vec<u64>) {
    let mut lister = Lister::new(page_size, exclude_forks).unwrap();
    let mut asked = Vec::new();
    loop {
        let page = lister.page();
        asked.push(page);
        assert!(page < u64::MAX);
        match lister.on_reply(Ok(page_of(records, page_size, page))) {
            ListerStep::NextPage(next) => lister = next,
            ListerStep::Finished(all) => return (Ok(all), asked),
            ListerStep::Failed(error) => return (Err(error), asked),
        }
    }
}

#[test]
fn three_repositories_in_pages_of_two() {
    let records = vec![repo("a", false), repo("b", false), repo("c", false)];
    assert_eq!(names(&page_of(&records, 2, 1)), vec!["a", "b"]);
    assert_eq!(names(&page_of(&records, 2, 2)), vec!["c"]);
    let (result, asked) = run(&records, 2, false);
    assert_eq!(asked, vec![1, 2]);
    assert_eq!(result.unwrap(), records);
}

#[test]
fn full_last_page_takes_one_more_request() {
    let records = vec![repo("a", false), repo("b", false), repo("c", false), repo("d", false)];
    let (result, asked) = run(&records, 2, false);
    assert_eq!(asked, vec![1, 2, 3]);
    assert_eq!(result.unwrap(), records);
}

#[test]
fn empty_account_takes_one_request() {
    let (result, asked) = run(&[], 30, false);
    assert_eq!(asked, vec![1]);
    assert_eq!(result.unwrap(), Vec::<RepositoryDescriptor>::new());
}

#[test]
fn request_count_for_many_sizes() {
    for count in 0..25usize {
        for page_size in 1..8usize {
            let records: Vec<RepositoryDescriptor> =
                (0..count).map(|i| repo(&format!("r{}", i), i % 3 == 0)).collect();
            let (result, asked) = run(&records, page_size, false);
            let rounded_up = (count + page_size - 1) / page_size;
            let extra = if count % page_size == 0 { 1 } else { 0 };
            assert_eq!(asked.len(), rounded_up + extra);
            assert_eq!(result.unwrap(), records);
        }
    }
}

#[test]
fn five_records_in_pages_of_two_take_three_requests() {
    let records: Vec<RepositoryDescriptor> =
        ["a", "b", "c", "d", "e"].iter().map(|n| repo(n, false)).collect();
    let (_, asked) = run(&records, 2, false);
    assert_eq!(asked.len(), 3);
}

#[test]
fn excluding_forks_keeps_the_rest_in_order() {
    let records = vec![
        repo("a", false),
        repo("b", true),
        repo("c", true),
        repo("d", false),
        repo("e", true),
    ];
    let (with, asked_with) = run(&records, 2, false);
    let (without, asked_without) = run(&records, 2, true);
    let with = with.unwrap();
    let without = without.unwrap();
    assert_eq!(names(&without), vec!["a", "d"]);
    assert!(without.iter().all(|d| !d.fork));
    assert!(without.iter().all(|d| with.contains(d)));
    assert_eq!(with, records);
    // The filter does not change when the listing ends.
    assert_eq!(asked_with, asked_without);
    assert_eq!(asked_with, vec![1, 2, 3]);
}

#[test]
fn a_page_of_forks_only_does_not_end_the_listing() {
    let records = vec![repo("a", true), repo("b", true), repo("c", false)];
    let (without, asked) = run(&records, 2, true);
    assert_eq!(asked, vec![1, 2]);
    assert_eq!(names(&without.unwrap()), vec!["c"]);
}

#[test]
fn no_listing_with_empty_pages() {
    assert!(Lister::new(0, false).is_none());
    assert!(Lister::new(0, true).is_none());
    let lister = Lister::new(1, true).unwrap();
    assert_eq!(lister.page(), 1);
    assert_eq!(lister.page_size(), 1);
    assert!(lister.exclude_forks());
}

#[test]
fn failure_discards_what_was_collected() {
    let lister = Lister::new(2, false).unwrap();
    let lister = match lister.on_reply(Ok(vec![repo("a", false), repo("b", false)])) {
        ListerStep::NextPage(next) => next,
        _ => panic!("a full page asks for the next one"),
    };
    assert_eq!(lister.page(), 2);
    match lister.on_reply(Err(ListError::RateLimited)) {
        ListerStep::Failed(error) => assert_eq!(error, ListError::RateLimited),
        _ => panic!("a failure ends the listing"),
    }
}

#[test]
fn failure_on_the_first_page() {
    let lister = Lister::new(2, false).unwrap();
    assert!(matches!(
        lister.on_reply(Err(ListError::NotFound)),
        ListerStep::Failed(ListError::NotFound)
    ));
}

#[test]
fn longer_page_than_asked_for_goes_on() {
    let lister = Lister::new(2, false).unwrap();
    match lister.on_reply(Ok(vec![repo("a", false), repo("b", false), repo("c", false)])) {
        ListerStep::NextPage(next) => {
            assert_eq!(next.page(), 2);
            match next.on_reply(Ok(vec![])) {
                ListerStep::Finished(all) => assert_eq!(names(&all), vec!["a", "b", "c"]),
                _ => panic!("an empty page ends the listing"),
            }
        }
        _ => panic!("a page that is not short asks for the next one"),
    }
}

fn response(status: u16, records: Option<Vec<RepositoryDescriptor>>) -> PageFetch {
    PageFetch::Response { status, records }
}

#[test]
fn judge_success() {
    let records = vec![repo("a", false)];
    assert_eq!(judge(response(200, Some(records.clone()))), Ok(records.clone()));
    assert_eq!(judge(response(299, Some(records.clone()))), Ok(records));
    assert_eq!(judge(response(204, Some(vec![]))), Ok(vec![]));
}

#[test]
fn judge_not_found() {
    assert_eq!(judge(response(404, None)), Err(ListError::NotFound));
    assert_eq!(judge(response(404, Some(vec![repo("a", false)]))), Err(ListError::NotFound));
}

#[test]
fn judge_rate_limited() {
    assert_eq!(judge(response(403, None)), Err(ListError::RateLimited));
    assert_eq!(judge(response(429, None)), Err(ListError::RateLimited));
}

#[test]
fn judge_transport_error() {
    assert_eq!(judge(PageFetch::Unreachable), Err(ListError::TransportError));
    assert_eq!(judge(response(500, None)), Err(ListError::TransportError));
    assert_eq!(judge(response(199, Some(vec![]))), Err(ListError::TransportError));
    assert_eq!(judge(response(300, Some(vec![]))), Err(ListError::TransportError));
    assert_eq!(judge(response(301, None)), Err(ListError::TransportError));
}

#[test]
fn judge_decode_error() {
    assert_eq!(judge(response(200, None)), Err(ListError::DecodeError));
}

#[test]
fn kinds_of_list_errors() {
    assert_eq!(ListError::NotFound.kind(), ErrorKind::Transport);
    assert_eq!(ListError::RateLimited.kind(), ErrorKind::Transport);
    assert_eq!(ListError::TransportError.kind(), ErrorKind::Transport);
    assert_eq!(ListError::DecodeError.kind(), ErrorKind::Decode);
}
