use pixiv_novel::crawl::{Action, Pacing, Reply};
use pixiv_novel::error::{CrawlError, Field, ParseError};
use pixiv_novel::series::{download_series, SeriesCrawl, SeriesPhase};
use pixiv_novel::store::Shelf;

const META: &str = r#"{"body":{"title":"S","userName":"A","userId":"5","total":2}}"#;
const PAGE_ONE: &str = r#"{"body":{"seriesContents":[{"id":"11","series":{"contentOrder":1}}]}}"#;
const PAGE_TWO: &str = r#"{"body":{"seriesContents":[{"id":"12","series":{"contentOrder":2}}]}}"#;
const EMPTY_PAGE: &str = r#"{"body":{"seriesContents":[]}}"#;
const NOVEL_ONE: &str = r#"{"body":{"title":"One","userName":"A","userId":"5","content":"first[newpage]"}}"#;
const NOVEL_TWO: &str = r#"{"body":{"title":"Two","userName":"A","userId":"5","content":"second"}}"#;

fn page_url(last_order: u64) -> String {
    format!(
        "https://www.pixiv.net/ajax/novel/series_content/77?limit=30&last_order={}&order_by=asc",
        last_order
    )
}

/// Runs the crawl to its end against the answers given by address, and
/// tells what was fetched, how long it rested, what became of the files and
/// how it ended.
fn run(
    begun: (SeriesCrawl, Action),
    answers: &[(String, &str)],
) -> (Vec<String>, Vec<u64>, Shelf, Action, SeriesCrawl, Vec<u64>) {
    let (mut crawl, mut action) = begun;
    let mut shelf = Shelf::new();
    let mut fetched = Vec::new();
    let mut rests = Vec::new();
    let mut cursors = vec![crawl.last_order()];
    for _ in 0..10000 {
        let reply = match &action {
            Action::Fetch(request) => {
                assert_eq!(request.cookie, None);
                fetched.push(request.url.clone());
                match answers.iter().find(|(url, _)| *url == request.url) {
                    Some((_, body)) => Reply::Body(body.to_string()),
                    None => Reply::Failed,
                }
            }
            Action::Pause(seconds) => {
                rests.push(*seconds);
                Reply::Resumed
            }
            Action::Finish | Action::Abort(_) => return (fetched, rests, shelf, action, crawl, cursors),
            other => {
                let (after, reply) = shelf.perform(other);
                shelf = after;
                reply.unwrap()
            }
        };
        let next = crawl.step(reply);
        crawl = next.0;
        action = next.1;
        cursors.push(crawl.last_order());
    }
    panic!("the crawl did not end");
}

fn answers() -> Vec<(String, &'static str)> {
    vec![
        ("https://www.pixiv.net/ajax/novel/series/77".to_string(), META),
        (page_url(0), PAGE_ONE),
        (page_url(1), PAGE_TWO),
        ("https://www.pixiv.net/ajax/novel/11".to_string(), NOVEL_ONE),
        ("https://www.pixiv.net/ajax/novel/12".to_string(), NOVEL_TWO),
    ]
}

#[test]
fn a_series_of_two_pages_is_gathered_in_two_fetches() {
    let begun = download_series("https://www.pixiv.net/novel/series/77", Pacing::standard());
    assert_eq!(begun.0.phase(), SeriesPhase::Meta);
    let (fetched, rests, shelf, end, crawl, cursors) = run(begun, &answers());
    assert_eq!(end, Action::Finish);
    assert_eq!(crawl.phase(), SeriesPhase::Done);
    assert_eq!(crawl.last_order(), 2);
    assert_eq!(crawl.total(), 2);
    assert_eq!(
        fetched,
        vec![
            "https://www.pixiv.net/ajax/novel/series/77".to_string(),
            page_url(0),
            "https://www.pixiv.net/ajax/novel/11".to_string(),
            page_url(1),
            "https://www.pixiv.net/ajax/novel/12".to_string(),
        ]
    );
    assert_eq!(rests, vec![2, 2]);
    assert_eq!(
        shelf.read(&"S-A.txt".to_string()),
        Some(
            "pid:77\nseries:S\nauthor:A[5]\n==================\n###One\nfirst\n###Two\nsecond\n"
                .to_string()
        )
    );
    assert!(cursors.windows(2).all(|w| w[0] <= w[1]));
}

#[test]
fn a_series_file_that_exists_is_appended_to() {
    let begun = download_series("https://www.pixiv.net/novel/series/77", Pacing::none());
    let (crawl, _) = begun;
    let (crawl, action) = crawl.step(Reply::Body(META.to_string()));
    assert_eq!(crawl.phase(), SeriesPhase::Header);
    let (shelf, _) = Shelf::new().write(&pixiv_novel::pixiv::FileWrite {
        name: "S-A.txt".to_string(),
        text: "old\n".to_string(),
        exclusive: true,
    });
    let (shelf, reply) = shelf.perform(&action);
    assert_eq!(reply, Some(Reply::Written));
    assert_eq!(
        shelf.read(&"S-A.txt".to_string()),
        Some("old\npid:77\nseries:S\nauthor:A[5]\n==================\n".to_string())
    );
}

#[test]
fn an_empty_page_short_of_the_total_is_a_stall() {
    let mut answers = answers();
    answers[2].1 = EMPTY_PAGE;
    let begun = download_series("https://www.pixiv.net/novel/series/77", Pacing::none());
    let (fetched, rests, shelf, end, crawl, _) = run(begun, &answers);
    assert_eq!(end, Action::Abort(CrawlError::ProgressStalled));
    assert_eq!(crawl.phase(), SeriesPhase::Failed(CrawlError::ProgressStalled));
    assert_eq!(crawl.last_order(), 1);
    assert_eq!(fetched.len(), 4);
    assert_eq!(rests, vec![0]);
    assert_eq!(
        shelf.read(&"S-A.txt".to_string()),
        Some("pid:77\nseries:S\nauthor:A[5]\n==================\n###One\nfirst\n".to_string())
    );
}

#[test]
fn an_empty_page_beyond_the_total_is_a_stall_too() {
    let answers = vec![
        (
            "https://www.pixiv.net/ajax/novel/series/77".to_string(),
            r#"{"body":{"title":"S","userName":"A","userId":"5","total":1}}"#,
        ),
        (page_url(0), PAGE_TWO),
        (page_url(2), EMPTY_PAGE),
        ("https://www.pixiv.net/ajax/novel/12".to_string(), NOVEL_TWO),
    ];
    let begun = download_series("https://www.pixiv.net/novel/series/77", Pacing::none());
    let (fetched, _, _, end, crawl, _) = run(begun, &answers);
    assert_eq!(end, Action::Abort(CrawlError::ProgressStalled));
    assert_eq!(crawl.last_order(), 2);
    assert_eq!(crawl.total(), 1);
    assert_eq!(fetched.len(), 4);
}

#[test]
fn a_page_that_does_not_raise_the_cursor_is_a_stall() {
    let answers = vec![
        (
            "https://www.pixiv.net/ajax/novel/series/77".to_string(),
            r#"{"body":{"title":"S","userName":"A","userId":"5","total":5}}"#,
        ),
        (page_url(0), PAGE_ONE),
        (page_url(1), PAGE_ONE),
        ("https://www.pixiv.net/ajax/novel/11".to_string(), NOVEL_ONE),
    ];
    let begun = download_series("https://www.pixiv.net/novel/series/77", Pacing::none());
    let (fetched, _, shelf, end, crawl, cursors) = run(begun, &answers);
    assert_eq!(end, Action::Abort(CrawlError::ProgressStalled));
    assert_eq!(crawl.phase(), SeriesPhase::Failed(CrawlError::ProgressStalled));
    assert_eq!(crawl.last_order(), 1);
    assert_eq!(
        fetched,
        vec![
            "https://www.pixiv.net/ajax/novel/series/77".to_string(),
            page_url(0),
            "https://www.pixiv.net/ajax/novel/11".to_string(),
            page_url(1),
            "https://www.pixiv.net/ajax/novel/11".to_string(),
        ]
    );
    assert!(cursors.windows(2).all(|w| w[0] <= w[1]));
    assert_eq!(
        shelf.read(&"S-A.txt".to_string()),
        Some(
            "pid:77\nseries:S\nauthor:A[5]\n==================\n###One\nfirst\n###One\nfirst\n"
                .to_string()
        )
    );
}

#[test]
fn a_page_that_lowers_the_cursor_is_a_stall() {
    let answers = vec![
        (
            "https://www.pixiv.net/ajax/novel/series/77".to_string(),
            r#"{"body":{"title":"S","userName":"A","userId":"5","total":5}}"#,
        ),
        (page_url(0), PAGE_TWO),
        (page_url(2), PAGE_ONE),
        ("https://www.pixiv.net/ajax/novel/11".to_string(), NOVEL_ONE),
        ("https://www.pixiv.net/ajax/novel/12".to_string(), NOVEL_TWO),
    ];
    let begun = download_series("https://www.pixiv.net/novel/series/77", Pacing::none());
    let (fetched, _, _, end, crawl, cursors) = run(begun, &answers);
    assert_eq!(end, Action::Abort(CrawlError::ProgressStalled));
    assert_eq!(crawl.last_order(), 1);
    assert_eq!(fetched.len(), 5);
    assert!(cursors.contains(&2));
}

#[test]
fn a_series_of_300_works_is_gathered_in_ten_pages() {
    let mut owned: Vec<(String, String)> = vec![(
        "https://www.pixiv.net/ajax/novel/series/77".to_string(),
        r#"{"body":{"title":"S","userName":"A","userId":"5","total":300}}"#.to_string(),
    )];
    for page in 0..10u64 {
        let items: Vec<String> = (1..=30u64)
            .map(|i| {
                let order = page * 30 + i;
                format!("{{\"id\":\"{}\",\"series\":{{\"contentOrder\":{}}}}}", 1000 + order, order)
            })
            .collect();
        owned.push((
            page_url(page * 30),
            format!("{{\"body\":{{\"seriesContents\":[{}]}}}}", items.join(",")),
        ));
    }
    for order in 1..=300u64 {
        owned.push((
            format!("https://www.pixiv.net/ajax/novel/{}", 1000 + order),
            format!(
                "{{\"body\":{{\"title\":\"N{}\",\"userName\":\"A\",\"userId\":\"5\",\"content\":\"c\"}}}}",
                order
            ),
        ));
    }
    let answers: Vec<(String, &str)> = owned.iter().map(|(u, b)| (u.clone(), b.as_str())).collect();
    let begun = download_series("https://www.pixiv.net/novel/series/77", Pacing::standard());
    let (fetched, rests, shelf, end, crawl, cursors) = run(begun, &answers);
    assert_eq!(end, Action::Finish);
    assert_eq!(crawl.phase(), SeriesPhase::Done);
    assert_eq!(crawl.total(), 300);
    assert_eq!(crawl.last_order(), 300);
    let pages: Vec<&String> = fetched.iter().filter(|u| u.contains("series_content")).collect();
    assert_eq!(pages.len(), 10);
    assert_eq!(*pages[9], page_url(270));
    let items = fetched.iter().filter(|u| u.starts_with("https://www.pixiv.net/ajax/novel/1")).count();
    assert_eq!(items, 300);
    assert_eq!(fetched.len(), 311);
    assert_eq!(rests.len(), 300);
    assert!(cursors.windows(2).all(|w| w[0] <= w[1]));
    let text = shelf.read(&"S-A.txt".to_string()).unwrap();
    assert_eq!(text.matches("###N").count(), 300);
    assert!(text.ends_with("###N300\nc\n"));
}

#[test]
fn the_title_is_known_once_the_series_is() {
    let (crawl, _) = download_series("https://www.pixiv.net/novel/series/77", Pacing::none());
    assert_eq!(crawl.title(), "");
    let (crawl, _) = crawl.step(Reply::Body(META.to_string()));
    assert_eq!(crawl.phase(), SeriesPhase::Header);
    assert_eq!(crawl.title(), "S");
}

#[test]
fn a_series_without_works_ends_after_its_first_page() {
    let answers = vec![
        (
            "https://www.pixiv.net/ajax/novel/series/77".to_string(),
            r#"{"body":{"title":"S","userName":"A","userId":"5","total":0}}"#,
        ),
        (page_url(0), EMPTY_PAGE),
    ];
    let begun = download_series("https://www.pixiv.net/novel/series/77", Pacing::standard());
    let (fetched, rests, shelf, end, _, _) = run(begun, &answers);
    assert_eq!(end, Action::Finish);
    assert_eq!(fetched.len(), 2);
    assert!(rests.is_empty());
    assert_eq!(
        shelf.read(&"S-A.txt".to_string()),
        Some("pid:77\nseries:S\nauthor:A[5]\n==================\n".to_string())
    );
}

#[test]
fn the_cursor_goes_where_the_last_work_of_the_page_stands() {
    let answers = vec![
        (
            "https://www.pixiv.net/ajax/novel/series/77".to_string(),
            r#"{"body":{"title":"S","userName":"A","userId":"5","total":2}}"#,
        ),
        (
            page_url(0),
            r#"{"body":{"seriesContents":[{"id":"11","series":{"contentOrder":1}},{"id":"12","series":{"contentOrder":2}}]}}"#,
        ),
        ("https://www.pixiv.net/ajax/novel/11".to_string(), NOVEL_ONE),
        ("https://www.pixiv.net/ajax/novel/12".to_string(), NOVEL_TWO),
    ];
    let begun = download_series("https://www.pixiv.net/novel/series/77", Pacing::standard());
    let (fetched, rests, _, end, crawl, cursors) = run(begun, &answers);
    assert_eq!(end, Action::Finish);
    assert_eq!(fetched.len(), 4);
    assert_eq!(rests, vec![2, 2]);
    assert_eq!(crawl.last_order(), 2);
    assert_eq!(*cursors.first().unwrap(), 0);
    assert!(cursors.contains(&1));
}

#[test]
fn a_failed_request_stops_the_series() {
    let mut answers = answers();
    answers.remove(4);
    let begun = download_series("https://www.pixiv.net/novel/series/77", Pacing::none());
    let (_, _, shelf, end, crawl, _) = run(begun, &answers);
    assert_eq!(end, Action::Abort(CrawlError::Network));
    assert_eq!(crawl.phase(), SeriesPhase::Failed(CrawlError::Network));
    assert_eq!(
        shelf.read(&"S-A.txt".to_string()),
        Some("pid:77\nseries:S\nauthor:A[5]\n==================\n###One\nfirst\n".to_string())
    );
}

#[test]
fn an_unreadable_answer_stops_the_series() {
    let mut answers = answers();
    answers[0].1 = r#"{"body":{"title":"S","userName":"A","userId":"5"}}"#;
    let begun = download_series("https://www.pixiv.net/novel/series/77", Pacing::none());
    let (fetched, _, shelf, end, _, _) = run(begun, &answers);
    assert_eq!(end, Action::Abort(CrawlError::Parse(ParseError::Field(Field::Total))));
    assert_eq!(fetched.len(), 1);
    assert!(!shelf.holds(&"S-A.txt".to_string()));

    let mut answers = self::answers();
    answers[1].1 = r#"{"body":{}}"#;
    let begun = download_series("https://www.pixiv.net/novel/series/77", Pacing::none());
    let (_, _, _, end, _, _) = run(begun, &answers);
    assert_eq!(end, Action::Abort(CrawlError::Parse(ParseError::Field(Field::SeriesContents))));
}

#[test]
fn a_failed_write_stops_the_series() {
    let (crawl, _) = download_series("https://www.pixiv.net/novel/series/77", Pacing::none());
    let (crawl, _) = crawl.step(Reply::Body(META.to_string()));
    let (crawl, action) = crawl.step(Reply::Failed);
    assert_eq!(action, Action::Abort(CrawlError::File));
    let (crawl, action) = crawl.step(Reply::Written);
    assert_eq!(action, Action::Abort(CrawlError::File));
    assert_eq!(crawl.phase(), SeriesPhase::Failed(CrawlError::File));
}

#[test]
fn a_series_reference_without_a_slash_starts_nothing() {
    let (crawl, action) = download_series("77", Pacing::none());
    assert_eq!(action, Action::Abort(CrawlError::Parse(ParseError::Reference)));
    assert_eq!(crawl.phase(), SeriesPhase::Failed(CrawlError::Parse(ParseError::Reference)));
}
