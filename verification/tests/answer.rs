use pixiv_novel::answer::{
    bookmark_from, bookmark_page, digit_runs_are_short, get_novel_content, item_ref_from,
    novel_from, series_info, series_info_from, series_page, Bookmark, BookmarkPage, SeriesInfo,
    SeriesItemRef,
};
use pixiv_novel::error::{Field, ParseError};

fn s(t: &str) -> Option<String> {
    Some(t.to_string())
}

#[test]
fn novel_from_names_the_first_field_that_is_absent() {
    let e = |r: Result<pixiv_novel::pixiv::Novel, ParseError>| r.err();
    assert_eq!(
        e(novel_from(None, None, None, None, "1".to_string())),
        Some(ParseError::Field(Field::Title))
    );
    assert_eq!(
        e(novel_from(s("t"), None, None, None, "1".to_string())),
        Some(ParseError::Field(Field::UserName))
    );
    assert_eq!(
        e(novel_from(s("t"), s("a"), None, None, "1".to_string())),
        Some(ParseError::Field(Field::Content))
    );
    assert_eq!(
        e(novel_from(s("t"), s("a"), s("c"), None, "1".to_string())),
        Some(ParseError::Field(Field::UserId))
    );
    let n = novel_from(s("t"), s("a"), s("c[newpage]"), s("5"), "1".to_string()).unwrap();
    assert_eq!(n.title(), "t");
    assert_eq!(n.author(), "a");
    assert_eq!(n.content(), "c");
    assert_eq!(n.uid(), "5");
    assert_eq!(n.pid(), "1");
}

#[test]
fn series_info_from_names_the_first_field_that_is_absent() {
    assert_eq!(series_info_from(None, s("a"), s("5"), Some(2)), Err(ParseError::Field(Field::Title)));
    assert_eq!(
        series_info_from(s("t"), None, s("5"), Some(2)),
        Err(ParseError::Field(Field::UserName))
    );
    assert_eq!(series_info_from(s("t"), s("a"), None, Some(2)), Err(ParseError::Field(Field::UserId)));
    assert_eq!(series_info_from(s("t"), s("a"), s("5"), None), Err(ParseError::Field(Field::Total)));
    assert_eq!(
        series_info_from(s("t"), s("a"), s("5"), Some(2)),
        Ok(SeriesInfo {
            title: "t".to_string(),
            author: "a".to_string(),
            uid: "5".to_string(),
            total: 2
        })
    );
}

#[test]
fn item_ref_from_needs_both_fields() {
    assert_eq!(item_ref_from(None, Some(1)), Err(ParseError::Field(Field::Id)));
    assert_eq!(item_ref_from(s("1"), None), Err(ParseError::Field(Field::ContentOrder)));
    assert_eq!(
        item_ref_from(s("11"), Some(3)),
        Ok(SeriesItemRef { id: "11".to_string(), content_order: 3 })
    );
}

#[test]
fn bookmark_from_asks_nothing_more_of_a_masked_work() {
    assert_eq!(bookmark_from(None, s("t"), s("a"), s("1")), Err(ParseError::Field(Field::IsMasked)));
    assert_eq!(bookmark_from(Some(true), None, None, None), Ok(Bookmark::Masked { id: None }));
    assert_eq!(
        bookmark_from(Some(true), s("t"), s("a"), s("1")),
        Ok(Bookmark::Masked { id: s("1") })
    );
    assert_eq!(bookmark_from(Some(false), None, s("a"), s("1")), Err(ParseError::Field(Field::Title)));
    assert_eq!(
        bookmark_from(Some(false), s("t"), None, s("1")),
        Err(ParseError::Field(Field::UserName))
    );
    assert_eq!(bookmark_from(Some(false), s("t"), s("a"), None), Err(ParseError::Field(Field::Id)));
    assert_eq!(
        bookmark_from(Some(false), s("t"), s("a"), s("1")),
        Ok(Bookmark::Work { id: "1".to_string(), title: "t".to_string(), author: "a".to_string() })
    );
}

#[test]
fn get_novel_content_reads_the_body() {
    let n = get_novel_content(
        "123".to_string(),
        r#"{"body":{"title":"T","userName":"A","userId":"5","content":"X[newpage]Y"}}"#,
    )
    .unwrap();
    assert_eq!(n.pid(), "123");
    assert_eq!(n.title(), "T");
    assert_eq!(n.author(), "A");
    assert_eq!(n.uid(), "5");
    assert_eq!(n.content(), "XY");
}

#[test]
fn get_novel_content_rejects_what_is_not_an_answer() {
    let e = |t: &str| get_novel_content("1".to_string(), t).err();
    assert_eq!(e("not json"), Some(ParseError::Document));
    assert_eq!(e(""), Some(ParseError::Document));
    assert_eq!(e("日本語"), Some(ParseError::Document));
    assert_eq!(e("{\"body\":é}"), Some(ParseError::Document));
    assert_eq!(e("{\"body\":\"\\u00é\"}"), Some(ParseError::Document));
    assert_eq!(e("{\"日本\":1}語"), Some(ParseError::Document));
    assert_eq!(e("{}"), Some(ParseError::Field(Field::Title)));
    assert_eq!(e(r#"{"body":[]}"#), Some(ParseError::Field(Field::Title)));
    assert_eq!(
        e(r#"{"body":{"title":7,"userName":"A","userId":"5","content":"c"}}"#),
        Some(ParseError::Field(Field::Title))
    );
    assert_eq!(
        e(r#"{"body":{"title":"T","userId":"5","content":"c"}}"#),
        Some(ParseError::Field(Field::UserName))
    );
    assert_eq!(
        e(r#"{"body":{"title":"T","userName":"A","userId":"5","content":null}}"#),
        Some(ParseError::Field(Field::Content))
    );
    assert_eq!(
        e(r#"{"body":{"title":"T","userName":"A","userId":5,"content":"c"}}"#),
        Some(ParseError::Field(Field::UserId))
    );
}

#[test]
fn series_info_reads_the_total_as_a_count() {
    assert_eq!(
        series_info(r#"{"body":{"title":"S","userName":"A","userId":"5","total":2}}"#),
        Ok(SeriesInfo {
            title: "S".to_string(),
            author: "A".to_string(),
            uid: "5".to_string(),
            total: 2
        })
    );
    assert_eq!(
        series_info(r#"{"body":{"title":"S","userName":"A","userId":"5","total":"2"}}"#),
        Err(ParseError::Field(Field::Total))
    );
    assert_eq!(
        series_info(r#"{"body":{"title":"S","userName":"A","userId":"5","total":256}}"#).map(|i| i.total),
        Ok(256)
    );
    assert_eq!(
        series_info(r#"{"body":{"title":"S","userName":"A","userId":"5","total":300}}"#).map(|i| i.total),
        Ok(300)
    );
    assert_eq!(
        series_info(
            r#"{"body":{"title":"S","userName":"A","userId":"5","total":18446744073709551615}}"#
        )
        .map(|i| i.total),
        Ok(u64::MAX)
    );
    assert_eq!(
        series_info(
            r#"{"body":{"title":"S","userName":"A","userId":"5","total":18446744073709551616}}"#
        ),
        Err(ParseError::Field(Field::Total))
    );
    assert_eq!(
        series_info(r#"{"body":{"title":"S","userName":"A","userId":"5","total":2.5}}"#),
        Err(ParseError::Field(Field::Total))
    );
    assert_eq!(
        series_info(r#"{"body":{"title":"S","userName":"A","userId":"5","total":-1}}"#),
        Err(ParseError::Field(Field::Total))
    );
    assert_eq!(
        series_info(r#"{"body":{"title":"S","userName":"A","userId":"5","total":255}}"#).map(|i| i.total),
        Ok(255)
    );
    assert_eq!(series_info("["), Err(ParseError::Document));
}

#[test]
fn series_page_reads_the_works_in_order() {
    assert_eq!(
        series_page(
            r#"{"body":{"seriesContents":[{"id":"11","series":{"contentOrder":1}},{"id":"12","series":{"contentOrder":2}}]}}"#
        ),
        Ok(vec![
            SeriesItemRef { id: "11".to_string(), content_order: 1 },
            SeriesItemRef { id: "12".to_string(), content_order: 2 },
        ])
    );
    assert_eq!(series_page(r#"{"body":{"seriesContents":[]}}"#), Ok(vec![]));
}

#[test]
fn series_page_names_what_the_first_unreadable_work_lacks() {
    assert_eq!(series_page("{"), Err(ParseError::Document));
    assert_eq!(series_page(r#"{"body":{}}"#), Err(ParseError::Field(Field::SeriesContents)));
    assert_eq!(
        series_page(r#"{"body":{"seriesContents":{"id":"1"}}}"#),
        Err(ParseError::Field(Field::SeriesContents))
    );
    assert_eq!(
        series_page(
            r#"{"body":{"seriesContents":[{"id":"11","series":{"contentOrder":1}},{"id":"12"},{"series":{"contentOrder":3}}]}}"#
        ),
        Err(ParseError::Field(Field::ContentOrder))
    );
    assert_eq!(
        series_page(
            r#"{"body":{"seriesContents":[{"series":{"contentOrder":1}},{"id":"12"}]}}"#
        ),
        Err(ParseError::Field(Field::Id))
    );
}

#[test]
fn bookmark_page_reads_works_and_total() {
    assert_eq!(
        bookmark_page(
            r#"{"body":{"works":[{"id":"1","isMasked":true},{"id":"2","isMasked":false,"title":"T","userName":"A"}],"total":2}}"#
        ),
        Ok(BookmarkPage {
            total: 2,
            works: vec![
                Bookmark::Masked { id: Some("1".to_string()) },
                Bookmark::Work {
                    id: "2".to_string(),
                    title: "T".to_string(),
                    author: "A".to_string()
                },
            ],
        })
    );
    assert_eq!(
        bookmark_page(r#"{"body":{"works":[],"total":0}}"#),
        Ok(BookmarkPage { total: 0, works: vec![] })
    );
}

#[test]
fn bookmark_page_names_what_is_lacking() {
    assert_eq!(bookmark_page("x"), Err(ParseError::Document));
    assert_eq!(bookmark_page(r#"{"body":{"total":0}}"#), Err(ParseError::Field(Field::Works)));
    assert_eq!(bookmark_page(r#"{"body":{"works":[]}}"#), Err(ParseError::Field(Field::Total)));
    assert_eq!(
        bookmark_page(r#"{"body":{"works":[{"id":"1"}],"total":1}}"#),
        Err(ParseError::Field(Field::IsMasked))
    );
    assert_eq!(
        bookmark_page(r#"{"body":{"works":[{"id":"1","isMasked":"no"}],"total":1}}"#),
        Err(ParseError::Field(Field::IsMasked))
    );
    assert_eq!(
        bookmark_page(r#"{"body":{"works":[{"id":"1","isMasked":false,"userName":"A"}],"total":1}}"#),
        Err(ParseError::Field(Field::Title))
    );
    assert_eq!(
        bookmark_page(r#"{"body":{"works":[{"id":"1","isMasked":false,"title":"T"}],"total":1}}"#),
        Err(ParseError::Field(Field::UserName))
    );
    assert_eq!(
        bookmark_page(r#"{"body":{"works":[{"isMasked":false,"title":"T","userName":"A"}],"total":1}}"#),
        Err(ParseError::Field(Field::Id))
    );
}

#[test]
fn series_page_reads_orders_beyond_255() {
    assert_eq!(
        series_page(r#"{"body":{"seriesContents":[{"id":"11","series":{"contentOrder":300}}]}}"#),
        Ok(vec![SeriesItemRef { id: "11".to_string(), content_order: 300 }])
    );
}

#[test]
fn bookmark_page_reads_a_total_beyond_255_and_a_masked_work_without_id() {
    assert_eq!(
        bookmark_page(r#"{"body":{"works":[{"isMasked":true}],"total":1000}}"#),
        Ok(BookmarkPage { total: 1000, works: vec![Bookmark::Masked { id: None }] })
    );
}

#[test]
fn digit_runs_are_short_counts_digits_in_a_row() {
    assert!(digit_runs_are_short(""));
    assert!(digit_runs_are_short("no digit"));
    assert!(digit_runs_are_short(&"7".repeat(32767)));
    assert!(!digit_runs_are_short(&"7".repeat(32768)));
    assert!(digit_runs_are_short(&format!("{}x{}", "0".repeat(32767), "1".repeat(32767))));
    assert!(!digit_runs_are_short(&format!("x{}y", "0123456789".repeat(3277))));
    assert!(digit_runs_are_short(&"٣".repeat(40000)));
}

#[test]
fn a_fraction_of_too_many_digits_is_no_document() {
    let long = format!("{{\"body\":0.{}}}", "0".repeat(40000));
    assert_eq!(get_novel_content("1".to_string(), &long).err(), Some(ParseError::Document));
    assert_eq!(series_info(&long), Err(ParseError::Document));
    assert_eq!(series_page(&long), Err(ParseError::Document));
    assert_eq!(bookmark_page(&long), Err(ParseError::Document));
    let edge = format!("{{\"body\":0.{}}}", "0".repeat(32768));
    assert_eq!(series_info(&edge), Err(ParseError::Document));
}

#[test]
fn a_fraction_of_as_many_digits_as_can_be_counted_is_read() {
    let most = format!("{{\"body\":0.{}}}", "0".repeat(32766));
    assert_eq!(series_info(&most), Err(ParseError::Field(Field::Title)));
    let content = "9".repeat(32767);
    let answer = format!(
        "{{\"body\":{{\"title\":\"T\",\"userName\":\"A\",\"userId\":\"5\",\"content\":\"{}\"}}}}",
        content
    );
    let n = get_novel_content("1".to_string(), &answer).unwrap();
    assert_eq!(n.content(), &content);
}
