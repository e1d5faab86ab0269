use pixiv_novel::pixiv::{file_name, Novel, Series};

fn novel(title: &str, author: &str, content: &str, pid: &str, uid: &str) -> Novel {
    Novel::new(
        title.to_string(),
        author.to_string(),
        content.to_string(),
        pid.to_string(),
        uid.to_string(),
    )
}

#[test]
fn new_keeps_the_fields_and_cleans_the_content() {
    let n = novel("T", "A", "X[newpage]Y", "123", "5");
    assert_eq!(n.title(), "T");
    assert_eq!(n.author(), "A");
    assert_eq!(n.pid(), "123");
    assert_eq!(n.uid(), "5");
    assert_eq!(n.content(), "XY");
}

#[test]
fn page_is_header_then_content() {
    let n = novel("T", "A", "X[newpage]Y", "123", "5");
    assert_eq!(n.page(), "pid:123\ntitle:T\nauthor:A[5]\n==================\nXY");
}

#[test]
fn get_filename_joins_title_and_author() {
    let n = novel("T", "A", "", "1", "2");
    assert_eq!(n.get_filename(), "T-A.txt");
}

#[test]
fn save_is_an_exclusive_write_of_the_page() {
    let n = novel("a/b:c", "d*e?", "text", "1", "2");
    let w = n.save();
    assert!(w.exclusive);
    assert_eq!(w.name, "abc-de.txt");
    assert_eq!(w.text, "pid:1\ntitle:a/b:c\nauthor:d*e?[2]\n==================\ntext");
}

#[test]
fn series_opens_with_its_header_and_appends_chapters() {
    let (series, header) = Series::new(
        "S".to_string(),
        "A".to_string(),
        "77".to_string(),
        "5".to_string(),
    );
    assert_eq!(series.pid, "77");
    assert_eq!(series.name, "S-A.txt");
    assert_eq!(header.name, "S-A.txt");
    assert!(!header.exclusive);
    assert_eq!(header.text, "pid:77\nseries:S\nauthor:A[5]\n==================\n");
    let w = series.append(novel("One", "A", "first[newpage]", "1", "5"));
    assert_eq!(w.name, "S-A.txt");
    assert!(!w.exclusive);
    assert_eq!(w.text, "###One\nfirst\n");
}

#[test]
fn post_process_takes_out_every_directive() {
    assert_eq!(Novel::post_process("a[newpage]b"), "ab");
    assert_eq!(Novel::post_process("a[chapter:One]b"), "ab");
    assert_eq!(Novel::post_process("a[uploadedimage:12345]b"), "ab");
    assert_eq!(Novel::post_process("[chapter]"), "[chapter]");
    assert_eq!(Novel::post_process("[chapter]]"), "[chapter]]");
    assert_eq!(Novel::post_process("[chapter\nx]"), "[chapter\nx]");
    assert_eq!(Novel::post_process("[chapter:One]Hello[chapter:Two]World"), "HelloWorld");
    assert_eq!(Novel::post_process("[chapter:One] kept [not a directive]"), " kept [not a directive]");
}

#[test]
fn post_process_leaves_no_directive_that_a_removal_made() {
    assert_eq!(Novel::post_process("[new[newpage]page]"), "");
    assert_eq!(Novel::post_process("[chap[newpage]ter x] [newpage]"), " ");
    assert_eq!(Novel::post_process("[chap[newpage]ter [newpage]x]"), "");
}

#[test]
fn post_process_merges_runs_of_newlines() {
    assert_eq!(Novel::post_process("a\n\nb"), "a\nb");
    assert_eq!(Novel::post_process("a\n\n\n\nb\n"), "a\nb\n");
    assert_eq!(Novel::post_process("a\n[newpage]\nb"), "a\nb");
}

#[test]
fn file_name_strips_what_no_file_name_may_hold() {
    assert_eq!(file_name("T", "A"), "T-A.txt");
    assert_eq!(file_name("a/b\\c:d*e?f\"g<h>i|j", "k\u{0}l\nm\u{85}n"), "abcdefghij-klmn.txt");
    assert_eq!(file_name("日本語", "作者"), "日本語-作者.txt");
    let long = "x".repeat(300);
    let name = file_name(&long, "a");
    assert!(name.len() <= 255);
    assert!(long.starts_with(&name));
    for title in ["/", ":", "*", "?", "a/:*?b", "..", "con"] {
        let name = file_name(title, "/:*?");
        assert!(!name.contains(|c| "/?<>\\:*|\"".contains(c)), "{:?}", name);
        assert!(!name.contains(|c: char| c.is_control()), "{:?}", name);
    }
}

#[test]
fn file_name_is_cut_to_255_bytes_between_characters() {
    assert_eq!(file_name(&"x".repeat(300), "a"), "x".repeat(255));
    assert_eq!(file_name(&"x".repeat(249), "a"), format!("{}-a.txt", "x".repeat(249)));
    assert_eq!(file_name(&"x".repeat(250), "a"), format!("{}-a.tx", "x".repeat(250)));
    assert_eq!(file_name(&"日".repeat(100), "a"), "日".repeat(85));
    assert_eq!(file_name(&format!("x{}", "日".repeat(100)), "a"), format!("x{}", "日".repeat(84)));
    assert_eq!(file_name(&format!("xx{}", "日".repeat(100)), "a"), format!("xx{}", "日".repeat(84)));
    assert_eq!(file_name(&"/".repeat(300), "a"), "-a.txt");
}

#[test]
fn file_name_keeps_a_name_that_is_no_device() {
    assert_eq!(file_name("", ""), "-.txt");
    assert_eq!(file_name("..", "."), "..-..txt");
    assert_eq!(file_name("con", "a"), "con-a.txt");
    assert_eq!(file_name("console.", "a"), "console.-a.txt");
    assert_eq!(file_name("com", ".a"), "com-.a.txt");
    assert_eq!(file_name("comx.", "a"), "comx.-a.txt");
}

#[test]
fn file_name_of_a_device_is_kept_or_emptied() {
    for (title, kept) in [
        ("con.", "con.-a.txt"),
        ("NUL.x", "NUL.x-a.txt"),
        ("LpT9.", "LpT9.-a.txt"),
        ("com1.b", "com1.b-a.txt"),
    ] {
        let name = file_name(title, "a");
        assert!(name.is_empty() || name == kept, "{:?}", name);
    }
}
