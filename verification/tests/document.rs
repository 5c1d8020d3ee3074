use kanjitest::document::Document;

fn sides(content: &str) -> (Vec<String>, Vec<String>, u16) {
    let doc = Document::split(content);
    let prompt = doc.prompt_text().lines().map(String::from).collect();
    let detail = doc.detail_text().lines().map(String::from).collect();
    (prompt, detail, doc.line_count())
}

#[test]
fn kanji_entry_is_split_line_by_line() {
    let doc = Document::split("日:\n day, sun\n-\nニチ\n");
    let prompt: Vec<&str> = doc.prompt_text().lines().collect();
    let detail: Vec<&str> = doc.detail_text().lines().collect();
    assert_eq!(prompt, vec!["日:", "", "-", ""]);
    assert_eq!(detail, vec!["", " day, sun", "", "ニチ"]);
    assert_eq!(doc.line_count(), 4);
    assert_eq!(doc.prompt_text(), "日:\n\n-\n\n");
    assert_eq!(doc.detail_text(), "\n day, sun\n\nニチ\n");
}

#[test]
fn empty_text_has_no_line() {
    let doc = Document::split("");
    assert_eq!(doc.prompt_text(), "");
    assert_eq!(doc.detail_text(), "");
    assert_eq!(doc.line_count(), 0);
}

#[test]
fn single_line_feed_is_one_blank_line() {
    let doc = Document::split("\n");
    assert_eq!(doc.prompt_text(), "\n");
    assert_eq!(doc.detail_text(), "\n");
    assert_eq!(doc.line_count(), 1);
}

#[test]
fn last_line_without_line_feed_counts_and_gets_one() {
    let doc = Document::split("月:\nmoon");
    assert_eq!(doc.prompt_text(), "月:\n\n");
    assert_eq!(doc.detail_text(), "\nmoon\n");
    assert_eq!(doc.line_count(), 2);
}

#[test]
fn line_feed_at_the_end_adds_no_line() {
    let with = Document::split("a:\nb\n");
    let without = Document::split("a:\nb");
    assert_eq!(with.line_count(), 2);
    assert_eq!(without.line_count(), 2);
    assert_eq!(with.prompt_text(), without.prompt_text());
    assert_eq!(with.detail_text(), without.detail_text());
}

#[test]
fn blank_lines_are_kept_on_both_sides() {
    let doc = Document::split("a:\n\n\nb\n\n");
    assert_eq!(doc.prompt_text(), "a:\n\n\n\n\n");
    assert_eq!(doc.detail_text(), "\n\n\nb\n\n");
    assert_eq!(doc.line_count(), 5);
}

#[test]
fn colon_anywhere_makes_a_prompt_line() {
    let doc = Document::split(":\nx:y\nend:\n :\n");
    assert_eq!(doc.prompt_text(), ":\nx:y\nend:\n :\n");
    assert_eq!(doc.detail_text(), "\n\n\n\n");
    assert_eq!(doc.line_count(), 4);
}

#[test]
fn only_a_lone_dash_is_a_prompt_line() {
    let doc = Document::split("-\n--\n -\n- \n-a\n");
    assert_eq!(doc.prompt_text(), "-\n\n\n\n\n");
    assert_eq!(doc.detail_text(), "\n--\n -\n- \n-a\n");
    assert_eq!(doc.line_count(), 5);
}

#[test]
fn lone_dash_as_last_line_without_line_feed() {
    let doc = Document::split("x\n-");
    assert_eq!(doc.prompt_text(), "\n-\n");
    assert_eq!(doc.detail_text(), "x\n\n");
    assert_eq!(doc.line_count(), 2);
}

#[test]
fn full_width_colon_is_no_colon() {
    let doc = Document::split("日：\n");
    assert_eq!(doc.prompt_text(), "\n");
    assert_eq!(doc.detail_text(), "日：\n");
}

#[test]
fn carriage_return_stays_in_its_line() {
    let doc = Document::split("a:\r\nb\r\n-\r\n");
    assert_eq!(doc.prompt_text(), "a:\r\n\n\n");
    assert_eq!(doc.detail_text(), "\nb\r\n-\r\n");
    assert_eq!(doc.line_count(), 3);
}

#[test]
fn splitting_twice_gives_the_same_document() {
    let content = "日:\n day, sun\n-\nニチ\n\n月:\n moon";
    let first = Document::split(content);
    let second = Document::split(content);
    assert_eq!(first.prompt_text(), second.prompt_text());
    assert_eq!(first.detail_text(), second.detail_text());
    assert_eq!(first.line_count(), second.line_count());
}

#[test]
fn every_line_stands_on_exactly_one_side() {
    let content = "日:\n day, sun\n\n-\nニチ\n:\n--\nlast";
    let source: Vec<&str> = content.lines().collect();
    let (prompt, detail, count) = sides(content);
    assert_eq!(count as usize, source.len());
    assert_eq!(prompt.len(), source.len());
    assert_eq!(detail.len(), source.len());
    for i in 0..source.len() {
        assert!(prompt[i].is_empty() || detail[i].is_empty());
        let is_prompt = source[i].contains(':') || source[i] == "-";
        if is_prompt {
            assert_eq!(prompt[i], source[i]);
            assert_eq!(detail[i], "");
        } else {
            assert_eq!(prompt[i], "");
            assert_eq!(detail[i], source[i]);
        }
    }
}

#[test]
fn a_side_split_again_stays_as_it_is() {
    let doc = Document::split("日:\n day, sun\n-\nニチ\n");
    let prompt_again = Document::split(doc.prompt_text());
    let detail_again = Document::split(doc.detail_text());
    assert_eq!(prompt_again.prompt_text(), doc.prompt_text());
    assert_eq!(prompt_again.detail_text(), "\n\n\n\n");
    assert_eq!(detail_again.detail_text(), doc.detail_text());
    assert_eq!(detail_again.prompt_text(), "\n\n\n\n");
    assert_eq!(prompt_again.line_count(), 4);
    assert_eq!(detail_again.line_count(), 4);
}

#[test]
fn line_count_wraps_past_sixteen_bits() {
    let most = "x\n".repeat(65535);
    assert_eq!(Document::split(&most).line_count(), 65535);
    let full = "x\n".repeat(65536);
    let doc = Document::split(&full);
    assert_eq!(doc.line_count(), 0);
    assert_eq!(doc.detail_text(), full);
    let more = "x\n".repeat(65538);
    assert_eq!(Document::split(&more).line_count(), 2);
}
