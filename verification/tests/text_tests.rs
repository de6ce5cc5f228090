use sharp::html::strip_html_tags;
use sharp::sentences::{speech_segments, split_sentences};

fn strs(v: &[&str]) -> Vec<String> {
    v.iter().map(|s| s.to_string()).collect()
}

#[test]
fn sentences_split_on_marks_followed_by_space() {
    assert_eq!(
        split_sentences("Hello world. How are you? Fine!"),
        strs(&["Hello world.", "How are you?", "Fine!"])
    );
}

#[test]
fn sentences_keep_inner_dots() {
    assert_eq!(split_sentences("v1.2 is out."), strs(&["v1.2 is out."]));
    assert_eq!(split_sentences("Wait... what"), strs(&["Wait...", "what"]));
}

#[test]
fn sentences_split_on_newline_and_trim() {
    assert_eq!(split_sentences("  Hi!\nBye  "), strs(&["Hi!", "Bye"]));
    assert_eq!(split_sentences("  .  "), strs(&["."]));
}

#[test]
fn sentences_of_empty_text() {
    assert!(split_sentences("").is_empty());
    assert!(split_sentences("   \n ").is_empty());
}

#[test]
fn speech_segments_equal_sentences() {
    let text = "One. Two!  Three? four";
    assert_eq!(speech_segments(text), split_sentences(text));
    assert_eq!(speech_segments(text), strs(&["One.", "Two!", "Three?", "four"]));
}

#[test]
fn html_tags_removed_and_spaces_collapsed() {
    assert_eq!(strip_html_tags("<p>Hello <b>world</b></p>"), "Hello world");
    assert_eq!(strip_html_tags("  plain\n\ttext  "), "plain text");
    assert_eq!(strip_html_tags(""), "");
}

#[test]
fn html_script_and_style_dropped() {
    assert_eq!(
        strip_html_tags("<script>var x = 1;</script><p>Hi &amp; bye</p>"),
        "Hi & bye"
    );
    assert_eq!(strip_html_tags("<STYLE type=\"x\">body{}</STYLE>text"), "text");
    assert_eq!(strip_html_tags("a< Script >b</script >c"), "a c");
}

#[test]
fn html_entities_decoded_in_order() {
    assert_eq!(
        strip_html_tags("&lt;b&gt; &quot;q&quot; &#39;s&#39; a&nbsp;b"),
        "<b> \"q\" 's' a b"
    );
    assert_eq!(strip_html_tags("&amp;lt;"), "<");
}

#[test]
fn html_text_is_collapsed() {
    let out = strip_html_tags("<div>\n  a \u{a0} b </div>\u{3000}<br/>c  ");
    assert_eq!(out, "a b c");
    assert!(!out.contains("  "));
    assert_eq!(out.trim(), out);
}

#[test]
fn html_lt_inside_script_opens_a_tag() {
    // Inside a script a `<` starts a tag too, so `< 2;</script>` is one tag
    // that does not close the script.
    assert_eq!(strip_html_tags("<script>1 < 2;</script><p>x</p>"), "");
}

#[test]
fn each_sentence_splits_to_itself() {
    let text = "  One. Two?Still two!  Three...\nFour ";
    for s in split_sentences(text) {
        assert_eq!(split_sentences(&s), vec![s.clone()]);
    }
}

#[test]
fn splitting_a_joined_pair_splits_each_part() {
    let a = "First one. Second!";
    let b = "  third part? fourth";
    let mut both = split_sentences(a);
    both.extend(split_sentences(b));
    assert_eq!(split_sentences(&format!("{a} {b}")), both);
}

#[test]
fn no_sentences_exactly_for_blank_text() {
    assert!(split_sentences(" \n\t ").is_empty());
    assert!(split_sentences("").is_empty());
    assert_eq!(split_sentences(" . "), strs(&["."]));
}

#[test]
fn script_and_style_elements_act_as_one_separator() {
    let p = "Before&amp;";
    let q = "after";
    let plain = strip_html_tags(&format!("{p} {q}"));
    assert_eq!(plain, "Before& after");
    assert_eq!(strip_html_tags(&format!("{p}<script>var x = 1 > 0;</script>{q}")), plain);
    assert_eq!(strip_html_tags(&format!("{p}<style>p {{ color: red }}</style>{q}")), plain);
}

#[test]
fn stripping_the_text_again_changes_nothing() {
    let html = "<html><body><h1>Title</h1>\n<p>Some  <b>bold</b>\ttext</p><script>x()</script></body></html>";
    let once = strip_html_tags(html);
    assert_eq!(once, "Title Some bold text");
    assert_eq!(strip_html_tags(&once), once);
}
